//! Items: creating, changing, moving, archiving, finding and listing them.

use vstd::prelude::*;
use crate::errors::ApiError;
use crate::external::{is_utc_seconds_stamp, is_uuid_v4_text, new_uuid, now};
use crate::model::{
    ApiItem, CreateItemRequest, ItemRecord, ItemStatus, MoveItemRequest, ShelfType,
    UpdateItemRequest, api_item_of, clean_optional, cleaned, opt_view, parse_shelf_type,
    parse_status, shelf_named, status_named, user_key, user_pk,
};
use crate::order::{SortOrder, lemma_stable_sorted_is_stable_sort, stable_sort, stable_sorted};
use crate::text::{
    lemma_text_less_irreflexive, lemma_text_less_negatively_transitive, lemma_text_less_total,
    lemma_text_less_transitive, same_text, text_less, text_precedes, trim, trimmed,
};

verus! {

broadcast use vstd::seq_lib::group_seq_properties;

/// Items with the latest `updated_at` first.
pub struct NewestFirst;

impl SortOrder<ApiItem> for NewestFirst {
    open spec fn before(a: ApiItem, b: ApiItem) -> bool {
        text_less(b.updated_at@, a.updated_at@)
    }

    proof fn lemma_irreflexive(a: ApiItem) {
        lemma_text_less_irreflexive(a.updated_at@);
    }

    proof fn lemma_transitive(a: ApiItem, b: ApiItem, c: ApiItem) {
        lemma_text_less_transitive(c.updated_at@, b.updated_at@, a.updated_at@);
    }

    proof fn lemma_negatively_transitive(a: ApiItem, b: ApiItem, c: ApiItem) {
        lemma_text_less_negatively_transitive(c.updated_at@, b.updated_at@, a.updated_at@);
    }

    fn precedes(a: &ApiItem, b: &ApiItem) -> (r: bool) {
        text_precedes(b.updated_at.as_str(), a.updated_at.as_str())
    }
}

/// An absent due date comes first; present ones go by `text_less`.
pub open spec fn due_less(a: Option<Seq<char>>, b: Option<Seq<char>>) -> bool {
    match (a, b) {
        (None, Some(_)) => true,
        (Some(x), Some(y)) => text_less(x, y),
        _ => false,
    }
}

proof fn lemma_due_less_irreflexive(a: Option<Seq<char>>)
    ensures
        !due_less(a, a),
{
    if let Some(x) = a {
        lemma_text_less_irreflexive(x);
    }
}

proof fn lemma_due_less_transitive(a: Option<Seq<char>>, b: Option<Seq<char>>, c: Option<Seq<char>>)
    requires
        due_less(a, b),
        due_less(b, c),
    ensures
        due_less(a, c),
{
    if let (Some(x), Some(y), Some(z)) = (a, b, c) {
        lemma_text_less_transitive(x, y, z);
    }
}

proof fn lemma_due_less_total(a: Option<Seq<char>>, b: Option<Seq<char>>)
    ensures
        a == b || due_less(a, b) || due_less(b, a),
{
    if let (Some(x), Some(y)) = (a, b) {
        lemma_text_less_total(x, y);
    }
}

/// Items by due date, those without one first, then the latest
/// `updated_at` first among equal due dates.
pub struct DueSoonest;

impl SortOrder<ApiItem> for DueSoonest {
    open spec fn before(a: ApiItem, b: ApiItem) -> bool {
        ||| due_less(opt_view(a.due_at), opt_view(b.due_at))
        ||| opt_view(a.due_at) == opt_view(b.due_at) && text_less(b.updated_at@, a.updated_at@)
    }

    proof fn lemma_irreflexive(a: ApiItem) {
        lemma_due_less_irreflexive(opt_view(a.due_at));
        lemma_text_less_irreflexive(a.updated_at@);
    }

    proof fn lemma_transitive(a: ApiItem, b: ApiItem, c: ApiItem) {
        let (da, db, dc) = (opt_view(a.due_at), opt_view(b.due_at), opt_view(c.due_at));
        if due_less(da, db) && due_less(db, dc) {
            lemma_due_less_transitive(da, db, dc);
        }
        if da == db && db == dc && text_less(b.updated_at@, a.updated_at@) && text_less(
            c.updated_at@,
            b.updated_at@,
        ) {
            lemma_text_less_transitive(c.updated_at@, b.updated_at@, a.updated_at@);
        }
    }

    proof fn lemma_negatively_transitive(a: ApiItem, b: ApiItem, c: ApiItem) {
        let (da, db, dc) = (opt_view(a.due_at), opt_view(b.due_at), opt_view(c.due_at));
        lemma_due_less_total(da, db);
        if due_less(db, da) && due_less(da, dc) {
            lemma_due_less_transitive(db, da, dc);
        }
        if da == db && da == dc && text_less(c.updated_at@, a.updated_at@) {
            lemma_text_less_negatively_transitive(c.updated_at@, b.updated_at@, a.updated_at@);
        }
    }

    fn precedes(a: &ApiItem, b: &ApiItem) -> (r: bool) {
        if due_precedes(&a.due_at, &b.due_at) {
            true
        } else if same_optional_text(&a.due_at, &b.due_at) {
            text_precedes(b.updated_at.as_str(), a.updated_at.as_str())
        } else {
            false
        }
    }
}

/// Decides `due_less`.
pub fn due_precedes(a: &Option<String>, b: &Option<String>) -> (r: bool)
    ensures
        r == due_less(opt_view(*a), opt_view(*b)),
{
    match (a, b) {
        (None, Some(_)) => true,
        (Some(x), Some(y)) => text_precedes(x.as_str(), y.as_str()),
        _ => false,
    }
}

/// Tells whether two optional texts are both absent or both the same text.
pub fn same_optional_text(a: &Option<String>, b: &Option<String>) -> (r: bool)
    ensures
        r == (opt_view(*a) == opt_view(*b)),
{
    match (a, b) {
        (None, None) => true,
        (Some(x), Some(y)) => same_text(x.as_str(), y.as_str()),
        _ => false,
    }
}

/// `item` is the new item that `payload` describes for `user_id`, with the
/// sort key made from `sk_id`, the id `item_id` and the time `now`.
pub open spec fn new_item(
    user_id: Seq<char>,
    payload: CreateItemRequest,
    sk_id: Seq<char>,
    item_id: Seq<char>,
    now: Seq<char>,
    item: ItemRecord,
) -> bool {
    &&& item.pk@ == user_key(user_id)
    &&& item.sk@ == "ITEM#"@ + sk_id
    &&& item.entity_type@ == "item"@
    &&& item.id@ == item_id
    &&& item.user_id@ == user_id
    &&& item.title@ == trimmed(payload.title@)
    &&& item.shelf_type == match payload.shelf_type {
        Some(t) => t,
        None => ShelfType::Middle,
    }
    &&& opt_view(item.category) == cleaned(opt_view(payload.category))
    &&& opt_view(item.due_at) == cleaned(opt_view(payload.due_at))
    &&& opt_view(item.notes) == cleaned(opt_view(payload.notes))
    &&& item.status == ItemStatus::Active
    &&& item.created_at@ == now
    &&& item.updated_at@ == now
    &&& item.last_reviewed_at is None
}

/// A title that is blank once trimmed.
pub open spec fn blank(s: Seq<char>) -> bool {
    trimmed(s).len() == 0
}

/// Builds the record of a new item from the request, or refuses a blank title.
pub fn build_item(
    user_id: &str,
    payload: CreateItemRequest,
    sk_id: String,
    item_id: String,
    now: String,
) -> (r: Result<ItemRecord, ApiError>)
    ensures
        blank(payload.title@) ==> r == Err::<ItemRecord, ApiError>(ApiError::TitleRequired),
        !blank(payload.title@) ==> (r matches Ok(item) && new_item(
            user_id@,
            payload,
            sk_id@,
            item_id@,
            now@,
            item,
        )),
{
    let title = trim(payload.title.as_str());
    if title.as_str().unicode_len() == 0 {
        return Err(ApiError::TitleRequired);
    }
    let shelf_type = match payload.shelf_type {
        Some(t) => t,
        None => ShelfType::Middle,
    };
    let mut sk = "ITEM#".to_owned();
    sk.append(sk_id.as_str());
    let created_at = now.clone();
    Ok(
        ItemRecord {
            pk: user_pk(user_id),
            sk,
            entity_type: "item".to_owned(),
            id: item_id,
            user_id: user_id.to_owned(),
            title,
            shelf_type,
            category: clean_optional(payload.category),
            due_at: clean_optional(payload.due_at),
            notes: clean_optional(payload.notes),
            status: ItemStatus::Active,
            created_at,
            updated_at: now,
            last_reviewed_at: None,
        },
    )
}

/// Creates the record of a new item for `user_id`, with fresh identifiers
/// for its sort key and its id and the current time, or refuses a blank
/// title.
pub fn create_item(user_id: &str, payload: CreateItemRequest) -> (r: Result<ItemRecord, ApiError>)
    ensures
        blank(payload.title@) ==> r == Err::<ItemRecord, ApiError>(ApiError::TitleRequired),
        !blank(payload.title@) ==> (r matches Ok(item) && {
            &&& new_item(
                user_id@,
                payload,
                item.sk@.skip(5),
                item.id@,
                item.created_at@,
                item,
            )
            &&& is_uuid_v4_text(item.sk@.skip(5))
            &&& is_uuid_v4_text(item.id@)
            &&& is_utc_seconds_stamp(item.created_at@)
        }),
{
    let sk_id = new_uuid();
    let item_id = new_uuid();
    let stamp = now();
    let ghost (s, i, n) = (sk_id@, item_id@, stamp@);
    let r = build_item(user_id, payload, sk_id, item_id, stamp);
    proof {
        reveal_strlit("ITEM#");
        if r is Ok {
            assert(r->Ok_0.sk@.skip(5) =~= s);
        }
    }
    r
}

/// The result of a change to an optional field: set (and cleaned) when the
/// change is present, kept otherwise.
pub open spec fn patched(old: Option<String>, change: Option<Option<String>>) -> Option<Seq<char>> {
    match change {
        Some(c) => cleaned(opt_view(c)),
        None => opt_view(old),
    }
}

/// The change sets a blank title.
pub open spec fn update_refused(patch: UpdateItemRequest) -> bool {
    patch.title matches Some(t) && blank(t@)
}

/// `new` is `old` changed by `patch` at time `now`: the keys, owner, id and
/// creation time stay; each field the patch holds is set; `updated_at` is now.
pub open spec fn updated_item(
    old: ItemRecord,
    patch: UpdateItemRequest,
    now: Seq<char>,
    new: ItemRecord,
) -> bool {
    &&& new.pk == old.pk
    &&& new.sk == old.sk
    &&& new.entity_type == old.entity_type
    &&& new.id == old.id
    &&& new.user_id == old.user_id
    &&& new.created_at == old.created_at
    &&& new.title@ == match patch.title {
        Some(t) => trimmed(t@),
        None => old.title@,
    }
    &&& new.shelf_type == match patch.shelf_type {
        Some(t) => t,
        None => old.shelf_type,
    }
    &&& opt_view(new.category) == patched(old.category, patch.category)
    &&& opt_view(new.due_at) == patched(old.due_at, patch.due_at)
    &&& opt_view(new.notes) == patched(old.notes, patch.notes)
    &&& new.status == match patch.status {
        Some(s) => s,
        None => old.status,
    }
    &&& opt_view(new.last_reviewed_at) == patched(old.last_reviewed_at, patch.last_reviewed_at)
    &&& new.updated_at@ == now
}

/// Applies a change to an item at time `now`, or refuses a blank title.
pub fn apply_update(item: ItemRecord, patch: UpdateItemRequest, now: String) -> (r: Result<
    ItemRecord,
    ApiError,
>)
    ensures
        update_refused(patch) ==> r == Err::<ItemRecord, ApiError>(ApiError::TitleCannotBeEmpty),
        !update_refused(patch) ==> (r matches Ok(new) && updated_item(item, patch, now@, new)),
{
    let ghost old = item;
    let ghost p = patch;
    let mut item = item;
    if let Some(title) = patch.title {
        let t = trim(title.as_str());
        if t.as_str().unicode_len() == 0 {
            return Err(ApiError::TitleCannotBeEmpty);
        }
        item.title = t;
    }
    if let Some(shelf_type) = patch.shelf_type {
        item.shelf_type = shelf_type;
    }
    if let Some(category) = patch.category {
        item.category = clean_optional(category);
    }
    if let Some(due_at) = patch.due_at {
        item.due_at = clean_optional(due_at);
    }
    if let Some(notes) = patch.notes {
        item.notes = clean_optional(notes);
    }
    if let Some(status) = patch.status {
        item.status = status;
    }
    if let Some(last_reviewed_at) = patch.last_reviewed_at {
        item.last_reviewed_at = clean_optional(last_reviewed_at);
    }
    item.updated_at = now;
    Ok(item)
}

/// Applies a change to an item at the current time, or refuses a blank title.
pub fn update_item(item: ItemRecord, patch: UpdateItemRequest) -> (r: Result<ItemRecord, ApiError>)
    ensures
        update_refused(patch) ==> r == Err::<ItemRecord, ApiError>(ApiError::TitleCannotBeEmpty),
        !update_refused(patch) ==> (r matches Ok(new) && updated_item(
            item,
            patch,
            new.updated_at@,
            new,
        ) && is_utc_seconds_stamp(new.updated_at@)),
{
    let stamp = now();
    apply_update(item, patch, stamp)
}

/// The change that moving an item to `shelf` makes.
pub open spec fn move_patch(shelf: ShelfType) -> UpdateItemRequest {
    UpdateItemRequest {
        title: None,
        shelf_type: Some(shelf),
        category: None,
        due_at: None,
        notes: None,
        status: None,
        last_reviewed_at: None,
    }
}

/// The change that archiving an item makes.
pub open spec fn archive_patch() -> UpdateItemRequest {
    UpdateItemRequest {
        title: None,
        shelf_type: None,
        category: None,
        due_at: None,
        notes: None,
        status: Some(ItemStatus::Archived),
        last_reviewed_at: None,
    }
}

/// The change that a request to move an item makes: its shelf, nothing else.
pub fn move_item(payload: MoveItemRequest) -> (r: UpdateItemRequest)
    ensures
        r == move_patch(payload.shelf_type),
{
    UpdateItemRequest {
        title: None,
        shelf_type: Some(payload.shelf_type),
        category: None,
        due_at: None,
        notes: None,
        status: None,
        last_reviewed_at: None,
    }
}

/// The change that archiving an item makes: its status, nothing else.
pub fn archive_item() -> (r: UpdateItemRequest)
    ensures
        r == archive_patch(),
{
    UpdateItemRequest {
        title: None,
        shelf_type: None,
        category: None,
        due_at: None,
        notes: None,
        status: Some(ItemStatus::Archived),
        last_reviewed_at: None,
    }
}

/// The first record in `s` with the id `id`.
pub open spec fn first_with_id(s: Seq<ItemRecord>, id: Seq<char>) -> Option<ItemRecord>
    decreases s.len(),
{
    if s.len() == 0 {
        None
    } else if s[0].id@ == id {
        Some(s[0])
    } else {
        first_with_id(s.drop_first(), id)
    }
}

/// The first of a user's item records with the id `item_id`.
pub fn find_item(records: Vec<ItemRecord>, item_id: &str) -> (r: Option<ItemRecord>)
    ensures
        r == first_with_id(records@, item_id@),
{
    broadcast use vstd::std_specs::vec::group_vec_axioms;

    let ghost s = records@;
    assert(s.skip(0) =~= s);
    for record in it: records.into_iter()
        invariant
            it.seq() == s,
            first_with_id(s, item_id@) == first_with_id(s.skip(it.index()), item_id@),
    {
        assert(s.skip(it.index())[0] == record);
        if same_text(record.id.as_str(), item_id) {
            return Some(record);
        }
        assert(s.skip(it.index()).drop_first() =~= s.skip(it.index() + 1));
    }
    None
}

/// The item a lookup found, or `ItemNotFound` where it found none.
pub fn found_item(found: Option<ItemRecord>) -> (r: Result<ItemRecord, ApiError>)
    ensures
        found matches Some(item) ==> r == Ok::<ItemRecord, ApiError>(item),
        found is None ==> r == Err::<ItemRecord, ApiError>(ApiError::ItemNotFound),
{
    match found {
        Some(item) => Ok(item),
        None => Err(ApiError::ItemNotFound),
    }
}

/// Applies a change to the item a lookup found: `ItemNotFound` where it
/// found none, else what `update_item` gives, so a missing item is answered
/// before the change is looked at.
pub fn update_found(found: Option<ItemRecord>, patch: UpdateItemRequest) -> (r: Result<
    ItemRecord,
    ApiError,
>)
    ensures
        found is None ==> r == Err::<ItemRecord, ApiError>(ApiError::ItemNotFound),
        found matches Some(item) ==> {
            &&& update_refused(patch) ==> r == Err::<ItemRecord, ApiError>(
                ApiError::TitleCannotBeEmpty,
            )
            &&& !update_refused(patch) ==> (r matches Ok(new) && updated_item(
                item,
                patch,
                new.updated_at@,
                new,
            ) && is_utc_seconds_stamp(new.updated_at@))
        },
{
    match found {
        Some(item) => update_item(item, patch),
        None => Err(ApiError::ItemNotFound),
    }
}

/// The view of an optional string slice.
pub open spec fn opt_str_view(o: Option<&str>) -> Option<Seq<char>> {
    match o {
        Some(s) => Some(s@),
        None => None,
    }
}

/// The record is on the shelf (if one is asked for), has the status, and
/// has the category (if one is asked for).
pub open spec fn item_selected(
    r: ItemRecord,
    shelf: Option<ShelfType>,
    status: ItemStatus,
    category: Option<Seq<char>>,
) -> bool {
    &&& (shelf matches Some(t) ==> r.shelf_type == t)
    &&& r.status == status
    &&& (category matches Some(c) ==> opt_view(r.category) == Some(c))
}

/// The selected records, in their order, as the API shows them.
pub open spec fn selected_items(
    s: Seq<ItemRecord>,
    shelf: Option<ShelfType>,
    status: ItemStatus,
    category: Option<Seq<char>>,
) -> Seq<ApiItem> {
    s.filter(|r: ItemRecord| item_selected(r, shelf, status, category)).map_values(
        |r: ItemRecord| api_item_of(r),
    )
}

/// What `list_items` answers for `s` and the query parameters.
pub open spec fn listed(
    s: Seq<ItemRecord>,
    shelf_param: Option<&str>,
    status_param: Option<&str>,
    category: Option<&str>,
) -> Seq<ApiItem> {
    stable_sorted::<ApiItem, DueSoonest>(
        selected_items(s, shelf_asked(shelf_param), status_asked(status_param), opt_str_view(category)),
    )
}

/// The shelf a `shelf` parameter asks for: none when absent or not a shelf name.
pub open spec fn shelf_asked(shelf_param: Option<&str>) -> Option<ShelfType> {
    match shelf_param {
        Some(p) => shelf_named(p@),
        None => None,
    }
}

/// The status a `status` parameter asks for: active when absent or not a status name.
pub open spec fn status_asked(status_param: Option<&str>) -> ItemStatus {
    match status_param {
        Some(p) => match status_named(p@) {
            Some(s) => s,
            None => ItemStatus::Active,
        },
        None => ItemStatus::Active,
    }
}

/// Decides `item_selected`.
fn selects(
    r: &ItemRecord,
    shelf: Option<ShelfType>,
    status: ItemStatus,
    category: Option<&str>,
) -> (b: bool)
    ensures
        b == item_selected(*r, shelf, status, opt_str_view(category)),
{
    let on_shelf = match shelf {
        Some(t) => r.shelf_type == t,
        None => true,
    };
    let in_category = match category {
        Some(c) => match &r.category {
            Some(rc) => same_text(rc.as_str(), c),
            None => false,
        },
        None => true,
    };
    on_shelf && r.status == status && in_category
}

/// The items of a user that a listing asks for: on the `shelf` named (if
/// it names one), with the `status` named (active unless it names one), in
/// the `category` (if given); by due date, undated first, then the most
/// recently updated first.
pub fn list_items(
    records: Vec<ItemRecord>,
    shelf_param: Option<&str>,
    status_param: Option<&str>,
    category: Option<&str>,
) -> (r: Vec<ApiItem>)
    ensures
        r@ == stable_sorted::<ApiItem, DueSoonest>(
            selected_items(
                records@,
                shelf_asked(shelf_param),
                status_asked(status_param),
                opt_str_view(category),
            ),
        ),
{
    broadcast use vstd::std_specs::vec::group_vec_axioms;

    let shelf = match shelf_param {
        Some(p) => parse_shelf_type(p),
        None => None,
    };
    let status = match status_param {
        Some(p) => match parse_status(p) {
            Some(s) => s,
            None => ItemStatus::Active,
        },
        None => ItemStatus::Active,
    };
    let ghost s = records@;
    let ghost cat = opt_str_view(category);
    let ghost pred = |x: ItemRecord| item_selected(x, shelf, status, cat);
    let mut out: Vec<ApiItem> = Vec::new();
    for record in it: records.into_iter()
        invariant
            it.seq() == s,
            pred == (|x: ItemRecord| item_selected(x, shelf, status, cat)),
            cat == opt_str_view(category),
            out@ == s.take(it.index()).filter(pred).map_values(|x: ItemRecord| api_item_of(x)),
    {
        let ghost k = it.index();
        proof {
            assert(s.take(k + 1) =~= s.take(k).push(record));
            s.take(k).lemma_filter_push(record, pred);
        }
        if selects(&record, shelf, status, category) {
            out.push(ApiItem::from(record));
        }
        assert(out@ =~= s.take(k + 1).filter(pred).map_values(|x: ItemRecord| api_item_of(x)));
    }
    assert(s.take(s.len() as int) =~= s);
    stable_sort::<ApiItem, DueSoonest>(out)
}

/// Moving an item sets its shelf and its update time and leaves everything
/// else as it was.
pub proof fn lemma_move_changes_only_the_shelf(
    old: ItemRecord,
    shelf: ShelfType,
    now: Seq<char>,
    new: ItemRecord,
)
    requires
        updated_item(old, move_patch(shelf), now, new),
    ensures
        new.shelf_type == shelf,
        new.updated_at@ == now,
        new.id == old.id && new.pk == old.pk && new.sk == old.sk,
        new.title@ == old.title@,
        new.status == old.status,
        opt_view(new.category) == opt_view(old.category),
        opt_view(new.due_at) == opt_view(old.due_at),
        opt_view(new.notes) == opt_view(old.notes),
        opt_view(new.last_reviewed_at) == opt_view(old.last_reviewed_at),
        new.created_at == old.created_at,
{
}

/// Archiving an item sets its status to archived and its update time and
/// leaves everything else, its shelf too, as it was.
pub proof fn lemma_archive_changes_only_the_status(old: ItemRecord, now: Seq<char>, new: ItemRecord)
    requires
        updated_item(old, archive_patch(), now, new),
    ensures
        new.status == ItemStatus::Archived,
        new.updated_at@ == now,
        new.id == old.id && new.pk == old.pk && new.sk == old.sk,
        new.title@ == old.title@,
        new.shelf_type == old.shelf_type,
        opt_view(new.category) == opt_view(old.category),
        opt_view(new.due_at) == opt_view(old.due_at),
        opt_view(new.notes) == opt_view(old.notes),
        opt_view(new.last_reviewed_at) == opt_view(old.last_reviewed_at),
        new.created_at == old.created_at,
{
}

/// Moves and archives never set a title, so they are never refused.
pub proof fn lemma_move_and_archive_are_never_refused(shelf: ShelfType)
    ensures
        !update_refused(move_patch(shelf)),
        !update_refused(archive_patch()),
{
}

/// What `find_item` finds has the id asked for and is one of the records;
/// when it finds nothing, no record has that id.
pub proof fn lemma_found_item_has_the_id(s: Seq<ItemRecord>, id: Seq<char>)
    ensures
        first_with_id(s, id) matches Some(r) ==> r.id@ == id && s.contains(r),
        first_with_id(s, id) is None ==> forall|i: int| 0 <= i < s.len() ==> (#[trigger] s[i]).id@ != id,
    decreases s.len(),
{
    if s.len() > 0 {
        lemma_found_item_has_the_id(s.drop_first(), id);
        if s[0].id@ != id {
            if let Some(r) = first_with_id(s.drop_first(), id) {
                let j = choose|j: int| 0 <= j < s.drop_first().len() && s.drop_first()[j] == r;
                assert(s[j + 1] == r);
            }
            assert forall|i: int| 0 <= i < s.len() && first_with_id(s, id) is None implies (
            #[trigger] s[i]).id@ != id by {
                if i > 0 {
                    assert(s[i] == s.drop_first()[i - 1]);
                }
            }
        }
    }
}

/// An item stored after records none of which has its id is found by its id.
pub proof fn lemma_stored_item_is_found(s: Seq<ItemRecord>, item: ItemRecord)
    requires
        forall|i: int| 0 <= i < s.len() ==> (#[trigger] s[i]).id@ != item.id@,
    ensures
        first_with_id(s.push(item), item.id@) == Some(item),
    decreases s.len(),
{
    if s.len() > 0 {
        assert(s.push(item).drop_first() =~= s.drop_first().push(item));
        assert forall|i: int| 0 <= i < s.drop_first().len() implies (
        #[trigger] s.drop_first()[i]).id@ != item.id@ by {
            assert(s.drop_first()[i] == s[i + 1]);
        }
        lemma_stored_item_is_found(s.drop_first(), item);
    }
}

/// Every item a listing shows is one of the records, seen through the API,
/// that the listing selects: on the shelf and in the category asked for,
/// with the status asked for (active when none is).
pub proof fn lemma_listed_items_are_selected(
    s: Seq<ItemRecord>,
    shelf: Option<ShelfType>,
    status: ItemStatus,
    category: Option<Seq<char>>,
    i: int,
)
    requires
        0 <= i < stable_sorted::<ApiItem, DueSoonest>(selected_items(s, shelf, status, category)).len(),
    ensures
        exists|r: ItemRecord|
            #![trigger api_item_of(r)]
            s.contains(r) && item_selected(r, shelf, status, category) && api_item_of(r)
                == stable_sorted::<ApiItem, DueSoonest>(selected_items(s, shelf, status, category))[i],
{
    broadcast use vstd::seq_lib::group_to_multiset_ensures, vstd::seq_lib::group_filter_ensures;

    let sel = selected_items(s, shelf, status, category);
    let sorted = stable_sorted::<ApiItem, DueSoonest>(sel);
    lemma_stable_sorted_is_stable_sort::<ApiItem, DueSoonest>(sel);
    let x = sorted[i];
    assert(sorted.to_multiset().count(x) > 0);
    assert(sel.contains(x));
    let pred = |r: ItemRecord| item_selected(r, shelf, status, category);
    let kept = s.filter(pred);
    let j = choose|j: int| 0 <= j < sel.len() && sel[j] == x;
    assert(sel[j] == api_item_of(kept[j]));
    s.lemma_filter_pred(pred, j);
    assert(kept.contains(kept[j]));
    s.lemma_filter_contains_rev(pred, kept[j]);
}

/// After an item is archived, the default listing (no shelf, no status, no
/// category asked for) leaves it out: here `s` holds the records with the
/// archived item at `j` and no other record with its id.
pub proof fn lemma_archived_item_leaves_the_default_listing(
    s: Seq<ItemRecord>,
    j: int,
    now: Seq<char>,
    archived: ItemRecord,
)
    requires
        0 <= j < s.len(),
        updated_item(s[j], archive_patch(), now, archived),
        forall|k: int| 0 <= k < s.len() && k != j ==> (#[trigger] s[k]).id@ != s[j].id@,
    ensures
        forall|i: int|
            0 <= i < stable_sorted::<ApiItem, DueSoonest>(
                selected_items(s.update(j, archived), shelf_asked(None), status_asked(None), None),
            ).len() ==> (#[trigger] stable_sorted::<ApiItem, DueSoonest>(
                selected_items(s.update(j, archived), shelf_asked(None), status_asked(None), None),
            )[i]).id@ != s[j].id@,
{
    let s2 = s.update(j, archived);
    let listed = stable_sorted::<ApiItem, DueSoonest>(
        selected_items(s2, shelf_asked(None), status_asked(None), None),
    );
    assert forall|i: int| 0 <= i < listed.len() implies (#[trigger] listed[i]).id@ != s[j].id@ by {
        lemma_listed_items_are_selected(s2, None, ItemStatus::Active, None, i);
        let r = choose|r: ItemRecord|
            #![trigger api_item_of(r)]
            s2.contains(r) && item_selected(r, None, ItemStatus::Active, None) && api_item_of(r)
                == listed[i];
        let k = choose|k: int| 0 <= k < s2.len() && s2[k] == r;
        if k == j {
            assert(r.status == ItemStatus::Archived);
        } else {
            assert(r == s[k]);
        }
    }
}

/// After an item is archived, the listing of archived items (no shelf and no
/// category asked for) shows it: here `s` holds the records with the
/// archived item at `j`.
pub proof fn lemma_archived_item_is_listed_as_archived(
    s: Seq<ItemRecord>,
    j: int,
    now: Seq<char>,
    archived: ItemRecord,
)
    requires
        0 <= j < s.len(),
        updated_item(s[j], archive_patch(), now, archived),
    ensures
        status_asked(Some("archived")) == ItemStatus::Archived,
        stable_sorted::<ApiItem, DueSoonest>(
            selected_items(
                s.update(j, archived),
                shelf_asked(None),
                status_asked(Some("archived")),
                None,
            ),
        ).contains(api_item_of(archived)),
        api_item_of(archived).id == s[j].id,
        api_item_of(archived).status == ItemStatus::Archived,
{
    broadcast use vstd::seq_lib::group_to_multiset_ensures;

    reveal_strlit("archived");
    reveal_strlit("active");
    assert("archived"@.len() != "active"@.len());
    let s2 = s.update(j, archived);
    let pred = |r: ItemRecord| item_selected(r, None, ItemStatus::Archived, None);
    let sel = selected_items(s2, None, ItemStatus::Archived, None);
    assert(s2[j] == archived);
    s2.lemma_filter_contains(pred, j);
    let kept = s2.filter(pred);
    let m = choose|m: int| 0 <= m < kept.len() && kept[m] == archived;
    assert(sel[m] == api_item_of(archived));
    assert(sel.contains(api_item_of(archived)));
    lemma_stable_sorted_is_stable_sort::<ApiItem, DueSoonest>(sel);
    assert(sel.to_multiset().count(api_item_of(archived)) > 0);
}


/// `out` is what an optional text `given` in a request becomes: absent when
/// it is absent or blank, else present and trimmed.
pub open spec fn takes_text(given: Option<String>, out: Option<String>) -> bool {
    match given {
        None => out is None,
        Some(g) => if trimmed(g@).len() == 0 {
            out is None
        } else {
            out matches Some(o) && o@ == trimmed(g@)
        },
    }
}

/// `new` is what an optional field `old` becomes under a change: kept when
/// the change is absent, cleared by an explicit absence, else set as
/// `takes_text` says.
pub open spec fn takes_change(
    old: Option<String>,
    change: Option<Option<String>>,
    new: Option<String>,
) -> bool {
    match change {
        None => opt_view(new) == opt_view(old),
        Some(c) => takes_text(c, new),
    }
}

proof fn lemma_cleaned_takes_text(given: Option<String>, out: Option<String>)
    requires
        opt_view(out) == cleaned(opt_view(given)),
    ensures
        takes_text(given, out),
{
}

/// A created item holds what the request asked for: the trimmed title, the
/// shelf asked (Middle when none), each of category, due date and notes
/// trimmed and present when the request holds it non-blank and absent
/// otherwise; it is active, owned by and keyed to the user, and created and
/// updated at the same time.
pub proof fn lemma_created_item_keeps_the_request(
    user_id: Seq<char>,
    payload: CreateItemRequest,
    sk_id: Seq<char>,
    item_id: Seq<char>,
    now: Seq<char>,
    item: ItemRecord,
)
    requires
        new_item(user_id, payload, sk_id, item_id, now, item),
    ensures
        item.title@ == trimmed(payload.title@),
        payload.shelf_type matches Some(t) ==> item.shelf_type == t,
        payload.shelf_type is None ==> item.shelf_type == ShelfType::Middle,
        takes_text(payload.category, item.category),
        takes_text(payload.due_at, item.due_at),
        takes_text(payload.notes, item.notes),
        item.status == ItemStatus::Active,
        item.user_id@ == user_id,
        item.pk@ == user_key(user_id),
        item.id@ == item_id,
        item.created_at@ == now && item.updated_at@ == now,
        item.last_reviewed_at is None,
{
    lemma_cleaned_takes_text(payload.category, item.category);
    lemma_cleaned_takes_text(payload.due_at, item.due_at);
    lemma_cleaned_takes_text(payload.notes, item.notes);
}

/// An accepted change sets every field the request holds and keeps every
/// other one: a title is trimmed, a shelf or status is taken as given, each
/// optional text is set trimmed (or cleared when blank or explicitly
/// absent), and `updated_at` is the time of the change; the keys, owner, id
/// and creation time never change.
pub proof fn lemma_change_sets_each_field_it_holds(
    old: ItemRecord,
    patch: UpdateItemRequest,
    now: Seq<char>,
    new: ItemRecord,
)
    requires
        updated_item(old, patch, now, new),
    ensures
        patch.title matches Some(t) ==> new.title@ == trimmed(t@),
        patch.title is None ==> new.title@ == old.title@,
        patch.shelf_type matches Some(t) ==> new.shelf_type == t,
        patch.shelf_type is None ==> new.shelf_type == old.shelf_type,
        patch.status matches Some(s) ==> new.status == s,
        patch.status is None ==> new.status == old.status,
        takes_change(old.category, patch.category, new.category),
        takes_change(old.due_at, patch.due_at, new.due_at),
        takes_change(old.notes, patch.notes, new.notes),
        takes_change(old.last_reviewed_at, patch.last_reviewed_at, new.last_reviewed_at),
        new.updated_at@ == now,
        new.pk == old.pk && new.sk == old.sk && new.id == old.id && new.user_id == old.user_id,
        new.created_at == old.created_at,
{
    if let Some(c) = patch.category {
        lemma_cleaned_takes_text(c, new.category);
    }
    if let Some(c) = patch.due_at {
        lemma_cleaned_takes_text(c, new.due_at);
    }
    if let Some(c) = patch.notes {
        lemma_cleaned_takes_text(c, new.notes);
    }
    if let Some(c) = patch.last_reviewed_at {
        lemma_cleaned_takes_text(c, new.last_reviewed_at);
    }
}

/// The status a listing asks for: archived exactly when the parameter is
/// `archived`, else active (when absent, `active`, or any other text).
pub proof fn lemma_status_asked(status_param: Option<&str>)
    ensures
        (status_asked(status_param) == ItemStatus::Archived) == (status_param matches Some(p)
            && p@ == "archived"@),
{
    reveal_strlit("archived");
    reveal_strlit("active");
    assert("archived"@.len() != "active"@.len());
}

/// The shelf a listing asks for: the shelf named `top`, `middle` or
/// `bottom`, and no shelf filter when the parameter is absent or names none.
pub proof fn lemma_shelf_asked(shelf_param: Option<&str>)
    ensures
        (shelf_asked(shelf_param) == Some(ShelfType::Top)) == (shelf_param matches Some(p) && p@
            == "top"@),
        (shelf_asked(shelf_param) == Some(ShelfType::Middle)) == (shelf_param matches Some(p) && p@
            == "middle"@),
        (shelf_asked(shelf_param) == Some(ShelfType::Bottom)) == (shelf_param matches Some(p) && p@
            == "bottom"@),
{
    reveal_strlit("top");
    reveal_strlit("middle");
    reveal_strlit("bottom");
    assert("top"@.len() != "middle"@.len());
    assert("top"@.len() != "bottom"@.len());
    assert("middle"@ != "bottom"@) by {
        assert("middle"@[0] != "bottom"@[0]);
    }
}

/// What a listing holds: every listed item has the status asked (active
/// unless `archived` is asked), is on the shelf asked and in the category
/// asked, whichever filters are given together; every record that meets all
/// of them is listed; and the items come by due date, undated first, then
/// the most recently updated first, comparing whole texts.
pub proof fn lemma_listing_filters_and_orders(
    s: Seq<ItemRecord>,
    shelf_param: Option<&str>,
    status_param: Option<&str>,
    category: Option<&str>,
)
    ensures
        forall|i: int|
            #![trigger listed(s, shelf_param, status_param, category)[i]]
            0 <= i < listed(s, shelf_param, status_param, category).len() ==> {
                let x = listed(s, shelf_param, status_param, category)[i];
                &&& x.status == status_asked(status_param)
                &&& (shelf_asked(shelf_param) matches Some(t) ==> x.shelf_type == t)
                &&& (category matches Some(c) ==> opt_view(x.category) == Some(c@))
                &&& exists|r: ItemRecord| #![trigger api_item_of(r)] s.contains(r) && api_item_of(r) == x
            },
        listed(s, shelf_param, status_param, category).len() == s.filter(
            |r: ItemRecord|
                r.status == status_asked(status_param) && (shelf_asked(shelf_param) matches Some(t)
                    ==> r.shelf_type == t) && (category matches Some(c) ==> opt_view(r.category)
                    == Some(c@)),
        ).len(),
        forall|k: int|
            0 <= k < s.len() && (#[trigger] s[k]).status == status_asked(status_param) && (
            shelf_asked(shelf_param) matches Some(t) ==> s[k].shelf_type == t) && (
            category matches Some(c) ==> opt_view(s[k].category) == Some(c@)) ==> listed(
                s,
                shelf_param,
                status_param,
                category,
            ).contains(api_item_of(s[k])),
        forall|i: int, j: int|
            0 <= i < j < listed(s, shelf_param, status_param, category).len() ==> {
                let x = #[trigger] listed(s, shelf_param, status_param, category)[i];
                let y = #[trigger] listed(s, shelf_param, status_param, category)[j];
                &&& (y.due_at is None ==> x.due_at is None)
                &&& (x.due_at is Some && y.due_at is Some ==> !text_less(
                    y.due_at->0@,
                    x.due_at->0@,
                ))
                &&& (opt_view(x.due_at) == opt_view(y.due_at) ==> !text_less(
                    x.updated_at@,
                    y.updated_at@,
                ))
            },
{
    broadcast use vstd::seq_lib::group_to_multiset_ensures;

    let shelf = shelf_asked(shelf_param);
    let status = status_asked(status_param);
    let cat = opt_str_view(category);
    let sel = selected_items(s, shelf, status, cat);
    let out = listed(s, shelf_param, status_param, category);
    lemma_stable_sorted_is_stable_sort::<ApiItem, DueSoonest>(sel);
    assert forall|i: int| 0 <= i < out.len() implies {
        let x = #[trigger] out[i];
        &&& x.status == status
        &&& (shelf matches Some(t) ==> x.shelf_type == t)
        &&& (category matches Some(c) ==> opt_view(x.category) == Some(c@))
        &&& exists|r: ItemRecord| #![trigger api_item_of(r)] s.contains(r) && api_item_of(r) == x
    } by {
        lemma_listed_items_are_selected(s, shelf, status, cat, i);
        let r = choose|r: ItemRecord|
            #![trigger api_item_of(r)]
            s.contains(r) && item_selected(r, shelf, status, cat) && api_item_of(r) == out[i];
        assert(api_item_of(r) == out[i]);
    }
    let pred = |r: ItemRecord| item_selected(r, shelf, status, cat);
    let wanted = |r: ItemRecord|
        r.status == status_asked(status_param) && (shelf_asked(shelf_param) matches Some(t)
            ==> r.shelf_type == t) && (category matches Some(c) ==> opt_view(r.category)
            == Some(c@));
    assert(pred =~= wanted);
    assert(out.to_multiset().len() == sel.to_multiset().len());
    assert(sel.len() == s.filter(pred).len());
    assert(out.len() == s.filter(wanted).len());
    assert forall|k: int|
        0 <= k < s.len() && (#[trigger] s[k]).status == status && (shelf matches Some(t)
            ==> s[k].shelf_type == t) && (category matches Some(c) ==> opt_view(s[k].category)
            == Some(c@)) implies out.contains(api_item_of(s[k])) by {
        assert(pred(s[k]));
        s.lemma_filter_contains(pred, k);
        let kept = s.filter(pred);
        let m = choose|m: int| 0 <= m < kept.len() && kept[m] == s[k];
        assert(sel[m] == api_item_of(s[k]));
        assert(sel.contains(api_item_of(s[k])));
        assert(sel.to_multiset().count(api_item_of(s[k])) > 0);
        assert(out.to_multiset().count(api_item_of(s[k])) > 0);
    }
    assert forall|i: int, j: int| #![trigger out[i], out[j]] 0 <= i < j < out.len() implies {
        &&& (out[j].due_at is None ==> out[i].due_at is None)
        &&& (out[i].due_at is Some && out[j].due_at is Some ==> !text_less(
            out[j].due_at->0@,
            out[i].due_at->0@,
        ))
        &&& (opt_view(out[i].due_at) == opt_view(out[j].due_at) ==> !text_less(
            out[i].updated_at@,
            out[j].updated_at@,
        ))
    } by {
        assert(!DueSoonest::before(out[j], out[i]));
        if let (Some(dx), Some(dy)) = (out[i].due_at, out[j].due_at) {
            assert(opt_view(out[i].due_at) == Some(dx@));
            assert(opt_view(out[j].due_at) == Some(dy@));
            assert(!due_less(Some(dy@), Some(dx@)));
            assert(!text_less(dy@, dx@));
        }
        assert(out[j].due_at is None ==> out[i].due_at is None);
        assert(opt_view(out[i].due_at) == opt_view(out[j].due_at) ==> !text_less(
            out[i].updated_at@,
            out[j].updated_at@,
        ));
    }
}

} // verus!
