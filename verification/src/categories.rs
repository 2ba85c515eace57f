//! Categories: creating them and listing them by name.

use vstd::prelude::*;
use crate::errors::ApiError;
use crate::external::{is_utc_seconds_stamp, is_uuid_v4_text, new_uuid, now};
use crate::model::{CategoryRecord, CreateCategoryRequest, user_key, user_pk};
use crate::order::{SortOrder, lemma_stable_sorted_is_stable_sort, stable_sort, stable_sorted};
use crate::text::{
    lemma_text_less_irreflexive, lemma_text_less_negatively_transitive,
    lemma_text_less_transitive, text_less, text_precedes, trim, trimmed,
};

verus! {

/// Categories by name.
pub struct ByName;

impl SortOrder<CategoryRecord> for ByName {
    open spec fn before(a: CategoryRecord, b: CategoryRecord) -> bool {
        text_less(a.name@, b.name@)
    }

    proof fn lemma_irreflexive(a: CategoryRecord) {
        lemma_text_less_irreflexive(a.name@);
    }

    proof fn lemma_transitive(a: CategoryRecord, b: CategoryRecord, c: CategoryRecord) {
        lemma_text_less_transitive(a.name@, b.name@, c.name@);
    }

    proof fn lemma_negatively_transitive(a: CategoryRecord, b: CategoryRecord, c: CategoryRecord) {
        lemma_text_less_negatively_transitive(a.name@, b.name@, c.name@);
    }

    fn precedes(a: &CategoryRecord, b: &CategoryRecord) -> (r: bool) {
        text_precedes(a.name.as_str(), b.name.as_str())
    }
}

/// A user's categories, by name; categories with the same name keep their order.
pub fn list_categories(records: Vec<CategoryRecord>) -> (r: Vec<CategoryRecord>)
    ensures
        r@ == stable_sorted::<CategoryRecord, ByName>(records@),
{
    stable_sort::<CategoryRecord, ByName>(records)
}

/// The categories of `s` named `n`, in their order.
pub open spec fn named(s: Seq<CategoryRecord>, n: Seq<char>) -> Seq<CategoryRecord> {
    s.filter(|d: CategoryRecord| d.name@ == n)
}

/// The category listing holds exactly the user's categories, each as often
/// as it was stored, ordered by the whole name: no category is listed after
/// one whose name comes later in full string order, and categories with the
/// same name keep the order they were stored in.
pub proof fn lemma_categories_are_listed_by_whole_name(s: Seq<CategoryRecord>)
    ensures
        stable_sorted::<CategoryRecord, ByName>(s).to_multiset() == s.to_multiset(),
        forall|i: int, j: int|
            0 <= i < j < stable_sorted::<CategoryRecord, ByName>(s).len() ==> !text_less(
                (#[trigger] stable_sorted::<CategoryRecord, ByName>(s)[j]).name@,
                (#[trigger] stable_sorted::<CategoryRecord, ByName>(s)[i]).name@,
            ),
        forall|c: CategoryRecord|
            named(stable_sorted::<CategoryRecord, ByName>(s), c.name@) == #[trigger] named(
                s,
                c.name@,
            ),
{
    let o = stable_sorted::<CategoryRecord, ByName>(s);
    lemma_stable_sorted_is_stable_sort::<CategoryRecord, ByName>(s);
    assert forall|i: int, j: int| 0 <= i < j < o.len() implies !text_less(
        (#[trigger] o[j]).name@,
        (#[trigger] o[i]).name@,
    ) by {
        assert(!ByName::before(o[j], o[i]));
    }
    assert forall|c: CategoryRecord| named(o, c.name@) == #[trigger] named(s, c.name@) by {
        assert(crate::order::ties::<CategoryRecord, ByName>(o, c) == crate::order::ties::<
            CategoryRecord,
            ByName,
        >(s, c));
        let p1 = |d: CategoryRecord| crate::order::tied::<CategoryRecord, ByName>(d, c);
        let p2 = |d: CategoryRecord| d.name@ == c.name@;
        assert forall|d: CategoryRecord| #[trigger] p1(d) == p2(d) by {
            crate::text::lemma_text_less_total(d.name@, c.name@);
            if d.name@ == c.name@ {
                lemma_text_less_irreflexive(d.name@);
            }
        }
        assert(p1 =~= p2);
    }
}

/// `c` is the new category that `payload` describes for `user_id`, with the
/// sort key made from `sk_id`, the id `category_id` and the time `now`.
pub open spec fn new_category(
    user_id: Seq<char>,
    payload: CreateCategoryRequest,
    sk_id: Seq<char>,
    category_id: Seq<char>,
    now: Seq<char>,
    c: CategoryRecord,
) -> bool {
    &&& c.pk@ == user_key(user_id)
    &&& c.sk@ == "CATEGORY#"@ + sk_id
    &&& c.entity_type@ == "category"@
    &&& c.id@ == category_id
    &&& c.user_id@ == user_id
    &&& c.name@ == trimmed(payload.name@)
    &&& c.created_at@ == now
}

/// A created category is named by the trimmed name asked for, keyed to and
/// owned by the user, with the id and creation time given.
pub proof fn lemma_created_category_keeps_the_request(
    user_id: Seq<char>,
    payload: CreateCategoryRequest,
    sk_id: Seq<char>,
    category_id: Seq<char>,
    now: Seq<char>,
    c: CategoryRecord,
)
    requires
        new_category(user_id, payload, sk_id, category_id, now, c),
    ensures
        c.name@ == trimmed(payload.name@),
        c.pk@ == user_key(user_id),
        c.user_id@ == user_id,
        c.id@ == category_id,
        c.created_at@ == now,
{
}

/// Builds the record of a new category, or refuses a blank name.
pub fn build_category(
    user_id: &str,
    payload: CreateCategoryRequest,
    sk_id: String,
    category_id: String,
    now: String,
) -> (r: Result<CategoryRecord, ApiError>)
    ensures
        trimmed(payload.name@).len() == 0 ==> r == Err::<CategoryRecord, ApiError>(
            ApiError::NameRequired,
        ),
        trimmed(payload.name@).len() > 0 ==> (r matches Ok(c) && new_category(
            user_id@,
            payload,
            sk_id@,
            category_id@,
            now@,
            c,
        )),
{
    let name = trim(payload.name.as_str());
    if name.as_str().unicode_len() == 0 {
        return Err(ApiError::NameRequired);
    }
    let mut sk = "CATEGORY#".to_owned();
    sk.append(sk_id.as_str());
    Ok(
        CategoryRecord {
            pk: user_pk(user_id),
            sk,
            entity_type: "category".to_owned(),
            id: category_id,
            user_id: user_id.to_owned(),
            name,
            created_at: now,
        },
    )
}

/// Creates the record of a new category for `user_id`, with fresh
/// identifiers for its sort key and its id and the current time, or refuses
/// a blank name.
pub fn create_category(user_id: &str, payload: CreateCategoryRequest) -> (r: Result<
    CategoryRecord,
    ApiError,
>)
    ensures
        trimmed(payload.name@).len() == 0 ==> r == Err::<CategoryRecord, ApiError>(
            ApiError::NameRequired,
        ),
        trimmed(payload.name@).len() > 0 ==> (r matches Ok(c) && {
            &&& new_category(user_id@, payload, c.sk@.skip(9), c.id@, c.created_at@, c)
            &&& is_uuid_v4_text(c.sk@.skip(9))
            &&& is_uuid_v4_text(c.id@)
            &&& is_utc_seconds_stamp(c.created_at@)
        }),
{
    let sk_id = new_uuid();
    let category_id = new_uuid();
    let stamp = now();
    let ghost s = sk_id@;
    let r = build_category(user_id, payload, sk_id, category_id, stamp);
    proof {
        reveal_strlit("CATEGORY#");
        if r is Ok {
            assert(r->Ok_0.sk@.skip(9) =~= s);
        }
    }
    r
}

} // verus!
