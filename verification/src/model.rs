//! The stored records, the request payloads and the response items, with the
//! small rules on shelves, statuses and keys.

use vstd::prelude::*;
use crate::text::{same_text, trim, trimmed};

verus! {

/// How much attention an item deserves.
#[derive(Clone, Copy, PartialEq, Eq, Structural, Debug)]
pub enum ShelfType {
    Top,
    Middle,
    Bottom,
}

/// Whether an item is still on its shelf.
#[derive(Clone, Copy, PartialEq, Eq, Structural, Debug)]
pub enum ItemStatus {
    Active,
    Archived,
}

/// The lower-case name of a shelf, as it appears in keys, paths and JSON.
pub open spec fn shelf_name(t: ShelfType) -> Seq<char> {
    match t {
        ShelfType::Top => "top"@,
        ShelfType::Middle => "middle"@,
        ShelfType::Bottom => "bottom"@,
    }
}

/// The shelf whose name is `v`, if any.
pub open spec fn shelf_named(v: Seq<char>) -> Option<ShelfType> {
    if v == "top"@ {
        Some(ShelfType::Top)
    } else if v == "middle"@ {
        Some(ShelfType::Middle)
    } else if v == "bottom"@ {
        Some(ShelfType::Bottom)
    } else {
        None
    }
}

/// The status whose name is `v`, if any.
pub open spec fn status_named(v: Seq<char>) -> Option<ItemStatus> {
    if v == "active"@ {
        Some(ItemStatus::Active)
    } else if v == "archived"@ {
        Some(ItemStatus::Archived)
    } else {
        None
    }
}

/// The position of a shelf from the top: 0, 1, 2.
pub open spec fn shelf_rank(t: ShelfType) -> nat {
    match t {
        ShelfType::Top => 0,
        ShelfType::Middle => 1,
        ShelfType::Bottom => 2,
    }
}

/// Reads a shelf name: "top", "middle" or "bottom".
pub fn parse_shelf_type(value: &str) -> (r: Option<ShelfType>)
    ensures
        r == shelf_named(value@),
{
    if same_text(value, "top") {
        Some(ShelfType::Top)
    } else if same_text(value, "middle") {
        Some(ShelfType::Middle)
    } else if same_text(value, "bottom") {
        Some(ShelfType::Bottom)
    } else {
        None
    }
}

/// Reads a status name: "active" or "archived".
pub fn parse_status(value: &str) -> (r: Option<ItemStatus>)
    ensures
        r == status_named(value@),
{
    if same_text(value, "active") {
        Some(ItemStatus::Active)
    } else if same_text(value, "archived") {
        Some(ItemStatus::Archived)
    } else {
        None
    }
}

/// The name of a shelf.
pub fn shelf_key(shelf_type: ShelfType) -> (r: &'static str)
    ensures
        r@ == shelf_name(shelf_type),
{
    match shelf_type {
        ShelfType::Top => "top",
        ShelfType::Middle => "middle",
        ShelfType::Bottom => "bottom",
    }
}

/// The position of a shelf from the top, by which preferences are listed.
pub fn shelf_sort(shelf_type: ShelfType) -> (r: usize)
    ensures
        r == shelf_rank(shelf_type),
{
    match shelf_type {
        ShelfType::Top => 0,
        ShelfType::Middle => 1,
        ShelfType::Bottom => 2,
    }
}

/// Reading the name of a shelf gives the shelf back.
pub proof fn lemma_shelf_name_round_trip(t: ShelfType)
    ensures
        shelf_named(shelf_name(t)) == Some(t),
{
    reveal_strlit("top");
    reveal_strlit("middle");
    reveal_strlit("bottom");
    assert("top"@.len() != "middle"@.len());
    assert("top"@.len() != "bottom"@.len());
    assert("middle"@[0] != "bottom"@[0]);
}

/// A text read as a shelf is that shelf's name.
pub proof fn lemma_shelf_named_only_names(v: Seq<char>)
    ensures
        shelf_named(v) matches Some(t) ==> shelf_name(t) == v,
{
}

/// The partition key of everything a user owns.
pub open spec fn user_key(user_id: Seq<char>) -> Seq<char> {
    "USER#"@ + user_id
}

/// The partition key of everything `user_id` owns: "USER#" and the id.
pub fn user_pk(user_id: &str) -> (r: String)
    ensures
        r@ == user_key(user_id@),
{
    let mut r = "USER#".to_owned();
    r.append(user_id);
    r
}

/// The view of an optional string.
pub open spec fn opt_view(o: Option<String>) -> Option<Seq<char>> {
    match o {
        Some(s) => Some(s@),
        None => None,
    }
}

/// An optional text, trimmed, with blank text read as absent.
pub open spec fn cleaned(o: Option<Seq<char>>) -> Option<Seq<char>> {
    match o {
        Some(s) => if trimmed(s).len() == 0 {
            None
        } else {
            Some(trimmed(s))
        },
        None => None,
    }
}

/// Trims an optional text and drops it when nothing is left.
pub fn clean_optional(value: Option<String>) -> (r: Option<String>)
    ensures
        opt_view(r) == cleaned(opt_view(value)),
{
    match value {
        Some(v) => {
            let t = trim(v.as_str());
            if t.as_str().unicode_len() == 0 {
                None
            } else {
                Some(t)
            }
        },
        None => None,
    }
}

/// A copy of an optional string.
pub fn copy_optional(value: &Option<String>) -> (r: Option<String>)
    ensures
        r == *value,
{
    match value {
        Some(v) => Some(v.clone()),
        None => None,
    }
}

/// An item as it is stored.
#[derive(Clone, Debug, PartialEq, Eq)]
pub struct ItemRecord {
    pub pk: String,
    pub sk: String,
    pub entity_type: String,
    pub id: String,
    pub user_id: String,
    pub title: String,
    pub shelf_type: ShelfType,
    pub category: Option<String>,
    pub due_at: Option<String>,
    pub notes: Option<String>,
    pub status: ItemStatus,
    pub created_at: String,
    pub updated_at: String,
    pub last_reviewed_at: Option<String>,
}

/// A category as it is stored and listed.
#[derive(Clone, Debug, PartialEq, Eq)]
pub struct CategoryRecord {
    pub pk: String,
    pub sk: String,
    pub entity_type: String,
    pub id: String,
    pub user_id: String,
    pub name: String,
    pub created_at: String,
}

/// A notification preference for one shelf, as it is stored and listed.
#[derive(Clone, Debug, PartialEq, Eq)]
pub struct NotificationPreferenceRecord {
    pub pk: String,
    pub sk: String,
    pub entity_type: String,
    pub user_id: String,
    pub shelf_type: ShelfType,
    pub frequency: String,
    pub enabled: bool,
    pub created_at: String,
    pub updated_at: String,
}

/// The body of a request that creates an item.
#[derive(Clone, Debug, PartialEq, Eq)]
pub struct CreateItemRequest {
    pub title: String,
    pub shelf_type: Option<ShelfType>,
    pub category: Option<String>,
    pub due_at: Option<String>,
    pub notes: Option<String>,
}

/// The body of a request that changes an item: each field present is set;
/// for the optional fields an inner `None` clears the value.
#[derive(Clone, Debug, PartialEq, Eq)]
pub struct UpdateItemRequest {
    pub title: Option<String>,
    pub shelf_type: Option<ShelfType>,
    pub category: Option<Option<String>>,
    pub due_at: Option<Option<String>>,
    pub notes: Option<Option<String>>,
    pub status: Option<ItemStatus>,
    pub last_reviewed_at: Option<Option<String>>,
}

/// The body of a request that moves an item to another shelf.
#[derive(Clone, Debug, PartialEq, Eq)]
pub struct MoveItemRequest {
    pub shelf_type: ShelfType,
}

/// The body of a request that creates a category.
#[derive(Clone, Debug, PartialEq, Eq)]
pub struct CreateCategoryRequest {
    pub name: String,
}

/// The body of a request that sets the notification preference of a shelf.
#[derive(Clone, Debug, PartialEq, Eq)]
pub struct UpsertPreferenceRequest {
    pub frequency: String,
    pub enabled: bool,
}

/// An item as the API shows it.
#[derive(Debug, PartialEq, Eq)]
pub struct ApiItem {
    pub id: String,
    pub title: String,
    pub shelf_type: ShelfType,
    pub category: Option<String>,
    pub due_at: Option<String>,
    pub notes: Option<String>,
    pub status: ItemStatus,
    pub created_at: String,
    pub updated_at: String,
    pub last_reviewed_at: Option<String>,
}

/// The API's view of a stored item: its fields without the keys and owner.
pub open spec fn api_item_of(item: ItemRecord) -> ApiItem {
    ApiItem {
        id: item.id,
        title: item.title,
        shelf_type: item.shelf_type,
        category: item.category,
        due_at: item.due_at,
        notes: item.notes,
        status: item.status,
        created_at: item.created_at,
        updated_at: item.updated_at,
        last_reviewed_at: item.last_reviewed_at,
    }
}

/// The API shows every field of a stored item as stored, leaving out only
/// the keys, the kind and the owner.
pub proof fn lemma_api_item_shows_the_record(r: ItemRecord)
    ensures
        api_item_of(r).id == r.id,
        api_item_of(r).title == r.title,
        api_item_of(r).shelf_type == r.shelf_type,
        api_item_of(r).category == r.category,
        api_item_of(r).due_at == r.due_at,
        api_item_of(r).notes == r.notes,
        api_item_of(r).status == r.status,
        api_item_of(r).created_at == r.created_at,
        api_item_of(r).updated_at == r.updated_at,
        api_item_of(r).last_reviewed_at == r.last_reviewed_at,
{
}

impl From<ItemRecord> for ApiItem {
    fn from(item: ItemRecord) -> (r: Self) {
        ApiItem {
            id: item.id,
            title: item.title,
            shelf_type: item.shelf_type,
            category: item.category,
            due_at: item.due_at,
            notes: item.notes,
            status: item.status,
            created_at: item.created_at,
            updated_at: item.updated_at,
            last_reviewed_at: item.last_reviewed_at,
        }
    }
}

impl vstd::std_specs::convert::FromSpecImpl<ItemRecord> for ApiItem {
    open spec fn obeys_from_spec() -> bool {
        true
    }

    open spec fn from_spec(item: ItemRecord) -> Self {
        api_item_of(item)
    }
}

impl Clone for ApiItem {
    fn clone(&self) -> (r: Self)
        ensures
            r == *self,
    {
        ApiItem {
            id: self.id.clone(),
            title: self.title.clone(),
            shelf_type: self.shelf_type,
            category: copy_optional(&self.category),
            due_at: copy_optional(&self.due_at),
            notes: copy_optional(&self.notes),
            status: self.status,
            created_at: self.created_at.clone(),
            updated_at: self.updated_at.clone(),
            last_reviewed_at: copy_optional(&self.last_reviewed_at),
        }
    }
}

} // verus!
