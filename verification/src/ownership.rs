//! Whose records a request writes and reads: everything a user's request
//! stores is keyed by that user, and what it answers with comes from the
//! records it was handed.

use vstd::prelude::*;
use crate::categories::new_category;
use crate::items::{
    DueSoonest, first_with_id, item_selected, lemma_found_item_has_the_id,
    lemma_listed_items_are_selected, new_item, selected_items, updated_item,
};
use crate::model::{
    ApiItem, CategoryRecord, CreateCategoryRequest, CreateItemRequest, ItemRecord,
    ItemStatus, NotificationPreferenceRecord, ShelfType, UpdateItemRequest, UpsertPreferenceRequest,
    api_item_of, user_key,
};
use crate::order::stable_sorted;
use crate::preferences::new_preference;

verus! {

/// Every record of `s` is keyed by the user `v`.
pub open spec fn all_keyed_by(s: Seq<ItemRecord>, v: Seq<char>) -> bool {
    forall|k: int| 0 <= k < s.len() ==> (#[trigger] s[k]).pk@ == user_key(v)
}

/// Every record that a request of user `v` writes carries the key "USER#"
/// and `v`, and names `v` as its owner: a new item, a new category, a set
/// notification preference, and an item changed (updated, moved or
/// archived) from one of `v`'s own records.
pub proof fn lemma_writes_are_keyed_by_the_user(v: Seq<char>)
    ensures
        forall|p: CreateItemRequest, sk: Seq<char>, id: Seq<char>, now: Seq<char>, item: ItemRecord|
            #[trigger] new_item(v, p, sk, id, now, item) ==> item.pk@ == user_key(v)
                && item.user_id@ == v,
        forall|
            p: CreateCategoryRequest,
            sk: Seq<char>,
            id: Seq<char>,
            now: Seq<char>,
            c: CategoryRecord,
        |
            #[trigger] new_category(v, p, sk, id, now, c) ==> c.pk@ == user_key(v) && c.user_id@
                == v,
        forall|t: ShelfType, p: UpsertPreferenceRequest, now: Seq<char>, r: NotificationPreferenceRecord|
            #[trigger] new_preference(v, t, p, now, r) ==> r.pk@ == user_key(v) && r.user_id@
                == v,
        forall|old: ItemRecord, patch: UpdateItemRequest, now: Seq<char>, new: ItemRecord|
            old.pk@ == user_key(v) && #[trigger] updated_item(old, patch, now, new) ==> new.pk@
                == user_key(v) && new.user_id == old.user_id,
{
}

/// An item found among records that are all the user's is the user's, and
/// so is the item that changing it writes back.
pub proof fn lemma_found_item_is_the_users(
    s: Seq<ItemRecord>,
    id: Seq<char>,
    v: Seq<char>,
    patch: UpdateItemRequest,
    now: Seq<char>,
    new: ItemRecord,
)
    requires
        all_keyed_by(s, v),
    ensures
        first_with_id(s, id) matches Some(r) ==> r.pk@ == user_key(v),
        first_with_id(s, id) is Some && updated_item(first_with_id(s, id)->0, patch, now, new)
            ==> new.pk@ == user_key(v),
{
    lemma_found_item_has_the_id(s, id);
    if let Some(r) = first_with_id(s, id) {
        let k = choose|k: int| 0 <= k < s.len() && s[k] == r;
        assert(s[k].pk@ == user_key(v));
    }
}

/// Every item of a listing made from records that are all the user's is
/// made from one of those records.
pub proof fn lemma_listed_items_are_the_users(
    s: Seq<ItemRecord>,
    v: Seq<char>,
    shelf: Option<ShelfType>,
    status: ItemStatus,
    category: Option<Seq<char>>,
)
    requires
        all_keyed_by(s, v),
    ensures
        forall|i: int|
            0 <= i < stable_sorted::<ApiItem, DueSoonest>(
                selected_items(s, shelf, status, category),
            ).len() ==> exists|r: ItemRecord|
                #![trigger api_item_of(r)]
                s.contains(r) && r.pk@ == user_key(v) && api_item_of(r)
                    == #[trigger] stable_sorted::<ApiItem, DueSoonest>(
                    selected_items(s, shelf, status, category),
                )[i],
{
    let listed = stable_sorted::<ApiItem, DueSoonest>(selected_items(s, shelf, status, category));
    assert forall|i: int| 0 <= i < listed.len() implies exists|r: ItemRecord|
        #![trigger api_item_of(r)]
        s.contains(r) && r.pk@ == user_key(v) && api_item_of(r) == #[trigger] listed[i] by {
        lemma_listed_items_are_selected(s, shelf, status, category, i);
        let r = choose|r: ItemRecord|
            #![trigger api_item_of(r)]
            s.contains(r) && item_selected(r, shelf, status, category) && api_item_of(r)
                == listed[i];
        let k = choose|k: int| 0 <= k < s.len() && s[k] == r;
        assert(s[k].pk@ == user_key(v));
    }
}

} // verus!
