//! Notification preferences: one per shelf, set and listed top to bottom.

use vstd::prelude::*;
use crate::errors::ApiError;
use crate::external::{is_utc_seconds_stamp, now};
use crate::model::{
    NotificationPreferenceRecord, ShelfType, UpsertPreferenceRequest, parse_shelf_type, shelf_key,
    shelf_name, shelf_named, shelf_rank, shelf_sort, user_key, user_pk,
};
use crate::order::{SortOrder, lemma_stable_sorted_is_stable_sort, stable_sort, stable_sorted};

verus! {

/// Preferences by shelf, top to bottom.
pub struct ByShelf;

impl SortOrder<NotificationPreferenceRecord> for ByShelf {
    open spec fn before(a: NotificationPreferenceRecord, b: NotificationPreferenceRecord) -> bool {
        shelf_rank(a.shelf_type) < shelf_rank(b.shelf_type)
    }

    proof fn lemma_irreflexive(a: NotificationPreferenceRecord) {
    }

    proof fn lemma_transitive(
        a: NotificationPreferenceRecord,
        b: NotificationPreferenceRecord,
        c: NotificationPreferenceRecord,
    ) {
    }

    proof fn lemma_negatively_transitive(
        a: NotificationPreferenceRecord,
        b: NotificationPreferenceRecord,
        c: NotificationPreferenceRecord,
    ) {
    }

    fn precedes(a: &NotificationPreferenceRecord, b: &NotificationPreferenceRecord) -> (r: bool) {
        shelf_sort(a.shelf_type) < shelf_sort(b.shelf_type)
    }
}

/// A user's notification preferences, top shelf first; preferences for
/// the same shelf keep their order.
pub fn list_preferences(records: Vec<NotificationPreferenceRecord>) -> (r: Vec<
    NotificationPreferenceRecord,
>)
    ensures
        r@ == stable_sorted::<NotificationPreferenceRecord, ByShelf>(records@),
{
    stable_sort::<NotificationPreferenceRecord, ByShelf>(records)
}

/// The preference listing holds exactly the stored preferences, top shelf
/// first, then middle, then bottom: no preference is listed after one for a
/// lower shelf.
pub proof fn lemma_preferences_are_listed_top_to_bottom(s: Seq<NotificationPreferenceRecord>)
    ensures
        stable_sorted::<NotificationPreferenceRecord, ByShelf>(s).to_multiset() == s.to_multiset(),
        forall|i: int, j: int|
            #![trigger stable_sorted::<NotificationPreferenceRecord, ByShelf>(s)[i], stable_sorted::<NotificationPreferenceRecord, ByShelf>(s)[j]]
            0 <= i < j < stable_sorted::<NotificationPreferenceRecord, ByShelf>(s).len() ==> {
                let a = stable_sorted::<NotificationPreferenceRecord, ByShelf>(s)[i].shelf_type;
                let b = stable_sorted::<NotificationPreferenceRecord, ByShelf>(s)[j].shelf_type;
                &&& (b == ShelfType::Top ==> a == ShelfType::Top)
                &&& (a == ShelfType::Bottom ==> b == ShelfType::Bottom)
            },
{
    let o = stable_sorted::<NotificationPreferenceRecord, ByShelf>(s);
    lemma_stable_sorted_is_stable_sort::<NotificationPreferenceRecord, ByShelf>(s);
    assert forall|i: int, j: int| #![trigger o[i], o[j]] 0 <= i < j < o.len() implies {
        &&& (o[j].shelf_type == ShelfType::Top ==> o[i].shelf_type == ShelfType::Top)
        &&& (o[i].shelf_type == ShelfType::Bottom ==> o[j].shelf_type == ShelfType::Bottom)
    } by {
        assert(!ByShelf::before(o[j], o[i]));
    }
}

/// The sort key of the preference for a shelf: "PREF#" and the shelf's name.
pub open spec fn preference_key(t: ShelfType) -> Seq<char> {
    "PREF#"@ + shelf_name(t)
}

/// `p` is the preference that `payload` sets for `user_id` on shelf `t` at
/// time `now`.
pub open spec fn new_preference(
    user_id: Seq<char>,
    t: ShelfType,
    payload: UpsertPreferenceRequest,
    now: Seq<char>,
    p: NotificationPreferenceRecord,
) -> bool {
    &&& p.pk@ == user_key(user_id)
    &&& p.sk@ == preference_key(t)
    &&& p.entity_type@ == "notificationPreference"@
    &&& p.user_id@ == user_id
    &&& p.shelf_type == t
    &&& p.frequency == payload.frequency
    &&& p.enabled == payload.enabled
    &&& p.created_at@ == now
    &&& p.updated_at@ == now
}

/// Builds the record of the preference that `payload` sets for shelf `t`.
pub fn build_preference(
    user_id: &str,
    shelf_type: ShelfType,
    payload: UpsertPreferenceRequest,
    now: String,
) -> (p: NotificationPreferenceRecord)
    ensures
        new_preference(user_id@, shelf_type, payload, now@, p),
{
    let mut sk = "PREF#".to_owned();
    sk.append(shelf_key(shelf_type));
    let created_at = now.clone();
    NotificationPreferenceRecord {
        pk: user_pk(user_id),
        sk,
        entity_type: "notificationPreference".to_owned(),
        user_id: user_id.to_owned(),
        shelf_type,
        frequency: payload.frequency,
        enabled: payload.enabled,
        created_at,
        updated_at: now,
    }
}

/// Sets the notification preference of the shelf that `shelf_param` names,
/// at the current time. A path that names no shelf is refused first; then a
/// body that could not be read is refused with its error.
pub fn upsert_preference(
    user_id: &str,
    shelf_param: &str,
    payload: Result<UpsertPreferenceRequest, ApiError>,
) -> (r: Result<NotificationPreferenceRecord, ApiError>)
    ensures
        shelf_named(shelf_param@) is None ==> r == Err::<NotificationPreferenceRecord, ApiError>(
            ApiError::InvalidShelfType,
        ),
        shelf_named(shelf_param@) is Some ==> match payload {
            Err(e) => r == Err::<NotificationPreferenceRecord, ApiError>(e),
            Ok(body) => r matches Ok(p) && new_preference(
                user_id@,
                shelf_named(shelf_param@)->0,
                body,
                p.created_at@,
                p,
            ) && is_utc_seconds_stamp(p.created_at@),
        },
{
    let shelf_type = match parse_shelf_type(shelf_param) {
        Some(t) => t,
        None => return Err(ApiError::InvalidShelfType),
    };
    let body = match payload {
        Ok(body) => body,
        Err(e) => return Err(e),
    };
    let stamp = now();
    Ok(build_preference(user_id, shelf_type, body, stamp))
}

/// A set preference holds the frequency and the switch asked for, for the
/// shelf asked, keyed to and owned by the user, created and updated at the
/// time given.
pub proof fn lemma_set_preference_keeps_the_request(
    user_id: Seq<char>,
    t: ShelfType,
    payload: UpsertPreferenceRequest,
    now: Seq<char>,
    p: NotificationPreferenceRecord,
)
    requires
        new_preference(user_id, t, payload, now, p),
    ensures
        p.frequency == payload.frequency,
        p.enabled == payload.enabled,
        p.shelf_type == t,
        p.sk@ == "PREF#"@ + shelf_name(t),
        p.pk@ == user_key(user_id),
        p.user_id@ == user_id,
        p.created_at@ == now && p.updated_at@ == now,
{
}

/// Setting a shelf's preference again writes under the same key, so it
/// replaces the earlier one; the preferences of different shelves have
/// different keys.
pub proof fn lemma_one_preference_per_shelf(
    user_id: Seq<char>,
    t1: ShelfType,
    t2: ShelfType,
    b1: UpsertPreferenceRequest,
    b2: UpsertPreferenceRequest,
    n1: Seq<char>,
    n2: Seq<char>,
    p1: NotificationPreferenceRecord,
    p2: NotificationPreferenceRecord,
)
    requires
        new_preference(user_id, t1, b1, n1, p1),
        new_preference(user_id, t2, b2, n2, p2),
    ensures
        p1.pk@ == p2.pk@,
        (p1.sk@ == p2.sk@) == (t1 == t2),
{
    crate::model::lemma_shelf_name_round_trip(t1);
    crate::model::lemma_shelf_name_round_trip(t2);
    reveal_strlit("PREF#");
    if p1.sk@ == p2.sk@ {
        assert(shelf_name(t1) =~= p1.sk@.skip(5));
        assert(shelf_name(t2) =~= p2.sk@.skip(5));
    }
}

} // verus!
