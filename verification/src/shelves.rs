//! The shelf overview: for each of the three shelves, how many active items
//! it holds and the most recently updated few.

use vstd::prelude::*;
use crate::items::NewestFirst;
use crate::order::SortOrder;
use crate::model::{ApiItem, ItemRecord, ItemStatus, ShelfType, api_item_of};
use crate::order::{
    lemma_filter_keeps_order, lemma_stable_sorted_is_stable_sort, stable_sort, stable_sorted,
};
use crate::text::text_less;

verus! {

broadcast use vstd::seq_lib::group_seq_properties, vstd::seq_lib::group_filter_ensures;

/// One shelf of the overview.
#[derive(Debug, PartialEq, Eq)]
pub struct ShelfSummary {
    pub shelf_type: ShelfType,
    pub name: &'static str,
    pub attention_label: &'static str,
    pub count: usize,
    pub preview_items: Vec<ApiItem>,
}

/// The shelves, top to bottom.
pub open spec fn shelf_order() -> Seq<ShelfType> {
    seq![ShelfType::Top, ShelfType::Middle, ShelfType::Bottom]
}

/// The title of a shelf.
pub open spec fn shelf_title(t: ShelfType) -> Seq<char> {
    match t {
        ShelfType::Top => "Top Shelf"@,
        ShelfType::Middle => "Middle Shelf"@,
        ShelfType::Bottom => "Bottom Shelf"@,
    }
}

/// The line that says how much attention a shelf's items deserve.
pub open spec fn shelf_attention(t: ShelfType) -> Seq<char> {
    match t {
        ShelfType::Top => "Needs attention now or soon"@,
        ShelfType::Middle => "Important, revisit soon"@,
        ShelfType::Bottom => "Future ideas, low pressure"@,
    }
}

/// The active records, in their order, as the API shows them.
pub open spec fn active_items(s: Seq<ItemRecord>) -> Seq<ApiItem> {
    s.filter(|r: ItemRecord| r.status == ItemStatus::Active).map_values(
        |r: ItemRecord| api_item_of(r),
    )
}

/// The items of `s` on shelf `t`, in their order.
pub open spec fn on_shelf(s: Seq<ApiItem>, t: ShelfType) -> Seq<ApiItem> {
    s.filter(|x: ApiItem| x.shelf_type == t)
}

/// The first three elements of `s`, or all of them when there are fewer.
pub open spec fn first_three<T>(s: Seq<T>) -> Seq<T> {
    if s.len() <= 3 {
        s
    } else {
        s.take(3)
    }
}

/// The active items, most recently updated first.
pub open spec fn newest_active(records: Seq<ItemRecord>) -> Seq<ApiItem> {
    stable_sorted::<ApiItem, NewestFirst>(active_items(records))
}

/// `sum` describes shelf `t` of the items `sorted`.
pub open spec fn summarizes(sum: ShelfSummary, t: ShelfType, sorted: Seq<ApiItem>) -> bool {
    &&& sum.shelf_type == t
    &&& sum.name@ == shelf_title(t)
    &&& sum.attention_label@ == shelf_attention(t)
    &&& sum.count == on_shelf(sorted, t).len()
    &&& sum.preview_items@ == first_three(on_shelf(sorted, t))
}

/// Describes shelf `t` of the items `sorted`.
fn summarize(sorted: &Vec<ApiItem>, t: ShelfType) -> (sum: ShelfSummary)
    ensures
        summarizes(sum, t, sorted@),
{
    let (name, attention_label) = match t {
        ShelfType::Top => ("Top Shelf", "Needs attention now or soon"),
        ShelfType::Middle => ("Middle Shelf", "Important, revisit soon"),
        ShelfType::Bottom => ("Bottom Shelf", "Future ideas, low pressure"),
    };
    let ghost s = sorted@;
    let ghost pred = |x: ApiItem| x.shelf_type == t;
    let mut count: usize = 0;
    let mut preview: Vec<ApiItem> = Vec::new();
    let mut i: usize = 0;
    assert(s.take(0) =~= Seq::<ApiItem>::empty());
    proof {
        reveal(Seq::filter);
    }
    while i < sorted.len()
        invariant
            s == sorted@,
            i <= sorted.len(),
            pred == (|x: ApiItem| x.shelf_type == t),
            count == s.take(i as int).filter(pred).len(),
            preview@ == first_three(s.take(i as int).filter(pred)),
        decreases sorted.len() - i,
    {
        let ghost before = s.take(i as int).filter(pred);
        proof {
            assert(s.take(i + 1) =~= s.take(i as int).push(s[i as int]));
            s.take(i as int).lemma_filter_push(s[i as int], pred);
            s.take(i as int).lemma_filter_len(pred);
        }
        if sorted[i].shelf_type == t {
            count = count + 1;
            if preview.len() < 3 {
                preview.push(sorted[i].clone());
            }
            assert(preview@ =~= first_three(before.push(s[i as int])));
        }
        i = i + 1;
    }
    assert(s.take(s.len() as int) =~= s);
    ShelfSummary { shelf_type: t, name, attention_label, count, preview_items: preview }
}

/// The shelf overview of a user's item records: the three shelves top to
/// bottom, each with its title, its attention line, the number of active
/// items on it, and up to three of them, the most recently updated first.
pub fn list_shelves(records: Vec<ItemRecord>) -> (r: Vec<ShelfSummary>)
    ensures
        r@.len() == 3,
        forall|k: int|
            0 <= k < 3 ==> summarizes(
                #[trigger] r@[k],
                shelf_order()[k],
                newest_active(records@),
            ),
{
    broadcast use vstd::std_specs::vec::group_vec_axioms;

    let ghost s = records@;
    let ghost pred = |x: ItemRecord| x.status == ItemStatus::Active;
    let mut active: Vec<ApiItem> = Vec::new();
    for record in it: records.into_iter()
        invariant
            it.seq() == s,
            pred == (|x: ItemRecord| x.status == ItemStatus::Active),
            active@ == s.take(it.index()).filter(pred).map_values(|x: ItemRecord| api_item_of(x)),
    {
        let ghost k = it.index();
        proof {
            assert(s.take(k + 1) =~= s.take(k).push(record));
            s.take(k).lemma_filter_push(record, pred);
        }
        if record.status == ItemStatus::Active {
            active.push(ApiItem::from(record));
        }
        assert(active@ =~= s.take(k + 1).filter(pred).map_values(|x: ItemRecord| api_item_of(x)));
    }
    assert(s.take(s.len() as int) =~= s);
    let sorted = stable_sort::<ApiItem, NewestFirst>(active);
    let mut r: Vec<ShelfSummary> = Vec::new();
    r.push(summarize(&sorted, ShelfType::Top));
    r.push(summarize(&sorted, ShelfType::Middle));
    r.push(summarize(&sorted, ShelfType::Bottom));
    r
}

/// Every element of `on_shelf(s, t)` is an element of `s` on shelf `t`.
proof fn lemma_on_shelf_members(s: Seq<ApiItem>, t: ShelfType, i: int)
    requires
        0 <= i < on_shelf(s, t).len(),
    ensures
        s.contains(on_shelf(s, t)[i]),
        on_shelf(s, t)[i].shelf_type == t,
{
    let pred = |x: ApiItem| x.shelf_type == t;
    s.lemma_filter_pred(pred, i);
    assert(s.filter(pred).contains(on_shelf(s, t)[i]));
    s.lemma_filter_contains_rev(pred, on_shelf(s, t)[i]);
}

/// Every item the overview shows on a shelf is active and on that shelf.
pub proof fn lemma_overview_shows_active_items_of_the_shelf(
    records: Seq<ItemRecord>,
    t: ShelfType,
    i: int,
)
    requires
        0 <= i < first_three(on_shelf(newest_active(records), t)).len(),
    ensures
        first_three(on_shelf(newest_active(records), t))[i].status == ItemStatus::Active,
        first_three(on_shelf(newest_active(records), t))[i].shelf_type == t,
{
    broadcast use vstd::seq_lib::group_to_multiset_ensures;

    let sorted = newest_active(records);
    let active = active_items(records);
    let x = first_three(on_shelf(sorted, t))[i];
    assert(x == on_shelf(sorted, t)[i]);
    lemma_on_shelf_members(sorted, t, i);
    lemma_stable_sorted_is_stable_sort::<ApiItem, NewestFirst>(active);
    assert(sorted.to_multiset().count(x) > 0);
    assert(active.contains(x));
    let pred = |r: ItemRecord| r.status == ItemStatus::Active;
    let kept = records.filter(pred);
    let j = choose|j: int| 0 <= j < active.len() && active[j] == x;
    assert(active[j] == api_item_of(kept[j]));
    records.lemma_filter_pred(pred, j);
}

/// The number of items of `s` on the three shelves adds up to the length of `s`.
proof fn lemma_shelves_partition(s: Seq<ApiItem>)
    ensures
        on_shelf(s, ShelfType::Top).len() + on_shelf(s, ShelfType::Middle).len() + on_shelf(
            s,
            ShelfType::Bottom,
        ).len() == s.len(),
    decreases s.len(),
{
    reveal(Seq::filter);
    if s.len() > 0 {
        lemma_shelves_partition(s.drop_last());
    }
}

/// The counts of the three shelves add up to the number of active items.
pub proof fn lemma_overview_counts_all_active_items(records: Seq<ItemRecord>)
    ensures
        on_shelf(newest_active(records), ShelfType::Top).len() + on_shelf(
            newest_active(records),
            ShelfType::Middle,
        ).len() + on_shelf(newest_active(records), ShelfType::Bottom).len() == records.filter(
            |r: ItemRecord| r.status == ItemStatus::Active,
        ).len(),
{
    broadcast use vstd::seq_lib::group_to_multiset_ensures;

    let active = active_items(records);
    lemma_stable_sorted_is_stable_sort::<ApiItem, NewestFirst>(active);
    assert(newest_active(records).to_multiset().len() == active.to_multiset().len());
    lemma_shelves_partition(newest_active(records));
}

/// Records that differ only in archived records give the same overview:
/// when the active records of `more` are those of `records`, in the same
/// order, the active items, their newest-first order, and so every shelf's
/// count and preview are the same.
pub proof fn lemma_archived_records_do_not_change_the_overview(
    records: Seq<ItemRecord>,
    more: Seq<ItemRecord>,
)
    requires
        more.filter(|r: ItemRecord| r.status == ItemStatus::Active) == records.filter(
            |r: ItemRecord| r.status == ItemStatus::Active,
        ),
    ensures
        newest_active(more) == newest_active(records),
        forall|sum: ShelfSummary, t: ShelfType|
            #![trigger summarizes(sum, t, newest_active(more))]
            summarizes(sum, t, newest_active(more)) <==> summarizes(
                sum,
                t,
                newest_active(records),
            ),
{
    assert(active_items(more) == active_items(records));
}

/// Inserting an archived record anywhere leaves the active records, in
/// their order, as they were.
pub proof fn lemma_inserting_an_archived_record(records: Seq<ItemRecord>, i: int, r: ItemRecord)
    requires
        0 <= i <= records.len(),
        r.status == ItemStatus::Archived,
    ensures
        records.insert(i, r).filter(|x: ItemRecord| x.status == ItemStatus::Active)
            == records.filter(|x: ItemRecord| x.status == ItemStatus::Active),
{
    let pred = |x: ItemRecord| x.status == ItemStatus::Active;
    let front = records.take(i);
    let back = records.skip(i);
    assert(records =~= front + back);
    assert(records.insert(i, r) =~= front.push(r) + back);
    Seq::filter_distributes_over_add(front, back, pred);
    Seq::filter_distributes_over_add(front.push(r), back, pred);
    front.lemma_filter_push(r, pred);
}

/// `more` holds the records of `records` in order, at `positions`, and
/// only archived records besides.
pub open spec fn with_archived_records_between(
    records: Seq<ItemRecord>,
    more: Seq<ItemRecord>,
    positions: Seq<int>,
) -> bool {
    &&& positions.len() == records.len()
    &&& forall|k: int| 0 <= k < positions.len() ==> 0 <= #[trigger] positions[k] < more.len()
    &&& forall|k: int, l: int|
        0 <= k < l < positions.len() ==> #[trigger] positions[k] < #[trigger] positions[l]
    &&& forall|k: int| 0 <= k < positions.len() ==> more[#[trigger] positions[k]] == records[k]
    &&& forall|j: int|
        0 <= j < more.len() && !positions.contains(j) ==> (#[trigger] more[j]).status
            == ItemStatus::Archived
}

proof fn lemma_archived_between_keeps_active(
    records: Seq<ItemRecord>,
    more: Seq<ItemRecord>,
    positions: Seq<int>,
)
    requires
        with_archived_records_between(records, more, positions),
    ensures
        more.filter(|x: ItemRecord| x.status == ItemStatus::Active) == records.filter(
            |x: ItemRecord| x.status == ItemStatus::Active,
        ),
    decreases more.len(),
{
    let pred = |x: ItemRecord| x.status == ItemStatus::Active;
    if more.len() == 0 {
        if records.len() > 0 {
            assert(0 <= positions[0] < more.len());
        }
        assert(records =~= more);
    } else {
        let last = more.len() - 1;
        let md = more.drop_last();
        assert(more =~= md.push(more.last()));
        md.lemma_filter_push(more.last(), pred);
        if positions.contains(last) {
            let k = choose|k: int| 0 <= k < positions.len() && positions[k] == last;
            if k < positions.len() - 1 {
                assert(positions[k] < positions[positions.len() - 1]);
            }
            let rs = records.drop_last();
            let ps = positions.drop_last();
            assert forall|k2: int| 0 <= k2 < ps.len() implies 0 <= #[trigger] ps[k2] < md.len() by {
                assert(positions[k2] < positions[positions.len() - 1]);
            }
            assert forall|k2: int| 0 <= k2 < ps.len() implies md[#[trigger] ps[k2]] == rs[k2] by {
                assert(positions[k2] < positions[positions.len() - 1]);
            }
            assert forall|j: int| 0 <= j < md.len() && !ps.contains(j) implies (
            #[trigger] md[j]).status == ItemStatus::Archived by {
                if positions.contains(j) {
                    let k2 = choose|k2: int| 0 <= k2 < positions.len() && positions[k2] == j;
                    assert(k2 != positions.len() - 1);
                    assert(ps[k2] == j);
                }
                assert(md[j] == more[j]);
            }
            lemma_archived_between_keeps_active(rs, md, ps);
            assert(records =~= rs.push(records.last()));
            rs.lemma_filter_push(records.last(), pred);
        } else {
            assert(more[last].status == ItemStatus::Archived);
            assert forall|k2: int| 0 <= k2 < positions.len() implies 0 <= #[trigger] positions[k2]
                < md.len() by {
                assert(positions[k2] != last);
            }
            assert forall|k2: int| 0 <= k2 < positions.len() implies md[#[trigger] positions[k2]]
                == records[k2] by {
                assert(positions[k2] != last);
            }
            assert forall|j: int| 0 <= j < md.len() && !positions.contains(j) implies (
            #[trigger] md[j]).status == ItemStatus::Archived by {
                assert(md[j] == more[j]);
            }
            lemma_archived_between_keeps_active(records, md, positions);
        }
    }
}

/// Inserting any number of archived records anywhere among the records
/// leaves the overview as it was: the same items, in the same order, and
/// every shelf summary that `list_shelves` may give for one list it gives
/// for the other.
pub proof fn lemma_extra_archived_records_leave_the_overview(
    records: Seq<ItemRecord>,
    more: Seq<ItemRecord>,
    positions: Seq<int>,
)
    requires
        with_archived_records_between(records, more, positions),
    ensures
        newest_active(more) == newest_active(records),
        forall|sum: ShelfSummary, t: ShelfType|
            #![trigger summarizes(sum, t, newest_active(more))]
            summarizes(sum, t, newest_active(more)) <==> summarizes(
                sum,
                t,
                newest_active(records),
            ),
{
    lemma_archived_between_keeps_active(records, more, positions);
    lemma_archived_records_do_not_change_the_overview(records, more);
}

/// A shelf of the overview, newest first by the whole `updated_at` text: its
/// items (the active items of the records on that shelf, each of them) come
/// with no item before a later-updated one; a summary of the shelf counts
/// them all and previews the first three; and no active item of the shelf
/// left out of the preview was updated later than any item shown.
pub proof fn lemma_overview_shows_the_newest(records: Seq<ItemRecord>, t: ShelfType)
    ensures
        forall|i: int, j: int|
            0 <= i < j < on_shelf(newest_active(records), t).len() ==> !text_less(
                (#[trigger] on_shelf(newest_active(records), t)[i]).updated_at@,
                (#[trigger] on_shelf(newest_active(records), t)[j]).updated_at@,
            ),
        forall|k: int|
            0 <= k < records.len() && (#[trigger] records[k]).status == ItemStatus::Active
                && records[k].shelf_type == t ==> on_shelf(newest_active(records), t).contains(
                api_item_of(records[k]),
            ),
        forall|sum: ShelfSummary| #[trigger]
            summarizes(sum, t, newest_active(records)) ==> {
                let x = on_shelf(newest_active(records), t);
                let p = sum.preview_items@;
                &&& sum.count == x.len()
                &&& p.len() == if x.len() < 3 { x.len() } else { 3 }
                &&& forall|i: int| 0 <= i < p.len() ==> #[trigger] p[i] == x[i]
                &&& forall|i: int, k: int|
                    0 <= i < p.len() && 0 <= k < records.len() && (#[trigger] records[k]).status
                        == ItemStatus::Active && records[k].shelf_type == t && !p.contains(
                        api_item_of(records[k]),
                    ) ==> !text_less(#[trigger] p[i].updated_at@, records[k].updated_at@)
            },
{
    broadcast use vstd::seq_lib::group_to_multiset_ensures;

    let active = active_items(records);
    let sorted = newest_active(records);
    let pred = |x: ApiItem| x.shelf_type == t;
    let x = on_shelf(sorted, t);
    lemma_stable_sorted_is_stable_sort::<ApiItem, NewestFirst>(active);
    lemma_filter_keeps_order::<ApiItem, NewestFirst>(sorted, pred);
    assert(x == sorted.filter(pred));
    assert forall|i: int, j: int| 0 <= i < j < x.len() implies !text_less(
        (#[trigger] x[i]).updated_at@,
        (#[trigger] x[j]).updated_at@,
    ) by {
        assert(!NewestFirst::before(x[j], x[i]));
    }
    let apred = |r: ItemRecord| r.status == ItemStatus::Active;
    assert forall|k: int|
        0 <= k < records.len() && (#[trigger] records[k]).status == ItemStatus::Active
            && records[k].shelf_type == t implies x.contains(api_item_of(records[k])) by {
        records.lemma_filter_contains(apred, k);
        let kept = records.filter(apred);
        let m = choose|m: int| 0 <= m < kept.len() && kept[m] == records[k];
        assert(active[m] == api_item_of(records[k]));
        assert(active.to_multiset().count(api_item_of(records[k])) > 0);
        assert(sorted.to_multiset().count(api_item_of(records[k])) > 0);
        let n = choose|n: int| 0 <= n < sorted.len() && sorted[n] == api_item_of(records[k]);
        sorted.lemma_filter_contains(pred, n);
    }
    assert forall|sum: ShelfSummary| #[trigger]
        summarizes(sum, t, sorted) implies {
            let p = sum.preview_items@;
            &&& sum.count == x.len()
            &&& p.len() == if x.len() < 3 { x.len() } else { 3 }
            &&& forall|i: int| 0 <= i < p.len() ==> #[trigger] p[i] == x[i]
            &&& forall|i: int, k: int|
                0 <= i < p.len() && 0 <= k < records.len() && (#[trigger] records[k]).status
                    == ItemStatus::Active && records[k].shelf_type == t && !p.contains(
                    api_item_of(records[k]),
                ) ==> !text_less(#[trigger] p[i].updated_at@, records[k].updated_at@)
        } by {
        let p = sum.preview_items@;
        assert(p == first_three(x));
        assert forall|i: int| 0 <= i < p.len() implies #[trigger] p[i] == x[i] by {}
        assert forall|i: int, k: int|
            0 <= i < p.len() && 0 <= k < records.len() && (#[trigger] records[k]).status
                == ItemStatus::Active && records[k].shelf_type == t && !p.contains(
                api_item_of(records[k]),
            ) implies !text_less(#[trigger] p[i].updated_at@, records[k].updated_at@) by {
            assert(x.contains(api_item_of(records[k])));
            let m = choose|m: int| 0 <= m < x.len() && x[m] == api_item_of(records[k]);
            if m < p.len() {
                assert(p[m] == x[m]);
                assert(p.contains(api_item_of(records[k])));
            }
            assert(p[i] == x[i]);
            assert(i < m);
            assert(!text_less(x[i].updated_at@, x[m].updated_at@));
        }
    }
}

} // verus!
