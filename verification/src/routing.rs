//! Requests to routes: the path's segments, the method, and the user.

use vstd::prelude::*;
use crate::text::{chars_of, same_text};

verus! {

broadcast use vstd::seq_lib::group_seq_properties;

/// The pieces of `s` between the `/` characters, as `str::split` gives them
/// (there is always at least one, possibly empty).
pub open spec fn split_pieces(s: Seq<char>) -> Seq<Seq<char>>
    decreases s.len(),
{
    if s.len() == 0 {
        seq![Seq::<char>::empty()]
    } else {
        let p = split_pieces(s.drop_last());
        if s.last() == '/' {
            p.push(Seq::<char>::empty())
        } else {
            p.update(p.len() - 1, p.last().push(s.last()))
        }
    }
}

/// The non-empty pieces of a path between its slashes.
pub open spec fn path_segments(s: Seq<char>) -> Seq<Seq<char>> {
    split_pieces(s).filter(|p: Seq<char>| p.len() > 0)
}

proof fn lemma_split_pieces_nonempty(s: Seq<char>)
    ensures
        split_pieces(s).len() >= 1,
    decreases s.len(),
{
    if s.len() > 0 {
        lemma_split_pieces_nonempty(s.drop_last());
    }
}

/// No piece between slashes holds a slash.
pub proof fn lemma_pieces_have_no_slash(s: Seq<char>)
    ensures
        forall|k: int| 0 <= k < split_pieces(s).len() ==> !(#[trigger] split_pieces(s)[k]).contains('/'),
    decreases s.len(),
{
    if s.len() > 0 {
        lemma_pieces_have_no_slash(s.drop_last());
        lemma_split_pieces_nonempty(s.drop_last());
        let p = split_pieces(s.drop_last());
        if s.last() != '/' {
            assert forall|k: int| 0 <= k < split_pieces(s).len() implies !(
            #[trigger] split_pieces(s)[k]).contains('/') by {
                if k == p.len() - 1 {
                    let q = p.last().push(s.last());
                    assert(split_pieces(s)[k] == q);
                    if q.contains('/') {
                        let j = choose|j: int| 0 <= j < q.len() && q[j] == '/';
                        assert(p.last()[j] == '/');
                    }
                }
            }
        }
    }
}

/// The segments of a path are non-empty and hold no slash.
pub proof fn lemma_segments_are_clean(s: Seq<char>)
    ensures
        forall|k: int|
            0 <= k < path_segments(s).len() ==> (#[trigger] path_segments(s)[k]).len() > 0
                && !path_segments(s)[k].contains('/'),
{
    broadcast use vstd::seq_lib::group_filter_ensures;

    lemma_pieces_have_no_slash(s);
    let pred = |p: Seq<char>| p.len() > 0;
    assert forall|k: int| 0 <= k < path_segments(s).len() implies (
    #[trigger] path_segments(s)[k]).len() > 0 && !path_segments(s)[k].contains('/') by {
        let x = path_segments(s)[k];
        assert(split_pieces(s).filter(pred).contains(x));
        split_pieces(s).lemma_filter_contains_rev(pred, x);
    }
}

proof fn lemma_split_after_leading_slash(s: Seq<char>)
    ensures
        split_pieces(seq!['/'] + s) == seq![Seq::<char>::empty()] + split_pieces(s),
    decreases s.len(),
{
    let e = Seq::<char>::empty();
    if s.len() == 0 {
        assert(seq!['/'] + s =~= seq!['/']);
        assert(seq!['/'].drop_last() =~= e);
        assert(split_pieces(seq!['/']) =~= seq![e] + split_pieces(s));
    } else {
        let t = seq!['/'] + s;
        assert(t.drop_last() =~= seq!['/'] + s.drop_last());
        lemma_split_after_leading_slash(s.drop_last());
        lemma_split_pieces_nonempty(s.drop_last());
        let p = split_pieces(s.drop_last());
        if s.last() == '/' {
            assert(split_pieces(t) =~= seq![e] + split_pieces(s));
        } else {
            assert(split_pieces(t) =~= seq![e] + split_pieces(s));
        }
    }
}

/// Slashes at the start or the end of a path do not change its segments.
pub proof fn lemma_outer_slashes_do_not_matter(s: Seq<char>)
    ensures
        path_segments(seq!['/'] + s) == path_segments(s),
        path_segments(s.push('/')) == path_segments(s),
{
    let pred = |p: Seq<char>| p.len() > 0;
    lemma_split_after_leading_slash(s);
    split_pieces(s).lemma_filter_prepend(Seq::<char>::empty(), pred);
    assert(s.push('/').drop_last() =~= s);
    split_pieces(s).lemma_filter_push(Seq::<char>::empty(), pred);
}

/// Segments written out with a `/` between each two of them.
pub open spec fn joined(g: Seq<Seq<char>>) -> Seq<char>
    decreases g.len(),
{
    if g.len() == 0 {
        Seq::<char>::empty()
    } else if g.len() == 1 {
        g[0]
    } else {
        joined(g.drop_last()) + seq!['/'] + g.last()
    }
}

/// Text without a slash, put after `p`, lengthens the last piece of `p`.
proof fn lemma_split_append_plain(p: Seq<char>, q: Seq<char>)
    requires
        !q.contains('/'),
    ensures
        split_pieces(p + q) == split_pieces(p).update(
            split_pieces(p).len() - 1,
            split_pieces(p).last() + q,
        ),
    decreases q.len(),
{
    lemma_split_pieces_nonempty(p);
    let pp = split_pieces(p);
    if q.len() == 0 {
        assert(p + q =~= p);
        assert(pp.last() + q =~= pp.last());
        assert(pp.update(pp.len() - 1, pp.last()) =~= pp);
    } else {
        let qd = q.drop_last();
        assert(!qd.contains('/')) by {
            if qd.contains('/') {
                let j = choose|j: int| 0 <= j < qd.len() && qd[j] == '/';
                assert(q[j] == '/');
            }
        }
        lemma_split_append_plain(p, qd);
        assert((p + q).drop_last() =~= p + qd);
        assert((p + q).last() == q.last());
        assert(q.last() != '/') by {
            assert(q[q.len() - 1] == q.last());
        }
        let mid = split_pieces(p + qd);
        assert(mid.len() == pp.len());
        assert(mid.last() == pp.last() + qd);
        assert((pp.last() + qd).push(q.last()) =~= pp.last() + q);
        assert(split_pieces(p + q) =~= pp.update(pp.len() - 1, pp.last() + q));
    }
}

/// Splitting segments that hold no slash, joined with slashes, gives them
/// back.
proof fn lemma_split_joined(g: Seq<Seq<char>>)
    requires
        g.len() >= 1,
        forall|k: int| 0 <= k < g.len() ==> !(#[trigger] g[k]).contains('/'),
    ensures
        split_pieces(joined(g)) == g,
    decreases g.len(),
{
    let e = Seq::<char>::empty();
    if g.len() == 1 {
        lemma_split_append_plain(e, g[0]);
        assert(e + g[0] =~= g[0]);
        assert(split_pieces(e) == seq![e]);
        assert(split_pieces(g[0]) =~= g);
    } else {
        let gd = g.drop_last();
        assert forall|k: int| 0 <= k < gd.len() implies !(#[trigger] gd[k]).contains('/') by {
            assert(gd[k] == g[k]);
        }
        lemma_split_joined(gd);
        let front = joined(gd) + seq!['/'];
        assert(front.drop_last() =~= joined(gd));
        assert(split_pieces(front) == gd.push(e));
        assert(!g.last().contains('/')) by {
            assert(g[g.len() - 1] == g.last());
        }
        lemma_split_append_plain(front, g.last());
        assert(e + g.last() =~= g.last());
        assert(split_pieces(front + g.last()) =~= g);
    }
}

/// Joining the segments of a path with slashes and splitting the result
/// again gives the same segments.
pub proof fn lemma_rejoined_segments_split_the_same(s: Seq<char>)
    ensures
        path_segments(joined(path_segments(s))) == path_segments(s),
{
    broadcast use vstd::seq_lib::group_filter_ensures;

    let g = path_segments(s);
    let pred = |p: Seq<char>| p.len() > 0;
    lemma_segments_are_clean(s);
    if g.len() == 0 {
        assert(joined(g) =~= Seq::<char>::empty());
        assert(split_pieces(Seq::<char>::empty()) == seq![Seq::<char>::empty()]);
        assert(seq![Seq::<char>::empty()].filter(pred) =~= seq![Seq::<char>::empty()].drop_last().filter(pred)) by {
            reveal(Seq::filter);
        }
        assert(seq![Seq::<char>::empty()].drop_last() =~= Seq::<Seq<char>>::empty());
        assert(Seq::<Seq<char>>::empty().filter(pred) =~= Seq::<Seq<char>>::empty()) by {
            reveal(Seq::filter);
        }
    } else {
        lemma_split_joined(g);
        lemma_filter_keeps_all(g, pred);
    }
}

/// Filtering by a predicate that every element meets keeps them all.
proof fn lemma_filter_keeps_all(g: Seq<Seq<char>>, pred: spec_fn(Seq<char>) -> bool)
    requires
        forall|k: int| 0 <= k < g.len() ==> pred(#[trigger] g[k]),
    ensures
        g.filter(pred) == g,
    decreases g.len(),
{
    reveal(Seq::filter);
    if g.len() > 0 {
        let gd = g.drop_last();
        assert forall|k: int| 0 <= k < gd.len() implies pred(#[trigger] gd[k]) by {
            assert(gd[k] == g[k]);
        }
        lemma_filter_keeps_all(gd, pred);
        assert(pred(g[g.len() - 1]));
        assert(g =~= gd.push(g.last()));
    }
}

/// The segments of a path: the non-empty pieces between its slashes.
pub fn normalize_path(path: &str) -> (r: Vec<String>)
    ensures
        r@.map_values(|x: String| x@) == path_segments(path@),
{
    let ghost s = path@;
    let ghost pred = |p: Seq<char>| p.len() > 0;
    let cs = chars_of(path);
    let n = cs.len();
    let mut out: Vec<String> = Vec::new();
    let mut start: usize = 0;
    let mut i: usize = 0;
    assert(s.take(0) =~= Seq::<char>::empty());
    assert(split_pieces(s.take(0)).drop_last() =~= Seq::<Seq<char>>::empty());
    proof {
        reveal(Seq::filter);
    }
    while i < n
        invariant
            cs@ == s,
            s == path@,
            n == s.len(),
            start <= i <= n,
            pred == (|p: Seq<char>| p.len() > 0),
            split_pieces(s.take(i as int)).len() >= 1,
            split_pieces(s.take(i as int)).last() == s.subrange(start as int, i as int),
            out@.map_values(|x: String| x@) == split_pieces(s.take(i as int)).drop_last().filter(
                pred,
            ),
        decreases n - i,
    {
        let ghost p = split_pieces(s.take(i as int));
        proof {
            assert(s.take(i + 1).drop_last() =~= s.take(i as int));
            assert(s.take(i + 1).last() == s[i as int]);
        }
        if cs[i] == '/' {
            proof {
                assert(p =~= p.drop_last().push(p.last()));
                p.drop_last().lemma_filter_push(p.last(), pred);
                assert(split_pieces(s.take(i + 1)).drop_last() =~= p);
            }
            if start < i {
                out.push(path.substring_char(start, i).to_owned());
            }
            assert(out@.map_values(|x: String| x@) =~= split_pieces(s.take(i + 1)).drop_last().filter(
                pred,
            ));
            start = i + 1;
        } else {
            proof {
                assert(split_pieces(s.take(i + 1)).drop_last() =~= p.drop_last());
                assert(s.subrange(start as int, i + 1) =~= s.subrange(start as int, i as int).push(
                    s[i as int],
                ));
            }
        }
        i = i + 1;
    }
    let ghost p = split_pieces(s.take(n as int));
    proof {
        assert(s.take(n as int) =~= s);
        assert(p =~= p.drop_last().push(p.last()));
        p.drop_last().lemma_filter_push(p.last(), pred);
    }
    if start < n {
        out.push(path.substring_char(start, n).to_owned());
    }
    assert(out@.map_values(|x: String| x@) =~= path_segments(s));
    out
}

/// The methods that routes tell apart.
#[derive(Clone, Copy, PartialEq, Eq, Structural, Debug)]
pub enum HttpMethod {
    Get,
    Post,
    Put,
    Patch,
    Delete,
    Other,
}

/// What a request asks for.
#[derive(PartialEq, Eq, Debug)]
pub enum Route {
    Health,
    ListShelves,
    ListItems,
    CreateItem,
    GetItem(String),
    UpdateItem(String),
    MoveItem(String),
    ArchiveItem(String),
    DeleteItem(String),
    ListCategories,
    CreateCategory,
    ListPreferences,
    UpsertPreference(String),
    NotFound,
}

/// A route, with its parameter as text.
pub enum RouteView {
    Health,
    ListShelves,
    ListItems,
    CreateItem,
    GetItem(Seq<char>),
    UpdateItem(Seq<char>),
    MoveItem(Seq<char>),
    ArchiveItem(Seq<char>),
    DeleteItem(Seq<char>),
    ListCategories,
    CreateCategory,
    ListPreferences,
    UpsertPreference(Seq<char>),
    NotFound,
}

impl View for Route {
    type V = RouteView;

    open spec fn view(&self) -> RouteView {
        match self {
            Route::Health => RouteView::Health,
            Route::ListShelves => RouteView::ListShelves,
            Route::ListItems => RouteView::ListItems,
            Route::CreateItem => RouteView::CreateItem,
            Route::GetItem(id) => RouteView::GetItem(id@),
            Route::UpdateItem(id) => RouteView::UpdateItem(id@),
            Route::MoveItem(id) => RouteView::MoveItem(id@),
            Route::ArchiveItem(id) => RouteView::ArchiveItem(id@),
            Route::DeleteItem(id) => RouteView::DeleteItem(id@),
            Route::ListCategories => RouteView::ListCategories,
            Route::CreateCategory => RouteView::CreateCategory,
            Route::ListPreferences => RouteView::ListPreferences,
            Route::UpsertPreference(t) => RouteView::UpsertPreference(t@),
            Route::NotFound => RouteView::NotFound,
        }
    }
}

/// The HTTP status of a successful answer to a route: `201 Created` where
/// the route creates an item or a category, else `200 OK`. (A request that
/// matches no route is answered with an error, `ApiError::RouteNotFound`.)
pub open spec fn success_status(r: RouteView) -> u16 {
    match r {
        RouteView::CreateItem | RouteView::CreateCategory => 201,
        _ => 200,
    }
}

impl Route {
    /// The HTTP status of a successful answer to this route.
    pub fn success_status(&self) -> (r: u16)
        ensures
            r == success_status(self@),
    {
        match self {
            Route::CreateItem | Route::CreateCategory => 201,
            _ => 200,
        }
    }
}

/// The route of a request with method `m` and path segments `p`.
pub open spec fn route_for(m: HttpMethod, p: Seq<Seq<char>>) -> RouteView {
    match m {
        HttpMethod::Get => if p.len() == 0 || (p.len() == 1 && p[0] == "health"@) {
            RouteView::Health
        } else if p.len() == 1 && p[0] == "shelves"@ {
            RouteView::ListShelves
        } else if p.len() == 1 && p[0] == "items"@ {
            RouteView::ListItems
        } else if p.len() == 2 && p[0] == "items"@ {
            RouteView::GetItem(p[1])
        } else if p.len() == 1 && p[0] == "categories"@ {
            RouteView::ListCategories
        } else if p.len() == 1 && p[0] == "notification-preferences"@ {
            RouteView::ListPreferences
        } else {
            RouteView::NotFound
        },
        HttpMethod::Post => if p.len() == 1 && p[0] == "items"@ {
            RouteView::CreateItem
        } else if p.len() == 3 && p[0] == "items"@ && p[2] == "move"@ {
            RouteView::MoveItem(p[1])
        } else if p.len() == 3 && p[0] == "items"@ && p[2] == "archive"@ {
            RouteView::ArchiveItem(p[1])
        } else if p.len() == 1 && p[0] == "categories"@ {
            RouteView::CreateCategory
        } else {
            RouteView::NotFound
        },
        HttpMethod::Patch => if p.len() == 2 && p[0] == "items"@ {
            RouteView::UpdateItem(p[1])
        } else {
            RouteView::NotFound
        },
        HttpMethod::Delete => if p.len() == 2 && p[0] == "items"@ {
            RouteView::DeleteItem(p[1])
        } else {
            RouteView::NotFound
        },
        HttpMethod::Put => if p.len() == 2 && p[0] == "notification-preferences"@ {
            RouteView::UpsertPreference(p[1])
        } else {
            RouteView::NotFound
        },
        HttpMethod::Other => RouteView::NotFound,
    }
}

/// The routes of one item take the item's id from the path, whatever it is:
/// reading, changing and deleting `/items/{id}`, moving and archiving
/// `/items/{id}/move` and `/items/{id}/archive`, and setting
/// `/notification-preferences/{shelf}`; a method the API does not use
/// matches no route.
pub proof fn lemma_item_routes_carry_the_id(x: Seq<char>, p: Seq<Seq<char>>)
    ensures
        route_for(HttpMethod::Get, seq!["items"@, x]) == RouteView::GetItem(x),
        route_for(HttpMethod::Patch, seq!["items"@, x]) == RouteView::UpdateItem(x),
        route_for(HttpMethod::Delete, seq!["items"@, x]) == RouteView::DeleteItem(x),
        route_for(HttpMethod::Post, seq!["items"@, x, "move"@]) == RouteView::MoveItem(x),
        route_for(HttpMethod::Post, seq!["items"@, x, "archive"@]) == RouteView::ArchiveItem(x),
        route_for(HttpMethod::Put, seq!["notification-preferences"@, x])
            == RouteView::UpsertPreference(x),
        route_for(HttpMethod::Other, p) == RouteView::NotFound,
{
    reveal_strlit("items");
    reveal_strlit("health");
    reveal_strlit("shelves");
    reveal_strlit("move");
    reveal_strlit("archive");
    assert("items"@ != "health"@) by {
        assert("items"@[0] != "health"@[0]);
    }
    assert("items"@ != "shelves"@) by {
        assert("items"@.len() != "shelves"@.len());
    }
    assert("move"@ != "archive"@) by {
        assert("move"@.len() != "archive"@.len());
    }
}

/// Tells whether segment `k` of `segs` is `word`.
fn segment_is(segs: &Vec<String>, k: usize, word: &str) -> (r: bool)
    requires
        k < segs.len(),
    ensures
        r == (segs@[k as int]@ == word@),
{
    same_text(segs[k].as_str(), word)
}

/// The route of a request with method `method` and path `path`.
pub fn route_request(method: HttpMethod, path: &str) -> (r: Route)
    ensures
        r@ == route_for(method, path_segments(path@)),
{
    let segs = normalize_path(path);
    let ghost p = path_segments(path@);
    proof {
        assert forall|k: int| 0 <= k < segs.len() implies segs@[k]@ == p[k] by {
            assert(segs@.map_values(|x: String| x@)[k] == segs@[k]@);
        }
    }
    let n = segs.len();
    match method {
        HttpMethod::Get => {
            if n == 0 || (n == 1 && segment_is(&segs, 0, "health")) {
                Route::Health
            } else if n == 1 && segment_is(&segs, 0, "shelves") {
                Route::ListShelves
            } else if n == 1 && segment_is(&segs, 0, "items") {
                Route::ListItems
            } else if n == 2 && segment_is(&segs, 0, "items") {
                Route::GetItem(segs[1].clone())
            } else if n == 1 && segment_is(&segs, 0, "categories") {
                Route::ListCategories
            } else if n == 1 && segment_is(&segs, 0, "notification-preferences") {
                Route::ListPreferences
            } else {
                Route::NotFound
            }
        },
        HttpMethod::Post => {
            if n == 1 && segment_is(&segs, 0, "items") {
                Route::CreateItem
            } else if n == 3 && segment_is(&segs, 0, "items") && segment_is(&segs, 2, "move") {
                Route::MoveItem(segs[1].clone())
            } else if n == 3 && segment_is(&segs, 0, "items") && segment_is(&segs, 2, "archive") {
                Route::ArchiveItem(segs[1].clone())
            } else if n == 1 && segment_is(&segs, 0, "categories") {
                Route::CreateCategory
            } else {
                Route::NotFound
            }
        },
        HttpMethod::Patch => {
            if n == 2 && segment_is(&segs, 0, "items") {
                Route::UpdateItem(segs[1].clone())
            } else {
                Route::NotFound
            }
        },
        HttpMethod::Delete => {
            if n == 2 && segment_is(&segs, 0, "items") {
                Route::DeleteItem(segs[1].clone())
            } else {
                Route::NotFound
            }
        },
        HttpMethod::Put => {
            if n == 2 && segment_is(&segs, 0, "notification-preferences") {
                Route::UpsertPreference(segs[1].clone())
            } else {
                Route::NotFound
            }
        },
        HttpMethod::Other => Route::NotFound,
    }
}

/// The user a request acts for: the `x-user-id` header when it is present
/// and readable as text, else "demo-user".
pub fn request_user(header: Option<&str>) -> (r: String)
    ensures
        r@ == match header {
            Some(h) => h@,
            None => "demo-user"@,
        },
{
    match header {
        Some(h) => h.to_owned(),
        None => "demo-user".to_owned(),
    }
}

} // verus!
