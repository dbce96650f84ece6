use vstd::prelude::*;

use crate::post::{kind_rank, ts_lt, Kind, Post, PostView, Timestamp};
use crate::sort::{items_of, map_items, sort_with_keys, stable_sort, zip_keys, Keyed, SortKey};
use crate::state::State;
use crate::telegram::{fetched_to_post, FetchedPost};

verus! {

broadcast use vstd::seq_lib::group_to_multiset_ensures;

/// The views of a sequence of posts.
pub open spec fn views(s: Seq<Post>) -> Seq<PostView> {
    s.map_values(|p: Post| p@)
}

/// The newest date among the posts of `s` with the given kind and source, if there is one.
pub open spec fn group_newest(s: Seq<PostView>, kind: Kind, source: Seq<char>) -> Option<Timestamp>
    decreases s.len(),
{
    if s.len() == 0 {
        None
    } else {
        let rest = group_newest(s.drop_last(), kind, source);
        let p = s.last();
        if p.kind == kind && p.source == source {
            match rest {
                Some(t) => if ts_lt(t, p.date) { Some(p.date) } else { Some(t) },
                None => Some(p.date),
            }
        } else {
            rest
        }
    }
}

/// Where `p` stands among the posts `s`: by kind, then by the newest post of its
/// (kind, source) group, newest group first, then by its own date, newest first.
pub open spec fn display_key(s: Seq<PostView>, p: PostView) -> SortKey {
    SortKey {
        rank: kind_rank(p.kind),
        group: match group_newest(s, p.kind, p.source) {
            Some(t) => t,
            None => p.date,
        },
        date: p.date,
    }
}

/// The posts `s`, each with its display key.
pub open spec fn keyed_for_display(s: Seq<PostView>) -> Seq<Keyed<PostView>> {
    s.map_values(|p: PostView| Keyed { key: display_key(s, p), item: p })
}

/// The posts `s` in display order; posts that tie keep their order.
pub open spec fn display_order(s: Seq<PostView>) -> Seq<PostView> {
    items_of(stable_sort(keyed_for_display(s)))
}

/// The newest date of the group of `posts[i]`.
fn group_newest_of(posts: &Vec<Post>, i: usize) -> (t: Timestamp)
    requires
        i < posts@.len(),
    ensures
        t == display_key(views(posts@), posts@[i as int]@).group,
{
    let ghost s = views(posts@);
    let kind = posts[i].kind;
    let mut cur: Option<Timestamp> = None;
    let mut j: usize = 0;
    while j < posts.len()
        invariant
            i < posts@.len(),
            j <= posts@.len(),
            s == views(posts@),
            kind == posts@[i as int].kind,
            cur == group_newest(s.take(j as int), kind, posts@[i as int].source@),
        decreases posts.len() - j,
    {
        proof {
            assert(s.take(j + 1).drop_last() =~= s.take(j as int));
        }
        let p = &posts[j];
        if p.kind == kind && p.source == posts[i].source {
            cur = match cur {
                Some(t) => if t.is_before(&p.date) { Some(p.date) } else { Some(t) },
                None => Some(p.date),
            };
        }
        j = j + 1;
    }
    proof {
        assert(s.take(j as int) =~= s);
    }
    match cur {
        Some(t) => t,
        None => posts[i].date,
    }
}

/// Orders posts for display: Hacker News first, then RSS, then Telegram; within a kind,
/// sources whose newest post is newest come first; within a source, newest posts first.
pub fn sort_for_display(posts: Vec<Post>) -> (r: Vec<Post>)
    ensures
        views(r@) == display_order(views(posts@)),
{
    let ghost s = views(posts@);
    let ghost ks = keyed_for_display(s);
    let mut keys: Vec<SortKey> = Vec::new();
    let mut i: usize = 0;
    while i < posts.len()
        invariant
            i <= posts@.len(),
            s == views(posts@),
            ks == keyed_for_display(s),
            keys@.len() == i,
            forall|k: int| 0 <= k < i ==> #[trigger] keys@[k] == ks[k].key,
        decreases posts.len() - i,
    {
        let g = group_newest_of(&posts, i);
        let p = &posts[i];
        keys.push(SortKey { rank: p.kind.rank(), group: g, date: p.date });
        i = i + 1;
    }
    let ghost f = |p: Post| p@;
    let ghost z = zip_keys(keys@, posts@);
    proof {
        assert(map_items(z, f) =~= ks);
    }
    let r = sort_with_keys(posts, keys);
    proof {
        crate::sort::lemma_stable_sort_map_items(z, f);
        assert(views(items_of(stable_sort(z))) =~= items_of(map_items(stable_sort(z), f)));
    }
    r
}

} // verus!

verus! {

/// `p` has not been seen: it has no identity, or its identity is not in `seen`.
pub open spec fn unseen(p: PostView, seen: Set<Seq<char>>) -> bool {
    match p.id {
        Some(id) => !seen.contains(id),
        None => true,
    }
}

/// The identities of the posts of `s`.
pub open spec fn ids_of(s: Seq<PostView>) -> Set<Seq<char>> {
    Set::new(|id: Seq<char>| exists|i: int| 0 <= i < s.len() && #[trigger] s[i].id == Some(id))
}

/// The posts of an optional batch: none when the batch could not be fetched.
pub open spec fn batch(o: Option<Vec<Post>>) -> Seq<PostView> {
    match o {
        Some(v) => views(v@),
        None => Seq::empty(),
    }
}

/// All posts fetched in one run, in fetch order: Telegram's, then RSS's, then Hacker News's.
pub open spec fn gathered(tg: Seq<FetchedPost>, rss: Option<Vec<Post>>, hn: Option<Vec<Post>>) -> Seq<PostView> {
    tg.map_values(|f: FetchedPost| fetched_to_post(f@)) + batch(rss) + batch(hn)
}

/// The posts of `s` not seen according to `seen`, in order.
pub open spec fn unseen_posts(s: Seq<PostView>, seen: Set<Seq<char>>) -> Seq<PostView> {
    s.filter(|p: PostView| unseen(p, seen))
}

proof fn lemma_ids_of_push(s: Seq<PostView>, i: int)
    requires
        0 <= i < s.len(),
    ensures
        ids_of(s.take(i + 1)) == match s[i].id {
            Some(id) => ids_of(s.take(i)).insert(id),
            None => ids_of(s.take(i)),
        },
{
    let a = s.take(i + 1);
    let b = s.take(i);
    assert forall|id: Seq<char>| #[trigger] ids_of(a).contains(id) == (match s[i].id {
        Some(x) => ids_of(b).insert(x),
        None => ids_of(b),
    }).contains(id) by {
        if ids_of(a).contains(id) {
            let k = choose|k: int| 0 <= k < a.len() && #[trigger] a[k].id == Some(id);
            if k < i {
                assert(b[k].id == Some(id));
            }
        }
        if ids_of(b).contains(id) {
            let k = choose|k: int| 0 <= k < b.len() && #[trigger] b[k].id == Some(id);
            assert(a[k].id == Some(id));
        }
        if s[i].id == Some(id) {
            assert(a[i].id == Some(id));
        }
    }
    match s[i].id {
        Some(x) => assert(ids_of(a) =~= ids_of(b).insert(x)),
        None => assert(ids_of(a) =~= ids_of(b)),
    }
}

/// Moves the posts of `batch` to the end of `all`.
fn append_batch(all: &mut Vec<Post>, batch: Option<Vec<Post>>)
    ensures
        views(final(all)@) == views(old(all)@) + crate::pipeline::batch(batch),
{
    match batch {
        Some(mut v) => {
            let ghost a = all@;
            let ghost b = v@;
            all.append(&mut v);
            assert(views(all@) =~= views(a) + views(b));
        },
        None => {
            assert(views(all@) =~= views(all@) + Seq::<PostView>::empty());
        },
    }
}

/// Combines the posts fetched in one run: drops those already seen, orders the rest for
/// display, and remembers each shown post's identity as seen. A source whose fetch
/// failed is passed as `None` and contributes nothing.
pub fn collect_posts(
    tg: Vec<FetchedPost>,
    rss: Option<Vec<Post>>,
    hn: Option<Vec<Post>>,
    state: &mut State,
) -> (r: Vec<Post>)
    ensures
        views(r@) == display_order(unseen_posts(gathered(tg@, rss, hn), old(state)@)),
        final(state)@ == old(state)@.union(ids_of(views(r@))),
        final(state).last_opened == old(state).last_opened,
        old(state).wf() ==> final(state).wf(),
{
    let ghost seen0 = state@;
    let ghost tgv = tg@.map_values(|f: FetchedPost| fetched_to_post(f@));
    let mut all: Vec<Post> = Vec::new();
    let mut rest = tg;
    let ghost tg0 = rest@;
    let n = rest.len();
    while rest.len() > 0
        invariant
            n == tg0.len(),
            tgv == tg0.map_values(|f: FetchedPost| fetched_to_post(f@)),
            all@.len() + rest@.len() == n,
            rest@ == tg0.skip(all@.len() as int),
            views(all@) == tgv.take(all@.len() as int),
        decreases rest.len(),
    {
        let ghost k = all@.len() as int;
        let ghost old_rest = rest@;
        let f = rest.remove(0);
        proof {
            assert(f == tg0[k]) by {
                assert(old_rest[0] == tg0.skip(k)[0]);
            }
            assert(rest@ =~= tg0.skip(k + 1));
        }
        let p = f.into_post();
        all.push(p);
        proof {
            assert(views(all@) =~= tgv.take(k + 1));
        }
    }
    proof {
        assert(tgv.take(n as int) =~= tgv);
    }
    append_batch(&mut all, rss);
    append_batch(&mut all, hn);
    let ghost everything = views(all@);
    assert(everything == gathered(tg@, rss, hn));
    let ghost pred = |p: PostView| unseen(p, seen0);
    let mut kept: Vec<Post> = Vec::new();
    let mut i: usize = 0;
    let ghost all0 = all@;
    let m = all.len();
    let mut rest = all;
    while rest.len() > 0
        invariant
            m == all0.len(),
            everything == views(all0),
            i + rest@.len() == m,
            rest@ == all0.skip(i as int),
            views(kept@) == everything.take(i as int).filter(pred),
            pred == (|p: PostView| unseen(p, seen0)),
            state@ == seen0,
        decreases rest.len(),
    {
        let ghost old_rest = rest@;
        let p = rest.remove(0);
        proof {
            assert(p == all0[i as int]) by {
                assert(old_rest[0] == all0.skip(i as int)[0]);
            }
            assert(rest@ =~= all0.skip(i + 1));
            assert(everything.take(i + 1).drop_last() =~= everything.take(i as int));
            reveal(Seq::filter);
        }
        let keep = match &p.id {
            Some(id) => !state.is_seen(id.as_str()),
            None => true,
        };
        let ghost before = kept@;
        if keep {
            kept.push(p);
            proof {
                assert(views(kept@) =~= views(before).push(everything[i as int]));
            }
        }
        i = i + 1;
    }
    proof {
        assert(everything.take(i as int) =~= everything);
    }
    let sorted = sort_for_display(kept);
    let ghost sv = views(sorted@);
    let mut j: usize = 0;
    while j < sorted.len()
        invariant
            j <= sorted@.len(),
            sv == views(sorted@),
            state@ == seen0.union(ids_of(sv.take(j as int))),
            state.last_opened == old(state).last_opened,
            old(state).wf() ==> state.wf(),
        decreases sorted.len() - j,
    {
        proof {
            lemma_ids_of_push(sv, j as int);
        }
        match &sorted[j].id {
            Some(id) => {
                state.mark_seen(id.clone());
                assert(state@ =~= seen0.union(ids_of(sv.take(j + 1))));
            },
            None => {},
        }
        j = j + 1;
    }
    proof {
        assert(sv.take(j as int) =~= sv);
    }
    sorted
}

} // verus!

verus! {

/// Display order only reorders: it holds exactly the posts it was given.
pub proof fn law_display_order_permutes(s: Seq<PostView>)
    ensures
        display_order(s).to_multiset() == s.to_multiset(),
{
    crate::sort::lemma_stable_sort_permutes_items(keyed_for_display(s));
    assert(items_of(keyed_for_display(s)) =~= s);
}

/// In display order no post stands behind one that its display key puts after it: kinds
/// ascend, groups with newer posts come first, and newer posts come first in a group.
pub proof fn law_display_order_sorted(s: Seq<PostView>, i: int, j: int)
    requires
        0 <= i < j < display_order(s).len(),
    ensures
        !crate::sort::key_before(
            display_key(s, display_order(s)[j]),
            display_key(s, display_order(s)[i]),
        ),
{
    let ks = keyed_for_display(s);
    let t = stable_sort(ks);
    crate::sort::lemma_stable_sort_sorted(ks);
    crate::sort::lemma_stable_sort_contains(ks, i);
    crate::sort::lemma_stable_sort_contains(ks, j);
    let a = choose|a: int| 0 <= a < ks.len() && ks[a] == t[i];
    let b = choose|b: int| 0 <= b < ks.len() && ks[b] == t[j];
    assert(t[j].key == display_key(s, t[j].item));
    assert(t[i].key == display_key(s, t[i].item));
    assert(!crate::sort::key_before(t[j].key, t[i].key));
}

/// Display order is stable: the posts that share a display key stand in it in the order
/// in which they were given.
pub proof fn law_display_order_stable(s: Seq<PostView>, k: SortKey)
    ensures
        display_order(s).filter(|p: PostView| display_key(s, p) == k) == s.filter(
            |p: PostView| display_key(s, p) == k,
        ),
{
    let ks = keyed_for_display(s);
    let t = stable_sort(ks);
    let pred = |p: PostView| display_key(s, p) == k;
    crate::sort::lemma_stable_sort_stable(ks, k);
    assert forall|i: int| 0 <= i < t.len() implies (#[trigger] t[i].key == k) == pred(t[i].item) by {
        crate::sort::lemma_stable_sort_contains(ks, i);
        let a = choose|a: int| 0 <= a < ks.len() && ks[a] == t[i];
        assert(ks[a].key == display_key(s, ks[a].item));
    }
    crate::sort::lemma_items_with_key(t, k, pred);
    crate::sort::lemma_items_with_key(ks, k, pred);
    assert(items_of(ks) =~= s);
}

proof fn lemma_display_order_contains(s: Seq<PostView>, p: PostView)
    requires
        display_order(s).contains(p),
    ensures
        s.contains(p),
{
    law_display_order_permutes(s);
    assert(display_order(s).to_multiset().contains(p));
}

/// No post shown by a run had been seen before it.
pub proof fn law_shown_posts_were_unseen(s: Seq<PostView>, seen: Set<Seq<char>>, i: int)
    requires
        0 <= i < display_order(unseen_posts(s, seen)).len(),
    ensures
        unseen(display_order(unseen_posts(s, seen))[i], seen),
{
    broadcast use vstd::seq_lib::group_filter_ensures;

    let u = unseen_posts(s, seen);
    let p = display_order(u)[i];
    lemma_display_order_contains(u, p);
    let k = choose|k: int| 0 <= k < u.len() && u[k] == p;
}

/// A post with an identity does not come back: fed the same posts again, the state that a
/// run leaves behind drops every one of them that has an identity.
pub proof fn law_seen_posts_do_not_reappear(s: Seq<PostView>, seen: Set<Seq<char>>, p: PostView)
    requires
        s.contains(p),
        p.id is Some,
    ensures
        !unseen(p, seen.union(ids_of(display_order(unseen_posts(s, seen))))),
{
    broadcast use vstd::seq_lib::group_filter_ensures;

    let u = unseen_posts(s, seen);
    let shown = display_order(u);
    let id = p.id->0;
    if !seen.contains(id) {
        let k = choose|k: int| 0 <= k < s.len() && s[k] == p;
        assert(unseen(s[k], seen));
        assert(u.contains(p));
        law_display_order_permutes(u);
        assert(u.to_multiset().contains(p));
        assert(shown.to_multiset().contains(p));
        assert(shown.contains(p));
        let j = choose|j: int| 0 <= j < shown.len() && shown[j] == p;
        assert(shown[j].id == Some(id));
        assert(ids_of(shown).contains(id));
    }
}

} // verus!

verus! {

/// The posts `s` ordered by date, newest first; posts of the same date keep their order.
pub open spec fn newest_first(s: Seq<PostView>) -> Seq<PostView> {
    items_of(stable_sort(s.map_values(|p: PostView| Keyed { key: crate::sort::newest_first_key(p.date), item: p })))
}

/// Orders posts by date, newest first, keeping posts of the same date in their order.
pub fn sort_newest_first(posts: Vec<Post>) -> (r: Vec<Post>)
    ensures
        views(r@) == newest_first(views(posts@)),
{
    let ghost s = views(posts@);
    let mut keys: Vec<SortKey> = Vec::new();
    let mut i: usize = 0;
    while i < posts.len()
        invariant
            i <= posts@.len(),
            keys@.len() == i,
            forall|k: int| 0 <= k < i ==> #[trigger] keys@[k] == crate::sort::newest_first_key(posts@[k].date),
        decreases posts.len() - i,
    {
        keys.push(crate::sort::date_sort_key(posts[i].date));
        i = i + 1;
    }
    let ghost f = |p: Post| p@;
    let ghost z = zip_keys(keys@, posts@);
    proof {
        assert(map_items(z, f) =~= s.map_values(
            |p: PostView| Keyed { key: crate::sort::newest_first_key(p.date), item: p },
        ));
    }
    let r = sort_with_keys(posts, keys);
    proof {
        crate::sort::lemma_stable_sort_map_items(z, f);
        assert(views(items_of(stable_sort(z))) =~= items_of(map_items(stable_sort(z), f)));
    }
    r
}

/// Newest-first order holds exactly the posts it was given, none later than one before it.
pub proof fn law_newest_first(s: Seq<PostView>)
    ensures
        newest_first(s).to_multiset() == s.to_multiset(),
        forall|i: int, j: int|
            0 <= i < j < newest_first(s).len() ==> !ts_lt(#[trigger] newest_first(s)[i].date, #[trigger] newest_first(s)[j].date),
{
    let ks = s.map_values(|p: PostView| Keyed { key: crate::sort::newest_first_key(p.date), item: p });
    let t = stable_sort(ks);
    crate::sort::lemma_stable_sort_permutes_items(ks);
    assert(items_of(ks) =~= s);
    crate::sort::lemma_stable_sort_sorted(ks);
    assert forall|i: int, j: int| 0 <= i < j < newest_first(s).len() implies !ts_lt(
        #[trigger] newest_first(s)[i].date,
        #[trigger] newest_first(s)[j].date,
    ) by {
        crate::sort::lemma_stable_sort_contains(ks, i);
        crate::sort::lemma_stable_sort_contains(ks, j);
        let a = choose|a: int| 0 <= a < ks.len() && ks[a] == t[i];
        let b = choose|b: int| 0 <= b < ks.len() && ks[b] == t[j];
        assert(!crate::sort::key_before(t[j].key, t[i].key));
    }
}

/// Newest-first order is stable: posts of the same date stand in it in the order in which
/// they were given.
pub proof fn law_newest_first_stable(s: Seq<PostView>, d: Timestamp)
    ensures
        newest_first(s).filter(|p: PostView| p.date == d) == s.filter(|p: PostView| p.date == d),
{
    let ks = s.map_values(|p: PostView| Keyed { key: crate::sort::newest_first_key(p.date), item: p });
    let t = stable_sort(ks);
    let k = crate::sort::newest_first_key(d);
    let pred = |p: PostView| p.date == d;
    crate::sort::lemma_stable_sort_stable(ks, k);
    assert forall|i: int| 0 <= i < ks.len() implies (#[trigger] ks[i].key == k) == pred(ks[i].item) by {
        assert(ks[i].key == crate::sort::newest_first_key(ks[i].item.date));
    }
    assert forall|i: int| 0 <= i < t.len() implies (#[trigger] t[i].key == k) == pred(t[i].item) by {
        crate::sort::lemma_stable_sort_contains(ks, i);
        let a = choose|a: int| 0 <= a < ks.len() && ks[a] == t[i];
        assert((ks[a].key == k) == pred(ks[a].item));
    }
    crate::sort::lemma_items_with_key(t, k, pred);
    crate::sort::lemma_items_with_key(ks, k, pred);
    assert(items_of(ks) =~= s);
}

proof fn lemma_group_newest_is_max(s: Seq<PostView>, kind: Kind, source: Seq<char>)
    ensures
        match group_newest(s, kind, source) {
            Some(t) => {
                &&& forall|i: int|
                    0 <= i < s.len() && #[trigger] s[i].kind == kind && s[i].source == source ==> !ts_lt(t, s[i].date)
                &&& exists|i: int| 0 <= i < s.len() && #[trigger] s[i].kind == kind && s[i].source == source && s[i].date == t
            },
            None => forall|i: int| 0 <= i < s.len() ==> !(#[trigger] s[i].kind == kind && s[i].source == source),
        },
    decreases s.len(),
{
    if s.len() > 0 {
        let r = s.drop_last();
        lemma_group_newest_is_max(r, kind, source);
        let n = s.len() - 1;
        assert forall|i: int| 0 <= i < n implies #[trigger] s[i] == r[i] by {}
        match group_newest(r, kind, source) {
            Some(t) => {
                let w = choose|i: int| 0 <= i < r.len() && #[trigger] r[i].kind == kind && r[i].source == source && r[i].date == t;
                assert(s[w] == r[w]);
            },
            None => {},
        }
    }
}

/// The group date in a post's display key is the newest date among the posts of its
/// kind and source: none of them is newer, and one of them has that date. Groups are
/// thus ordered by their freshest post, whatever the order the posts came in.
pub proof fn law_group_date_is_newest(s: Seq<PostView>, p: PostView)
    requires
        s.contains(p),
    ensures
        forall|q: PostView| s.contains(q) && q.kind == p.kind && q.source == p.source ==> !ts_lt(
            display_key(s, p).group,
            q.date,
        ),
        exists|q: PostView| s.contains(q) && q.kind == p.kind && q.source == p.source && q.date == display_key(
            s,
            p,
        ).group,
{
    lemma_group_newest_is_max(s, p.kind, p.source);
    let k = choose|i: int| 0 <= i < s.len() && s[i] == p;
    assert(s[k].kind == p.kind && s[k].source == p.source);
    let t = group_newest(s, p.kind, p.source)->0;
    assert forall|q: PostView| s.contains(q) && q.kind == p.kind && q.source == p.source implies !ts_lt(
        display_key(s, p).group,
        q.date,
    ) by {
        let j = choose|i: int| 0 <= i < s.len() && s[i] == q;
        assert(s[j].kind == p.kind && s[j].source == p.source);
    }
    let w = choose|i: int| 0 <= i < s.len() && #[trigger] s[i].kind == p.kind && s[i].source == p.source && s[i].date == t;
    assert(s.contains(s[w]));
}

} // verus!
