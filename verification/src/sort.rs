use vstd::prelude::*;

use crate::post::{ts_lt, Timestamp};

verus! {

broadcast use vstd::seq_lib::group_to_multiset_ensures;

/// The key by which posts are ordered: a rank (ascending), then the date of a post's
/// group (newest first), then the post's own date (newest first).
#[derive(Clone, Copy, Debug, PartialEq, Eq, Structural)]
pub struct SortKey {
    pub rank: u8,
    pub group: Timestamp,
    pub date: Timestamp,
}

/// An item together with the key that places it.
pub struct Keyed<T> {
    pub key: SortKey,
    pub item: T,
}

/// `a` goes strictly before `b`.
pub open spec fn key_before(a: SortKey, b: SortKey) -> bool {
    ||| a.rank < b.rank
    ||| a.rank == b.rank && ts_lt(b.group, a.group)
    ||| a.rank == b.rank && a.group == b.group && ts_lt(b.date, a.date)
}

/// No element of `s` goes strictly before an element that precedes it.
pub open spec fn sorted_by_key<T>(s: Seq<Keyed<T>>) -> bool {
    forall|i: int, j: int| 0 <= i < j < s.len() ==> !key_before(#[trigger] s[j].key, #[trigger] s[i].key)
}

/// `x` placed into `s` in front of the first element that it goes strictly before
/// (at the end if there is none).
pub open spec fn insert_sorted<T>(s: Seq<Keyed<T>>, x: Keyed<T>) -> Seq<Keyed<T>>
    decreases s.len(),
{
    if s.len() == 0 {
        seq![x]
    } else if key_before(x.key, s[0].key) {
        seq![x] + s
    } else {
        seq![s[0]] + insert_sorted(s.drop_first(), x)
    }
}

/// The stable sort of `s` by key: each element in turn inserted behind every element
/// that it does not go strictly before.
pub open spec fn stable_sort<T>(s: Seq<Keyed<T>>) -> Seq<Keyed<T>>
    decreases s.len(),
{
    if s.len() == 0 {
        s
    } else {
        insert_sorted(stable_sort(s.drop_last()), s.last())
    }
}

/// The position at which [`insert_sorted`] places `x`: the first index whose element `x`
/// goes strictly before, or the length.
proof fn lemma_insert_at<T>(s: Seq<Keyed<T>>, x: Keyed<T>, j: int)
    requires
        0 <= j <= s.len(),
        forall|i: int| 0 <= i < j ==> !key_before(x.key, #[trigger] s[i].key),
        j < s.len() ==> key_before(x.key, s[j].key),
    ensures
        insert_sorted(s, x) == s.take(j).push(x) + s.skip(j),
    decreases s.len(),
{
    if s.len() == 0 {
        assert(s.take(j).push(x) + s.skip(j) =~= seq![x]);
    } else if j == 0 {
        assert(s.take(0).push(x) + s.skip(0) =~= seq![x] + s);
    } else {
        let t = s.drop_first();
        assert forall|i: int| 0 <= i < j - 1 implies !key_before(x.key, #[trigger] t[i].key) by {
            assert(t[i] == s[i + 1]);
        }
        lemma_insert_at(t, x, j - 1);
        assert(seq![s[0]] + (t.take(j - 1).push(x) + t.skip(j - 1)) =~= s.take(j).push(x) + s.skip(j));
    }
}

proof fn lemma_insert_multiset<T>(s: Seq<Keyed<T>>, x: Keyed<T>)
    ensures
        insert_sorted(s, x).to_multiset() =~= s.to_multiset().insert(x),
    decreases s.len(),
{
    broadcast use vstd::seq_lib::lemma_multiset_commutative;
    broadcast use vstd::multiset::group_multiset_axioms;

    if s.len() == 0 {
        assert(seq![x] =~= Seq::<Keyed<T>>::empty().push(x));
    } else if key_before(x.key, s[0].key) {
        assert(seq![x] =~= Seq::<Keyed<T>>::empty().push(x));
    } else {
        lemma_insert_multiset(s.drop_first(), x);
        assert(seq![s[0]] =~= Seq::<Keyed<T>>::empty().push(s[0]));
        assert(s =~= seq![s[0]] + s.drop_first());
    }
}

proof fn lemma_insert_sorted_keeps_order<T>(s: Seq<Keyed<T>>, x: Keyed<T>)
    requires
        sorted_by_key(s),
    ensures
        sorted_by_key(insert_sorted(s, x)),
        insert_sorted(s, x).len() == s.len() + 1,
    decreases s.len(),
{
    if s.len() == 0 {
    } else if key_before(x.key, s[0].key) {
        let r = seq![x] + s;
        assert forall|i: int, j: int| 0 <= i < j < r.len() implies !key_before(#[trigger] r[j].key, #[trigger] r[i].key) by {
            if i == 0 {
                assert(r[j] == s[j - 1]);
                if j - 1 > 0 {
                    assert(!key_before(s[j - 1].key, s[0].key));
                }
            } else {
                assert(r[i] == s[i - 1] && r[j] == s[j - 1]);
            }
        }
    } else {
        let t = s.drop_first();
        assert(sorted_by_key(t)) by {
            assert forall|i: int, j: int| 0 <= i < j < t.len() implies !key_before(#[trigger] t[j].key, #[trigger] t[i].key) by {
                assert(t[i] == s[i + 1] && t[j] == s[j + 1]);
            }
        }
        lemma_insert_sorted_keeps_order(t, x);
        lemma_insert_multiset(t, x);
        let u = insert_sorted(t, x);
        let r = seq![s[0]] + u;
        assert forall|i: int, j: int| 0 <= i < j < r.len() implies !key_before(#[trigger] r[j].key, #[trigger] r[i].key) by {
            if i == 0 {
                assert(r[j] == u[j - 1]);
                assert(u.to_multiset().contains(u[j - 1]));
                assert(t.to_multiset().insert(x).contains(u[j - 1]));
                if u[j - 1] != x {
                    assert(t.to_multiset().contains(u[j - 1]));
                    let k = choose|k: int| 0 <= k < t.len() && t[k] == u[j - 1];
                    assert(t[k] == s[k + 1]);
                }
            } else {
                assert(r[i] == u[i - 1] && r[j] == u[j - 1]);
            }
        }
    }
}

/// Sorting leaves no element behind one that it goes strictly before.
pub proof fn lemma_stable_sort_sorted<T>(s: Seq<Keyed<T>>)
    ensures
        sorted_by_key(stable_sort(s)),
        stable_sort(s).len() == s.len(),
    decreases s.len(),
{
    if s.len() > 0 {
        lemma_stable_sort_sorted(s.drop_last());
        lemma_insert_sorted_keeps_order(stable_sort(s.drop_last()), s.last());
    }
}

/// Sorting only reorders: the result holds exactly the elements of the input.
pub proof fn lemma_stable_sort_permutes<T>(s: Seq<Keyed<T>>)
    ensures
        stable_sort(s).to_multiset() =~= s.to_multiset(),
    decreases s.len(),
{
    broadcast use vstd::multiset::group_multiset_axioms;

    if s.len() > 0 {
        lemma_stable_sort_permutes(s.drop_last());
        lemma_insert_multiset(stable_sort(s.drop_last()), s.last());
        assert(s =~= s.drop_last().push(s.last()));
    }
}

/// Whether key `a` goes strictly before key `b`.
pub fn key_is_before(a: &SortKey, b: &SortKey) -> (r: bool)
    ensures
        r == key_before(*a, *b),
{
    if a.rank != b.rank {
        a.rank < b.rank
    } else if b.group.is_before(&a.group) {
        true
    } else if a.group.is_before(&b.group) {
        false
    } else {
        b.date.is_before(&a.date)
    }
}

/// Sorts `items` by key, keeping items with equal keys in the order they came in.
pub fn sort_by_key<T>(items: Vec<Keyed<T>>) -> (r: Vec<Keyed<T>>)
    ensures
        r@ == stable_sort(items@),
{
    let ghost orig = items@;
    let mut rest = items;
    let mut out: Vec<Keyed<T>> = Vec::new();
    let mut k: usize = 0;
    let n = rest.len();
    while rest.len() > 0
        invariant
            n == orig.len(),
            k + rest@.len() == n,
            rest@ == orig.skip(k as int),
            out@ == stable_sort(orig.take(k as int)),
        decreases rest.len(),
    {
        let x = rest.remove(0);
        proof {
            assert(orig.take(k + 1).drop_last() =~= orig.take(k as int));
            assert(orig.take(k + 1).last() == x);
            assert(rest@ =~= orig.skip(k + 1));
        }
        let mut j: usize = 0;
        while j < out.len()
            invariant
                j <= out@.len(),
                forall|i: int| 0 <= i < j ==> !key_before(x.key, #[trigger] out@[i].key),
            ensures
                j <= out@.len(),
                forall|i: int| 0 <= i < j ==> !key_before(x.key, #[trigger] out@[i].key),
                j < out@.len() ==> key_before(x.key, out@[j as int].key),
            decreases out.len() - j,
        {
            if key_is_before(&x.key, &out[j].key) {
                break;
            }
            j = j + 1;
        }
        proof {
            lemma_insert_at(out@, x, j as int);
        }
        let ghost before = out@;
        out.insert(j, x);
        proof {
            assert(out@ =~= before.take(j as int).push(x) + before.skip(j as int));
        }
        k = k + 1;
    }
    proof {
        assert(orig.take(k as int) =~= orig);
    }
    out
}

} // verus!

verus! {

/// Each item of `s` replaced by its image under `f`, keys unchanged.
pub open spec fn map_items<T, U>(s: Seq<Keyed<T>>, f: spec_fn(T) -> U) -> Seq<Keyed<U>> {
    s.map_values(|k: Keyed<T>| Keyed { key: k.key, item: f(k.item) })
}

/// The items of `s`, in order.
pub open spec fn items_of<T>(s: Seq<Keyed<T>>) -> Seq<T> {
    s.map_values(|k: Keyed<T>| k.item)
}

proof fn lemma_insert_map_items<T, U>(s: Seq<Keyed<T>>, x: Keyed<T>, f: spec_fn(T) -> U)
    ensures
        insert_sorted(map_items(s, f), Keyed { key: x.key, item: f(x.item) }) == map_items(insert_sorted(s, x), f),
    decreases s.len(),
{
    let fx = Keyed { key: x.key, item: f(x.item) };
    if s.len() == 0 {
        assert(map_items(seq![x], f) =~= seq![fx]);
    } else if key_before(x.key, s[0].key) {
        assert(map_items(seq![x] + s, f) =~= seq![fx] + map_items(s, f));
    } else {
        lemma_insert_map_items(s.drop_first(), x, f);
        assert(map_items(s, f).drop_first() =~= map_items(s.drop_first(), f));
        assert(map_items(seq![s[0]] + insert_sorted(s.drop_first(), x), f) =~= seq![map_items(s, f)[0]]
            + map_items(insert_sorted(s.drop_first(), x), f));
    }
}

/// Sorting looks only at keys: mapping the items before or after sorting gives the same.
pub proof fn lemma_stable_sort_map_items<T, U>(s: Seq<Keyed<T>>, f: spec_fn(T) -> U)
    ensures
        stable_sort(map_items(s, f)) == map_items(stable_sort(s), f),
    decreases s.len(),
{
    if s.len() > 0 {
        lemma_stable_sort_map_items(s.drop_last(), f);
        assert(map_items(s, f).drop_last() =~= map_items(s.drop_last(), f));
        lemma_insert_map_items(stable_sort(s.drop_last()), s.last(), f);
    }
}

} // verus!

verus! {

proof fn lemma_insert_items_multiset<T>(s: Seq<Keyed<T>>, x: Keyed<T>)
    ensures
        items_of(insert_sorted(s, x)).to_multiset() =~= items_of(s).to_multiset().insert(x.item),
    decreases s.len(),
{
    broadcast use vstd::seq_lib::lemma_multiset_commutative;
    broadcast use vstd::multiset::group_multiset_axioms;

    if s.len() == 0 {
        assert(items_of(seq![x]) =~= Seq::<T>::empty().push(x.item));
        assert(items_of(s) =~= Seq::<T>::empty());
    } else if key_before(x.key, s[0].key) {
        assert(items_of(seq![x] + s) =~= Seq::<T>::empty().push(x.item) + items_of(s));
        assert(Seq::<T>::empty().push(x.item) =~= seq![x.item]);
    } else {
        lemma_insert_items_multiset(s.drop_first(), x);
        assert(items_of(seq![s[0]] + insert_sorted(s.drop_first(), x)) =~= seq![s[0].item] + items_of(
            insert_sorted(s.drop_first(), x),
        ));
        assert(items_of(s) =~= seq![s[0].item] + items_of(s.drop_first()));
        assert(seq![s[0].item] =~= Seq::<T>::empty().push(s[0].item));
    }
}

/// Sorting only reorders the items: the sorted items are exactly the input's items.
pub proof fn lemma_stable_sort_permutes_items<T>(s: Seq<Keyed<T>>)
    ensures
        items_of(stable_sort(s)).to_multiset() =~= items_of(s).to_multiset(),
    decreases s.len(),
{
    broadcast use vstd::multiset::group_multiset_axioms;

    if s.len() > 0 {
        lemma_stable_sort_permutes_items(s.drop_last());
        lemma_insert_items_multiset(stable_sort(s.drop_last()), s.last());
        assert(items_of(s) =~= items_of(s.drop_last()).push(s.last().item));
    }
}

/// Every element of the sorted sequence is an element of the input.
pub proof fn lemma_stable_sort_contains<T>(s: Seq<Keyed<T>>, i: int)
    requires
        0 <= i < stable_sort(s).len(),
    ensures
        s.contains(stable_sort(s)[i]),
{
    lemma_stable_sort_permutes(s);
    assert(stable_sort(s).to_multiset().contains(stable_sort(s)[i]));
}

} // verus!

verus! {

/// Each item of `items` paired with the key at the same position.
pub open spec fn zip_keys<T>(keys: Seq<SortKey>, items: Seq<T>) -> Seq<Keyed<T>> {
    Seq::new(items.len(), |i: int| Keyed { key: keys[i], item: items[i] })
}

/// Sorts `items` by the keys at their positions in `keys`, keeping items with equal keys
/// in the order they came in.
pub fn sort_with_keys<T>(items: Vec<T>, keys: Vec<SortKey>) -> (r: Vec<T>)
    requires
        keys@.len() == items@.len(),
    ensures
        r@ == items_of(stable_sort(zip_keys(keys@, items@))),
{
    let ghost z = zip_keys(keys@, items@);
    let n = items.len();
    let mut rest = items;
    let ghost orig = rest@;
    let mut keyed: Vec<Keyed<T>> = Vec::new();
    let mut k: usize = 0;
    while rest.len() > 0
        invariant
            n == orig.len(),
            keys@.len() == n,
            z == zip_keys(keys@, orig),
            k + rest@.len() == n,
            rest@ == orig.skip(k as int),
            keyed@ == z.take(k as int),
        decreases rest.len(),
    {
        let ghost old_rest = rest@;
        let x = rest.remove(0);
        proof {
            assert(x == orig[k as int]) by {
                assert(old_rest[0] == orig.skip(k as int)[0]);
            }
            assert(rest@ =~= orig.skip(k + 1));
        }
        keyed.push(Keyed { key: keys[k], item: x });
        proof {
            assert(keyed@ =~= z.take(k + 1));
        }
        k = k + 1;
    }
    proof {
        assert(z.take(k as int) =~= z);
    }
    let sorted = sort_by_key(keyed);
    let ghost t = sorted@;
    let mut rest = sorted;
    let mut out: Vec<T> = Vec::new();
    while rest.len() > 0
        invariant
            rest@ == t.skip(out@.len() as int),
            t.len() == out@.len() + rest@.len(),
            out@ == items_of(t).take(out@.len() as int),
        decreases rest.len(),
    {
        let ghost j: int = out@.len() as int;
        let ghost old_rest = rest@;
        let kx = rest.remove(0);
        proof {
            assert(kx == t[j]) by {
                assert(old_rest[0] == t.skip(j)[0]);
            }
            assert(rest@ =~= t.skip(j + 1));
        }
        out.push(kx.item);
        proof {
            assert(out@ =~= items_of(t).take(j + 1));
        }
    }
    proof {
        assert(items_of(t).take(out@.len() as int) =~= items_of(t));
    }
    out
}

} // verus!

verus! {

/// The key that orders by date alone, newest first.
pub open spec fn newest_first_key(date: Timestamp) -> SortKey {
    SortKey { rank: 0, group: Timestamp { secs: 0, nanos: 0 }, date }
}

/// The key that orders by date alone, newest first.
pub fn date_sort_key(date: Timestamp) -> (k: SortKey)
    ensures
        k == newest_first_key(date),
{
    SortKey { rank: 0, group: Timestamp { secs: 0, nanos: 0 }, date }
}

/// One key goes before another by date alone exactly when its date is later.
pub proof fn lemma_newest_first_key_before(a: Timestamp, b: Timestamp)
    ensures
        key_before(newest_first_key(a), newest_first_key(b)) == ts_lt(b, a),
{
}

} // verus!

verus! {

/// The elements of `s` with key `k`.
pub open spec fn with_key<T>(s: Seq<Keyed<T>>, k: SortKey) -> Seq<Keyed<T>> {
    s.filter(|e: Keyed<T>| e.key == k)
}

proof fn lemma_filter_single<T>(y: Keyed<T>, k: SortKey)
    ensures
        with_key(seq![y], k) == if y.key == k { seq![y] } else { Seq::<Keyed<T>>::empty() },
{
    reveal(Seq::filter);
    assert(seq![y].drop_last() =~= Seq::<Keyed<T>>::empty());
    assert(with_key(Seq::<Keyed<T>>::empty(), k) =~= Seq::<Keyed<T>>::empty());
}

proof fn lemma_none_with_key<T>(r: Seq<Keyed<T>>, k: SortKey)
    requires
        forall|i: int| 0 <= i < r.len() ==> #[trigger] r[i].key != k,
    ensures
        with_key(r, k) == Seq::<Keyed<T>>::empty(),
    decreases r.len(),
{
    reveal(Seq::filter);
    if r.len() > 0 {
        lemma_none_with_key(r.drop_last(), k);
    }
}

proof fn lemma_insert_with_key<T>(r: Seq<Keyed<T>>, x: Keyed<T>, k: SortKey)
    requires
        sorted_by_key(r),
    ensures
        with_key(insert_sorted(r, x), k) == if x.key == k {
            with_key(r, k).push(x)
        } else {
            with_key(r, k)
        },
    decreases r.len(),
{
    broadcast use Seq::filter_distributes_over_add;

    lemma_filter_single(x, k);
    if r.len() == 0 {
        assert(with_key(r, k) =~= Seq::<Keyed<T>>::empty()) by {
            reveal(Seq::filter);
        }
        assert(with_key(r, k).push(x) =~= seq![x]);
    } else if key_before(x.key, r[0].key) {
        if x.key == k {
            assert forall|i: int| 0 <= i < r.len() implies #[trigger] r[i].key != k by {
                if i > 0 {
                    assert(!key_before(r[i].key, r[0].key));
                }
            }
            lemma_none_with_key(r, k);
        }
        assert(with_key(seq![x] + r, k) == with_key(seq![x], k) + with_key(r, k));
        assert(Seq::<Keyed<T>>::empty() + with_key(r, k) =~= with_key(r, k));
        assert(seq![x] + Seq::<Keyed<T>>::empty() =~= Seq::<Keyed<T>>::empty().push(x));
    } else {
        let t = r.drop_first();
        assert(sorted_by_key(t)) by {
            assert forall|i: int, j: int| 0 <= i < j < t.len() implies !key_before(#[trigger] t[j].key, #[trigger] t[i].key) by {
                assert(t[i] == r[i + 1] && t[j] == r[j + 1]);
            }
        }
        lemma_insert_with_key(t, x, k);
        lemma_filter_single(r[0], k);
        assert(r =~= seq![r[0]] + t);
        assert(with_key(r, k) == with_key(seq![r[0]], k) + with_key(t, k));
        assert(with_key(seq![r[0]] + insert_sorted(t, x), k) == with_key(seq![r[0]], k) + with_key(insert_sorted(t, x), k));
        if x.key == k {
            assert(with_key(seq![r[0]], k) + with_key(t, k).push(x) =~= (with_key(seq![r[0]], k) + with_key(t, k)).push(x));
        }
    }
}

/// Sorting is stable: the elements that share a key keep their relative order.
pub proof fn lemma_stable_sort_stable<T>(s: Seq<Keyed<T>>, k: SortKey)
    ensures
        with_key(stable_sort(s), k) == with_key(s, k),
    decreases s.len(),
{
    if s.len() > 0 {
        lemma_stable_sort_stable(s.drop_last(), k);
        lemma_stable_sort_sorted(s.drop_last());
        lemma_insert_with_key(stable_sort(s.drop_last()), s.last(), k);
        reveal(Seq::filter);
    } else {
        assert(stable_sort(s) == s);
    }
}

/// Where the key of each element of `r` is `k` exactly when its item meets `pred`, the
/// items of the elements with key `k` are the items that meet `pred`, in order.
pub proof fn lemma_items_with_key<T>(r: Seq<Keyed<T>>, k: SortKey, pred: spec_fn(T) -> bool)
    requires
        forall|i: int| 0 <= i < r.len() ==> (#[trigger] r[i].key == k) == pred(r[i].item),
    ensures
        items_of(with_key(r, k)) == items_of(r).filter(pred),
    decreases r.len(),
{
    reveal(Seq::filter);
    if r.len() == 0 {
        assert(items_of(with_key(r, k)) =~= items_of(r).filter(pred));
    } else {
        let t = r.drop_last();
        lemma_items_with_key(t, k, pred);
        assert(items_of(r).drop_last() =~= items_of(t));
        assert(items_of(r).last() == r.last().item);
        if r.last().key == k {
            assert(items_of(with_key(t, k).push(r.last())) =~= items_of(with_key(t, k)).push(r.last().item));
        }
    }
}

} // verus!
