//! Sorting by a key that is text. What comes first among equals stays first.

use crate::text::{chars_of, views};
use vstd::prelude::*;

verus! {

/// Whether `a` comes before `b` in the order of their characters, compared from
/// the left; a text comes before those that it is the beginning of.
pub open spec fn before(a: Seq<char>, b: Seq<char>) -> bool
    decreases a.len(),
{
    if b.len() == 0 {
        false
    } else if a.len() == 0 {
        true
    } else {
        a[0] < b[0] || a[0] == b[0] && before(a.drop_first(), b.drop_first())
    }
}

/// Whether the text `i` comes before the text `j`, the earlier first among equals.
pub open spec fn goes_first(keys: Seq<Seq<char>>, i: int, j: int) -> bool {
    before(keys[i], keys[j]) || keys[i] == keys[j] && i < j
}

/// Whether `p` lists the places of all `keys` in their order.
pub open spec fn stable_order(keys: Seq<Seq<char>>, p: Seq<int>) -> bool {
    &&& p.len() == keys.len()
    &&& forall|i: int| 0 <= i < p.len() ==> 0 <= #[trigger] p[i] < keys.len()
    &&& forall|k: int| 0 <= k < keys.len() ==> #[trigger] p.contains(k)
    &&& forall|i: int, j: int|
        0 <= i < j < p.len() ==> #[trigger] goes_first(keys, p[i], p[j])
}

/// The elements of `items` at the places that `p` lists.
pub open spec fn arranged<T>(items: Seq<T>, p: Seq<int>) -> Seq<T> {
    Seq::new(p.len(), |i: int| items[p[i]])
}

pub proof fn before_is_strict(a: Seq<char>, b: Seq<char>)
    ensures
        !(before(a, b) && before(b, a)),
        a == b ==> !before(a, b),
        before(a, b) || before(b, a) || a == b,
    decreases a.len(),
{
    if a.len() > 0 && b.len() > 0 {
        before_is_strict(a.drop_first(), b.drop_first());
        if a[0] == b[0] && a.drop_first() == b.drop_first() {
            assert(a =~= seq![a[0]] + a.drop_first());
            assert(b =~= seq![b[0]] + b.drop_first());
        }
    } else if a.len() == 0 && b.len() == 0 {
        assert(a =~= b);
    }
}

pub proof fn before_is_transitive(a: Seq<char>, b: Seq<char>, c: Seq<char>)
    requires
        before(a, b),
        before(b, c),
    ensures
        before(a, c),
    decreases a.len(),
{
    if a.len() > 0 {
        if a[0] == b[0] && b[0] == c[0] {
            before_is_transitive(a.drop_first(), b.drop_first(), c.drop_first());
        }
    }
}

/// There is one order only: two lists of the places of `keys` in their order are
/// the same.
pub proof fn one_stable_order(keys: Seq<Seq<char>>, p: Seq<int>, q: Seq<int>)
    requires
        stable_order(keys, p),
        stable_order(keys, q),
    ensures
        p == q,
{
    if p != q {
        assert(!(p =~= q));
        let d = choose|d: int| 0 <= d < p.len() && p[d] != q[d];
        let i = first_difference(p, q, d);
        assert(q.contains(p[i]));
        let j = choose|j: int| 0 <= j < q.len() && q[j] == p[i];
        assert(p.contains(q[i]));
        let k = choose|k: int| 0 <= k < p.len() && p[k] == q[i];
        before_is_strict(keys[p[i]], keys[p[i]]);
        before_is_strict(keys[q[i]], keys[q[i]]);
        assert(j < i ==> goes_first(keys, p[j], p[i]));
        assert(k < i ==> goes_first(keys, q[k], q[i]));
        assert(j > i && k > i);
        assert(goes_first(keys, q[i], q[j]));
        assert(goes_first(keys, p[i], p[k]));
        before_is_strict(keys[p[i]], keys[q[i]]);
        before_is_strict(keys[q[i]], keys[p[i]]);
    }
}

proof fn first_difference(p: Seq<int>, q: Seq<int>, d: int) -> (i: int)
    requires
        p.len() == q.len(),
        0 <= d < p.len(),
        p[d] != q[d],
    ensures
        0 <= i < p.len(),
        p[i] != q[i],
        forall|j: int| 0 <= j < i ==> p[j] == q[j],
    decreases d,
{
    if forall|j: int| 0 <= j < d ==> p[j] == q[j] {
        d
    } else {
        let e = choose|e: int| 0 <= e < d && p[e] != q[e];
        first_difference(p, q, e)
    }
}

/// Whether `a` comes before `b`.
fn comes_before(a: &str, b: &str) -> (r: bool)
    ensures
        r == before(a@, b@),
{
    let v = chars_of(a);
    let w = chars_of(b);
    let mut i: usize = 0;
    assert(v@.skip(0) =~= v@);
    assert(w@.skip(0) =~= w@);
    while i < v.len() && i < w.len()
        invariant
            i <= v@.len(),
            i <= w@.len(),
            v@ == a@,
            w@ == b@,
            before(a@, b@) == before(v@.skip(i as int), w@.skip(i as int)),
        decreases v@.len() - i,
    {
        if v[i] != w[i] {
            return v[i] < w[i];
        }
        assert(v@.skip(i as int).drop_first() =~= v@.skip(i + 1));
        assert(w@.skip(i as int).drop_first() =~= w@.skip(i + 1));
        i += 1;
    }
    i < w.len()
}

proof fn goes_first_is_transitive(keys: Seq<Seq<char>>, i: int, j: int, k: int)
    requires
        goes_first(keys, i, j),
        goes_first(keys, j, k),
    ensures
        goes_first(keys, i, k),
{
    if before(keys[i], keys[j]) && before(keys[j], keys[k]) {
        before_is_transitive(keys[i], keys[j], keys[k]);
    }
}

/// Whether `p` lists the places of the first `n` of `keys` in their order.
spec fn partial_order(keys: Seq<Seq<char>>, p: Seq<int>, n: int) -> bool {
    &&& p.len() == n
    &&& forall|i: int| 0 <= i < n ==> 0 <= #[trigger] p[i] < n
    &&& forall|k: int| 0 <= k < n ==> #[trigger] p.contains(k)
    &&& forall|i: int, j: int| 0 <= i < j < n ==> #[trigger] goes_first(keys, p[i], p[j])
}

proof fn insert_keeps_order(keys: Seq<Seq<char>>, p: Seq<int>, n: int, at: int)
    requires
        partial_order(keys, p, n),
        0 <= at <= n < keys.len(),
        at > 0 ==> !before(keys[n], keys[p[at - 1]]),
        forall|j: int| at <= j < n ==> before(keys[n], keys[#[trigger] p[j]]),
    ensures
        partial_order(keys, p.insert(at, n), n + 1),
{
    let q = p.insert(at, n);
    assert forall|k: int| 0 <= k < n + 1 implies #[trigger] q.contains(k) by {
        if k == n {
            assert(q[at] == n);
        } else {
            assert(p.contains(k));
            let i = choose|i: int| 0 <= i < n && p[i] == k;
            if i < at {
                assert(q[i] == k);
            } else {
                assert(q[i + 1] == k);
            }
        }
    }
    if at > 0 {
        before_is_strict(keys[n], keys[p[at - 1]]);
        assert(goes_first(keys, p[at - 1], n));
    }
    assert forall|i: int, j: int| 0 <= i < j < n + 1 implies #[trigger] goes_first(
        keys,
        q[i],
        q[j],
    ) by {
        let a = if i <= at {
            i
        } else {
            i - 1
        };
        let b = if j <= at {
            j
        } else {
            j - 1
        };
        if i != at && j != at {
            assert(goes_first(keys, p[a], p[b]));
        } else if j == at {
            if i < at - 1 {
                assert(goes_first(keys, p[i], p[at - 1]));
                goes_first_is_transitive(keys, p[i], p[at - 1], n);
            }
        } else {
            assert(before(keys[n], keys[p[j - 1]]));
        }
    }
}

/// The places in `p` as numbers without bounds.
spec fn places(p: Seq<usize>) -> Seq<int> {
    p.map_values(|i: usize| i as int)
}

/// Sorts `items` by `keys`, of which there is one for each.
pub fn sort_by_keys<T>(items: Vec<T>, keys: &Vec<String>) -> (out: Vec<T>)
    requires
        items@.len() == keys@.len(),
    ensures
        exists|p: Seq<int>|
            #[trigger] stable_order(views(keys@), p) && out@ == arranged(items@, p),
{
    let ghost all = views(keys@);
    let ghost given = items@;
    let mut out: Vec<T> = Vec::new();
    let mut order: Vec<usize> = Vec::new();
    let mut n: usize = 0;
    let total: usize = keys.len();
    assert(arranged(given, places(order@)) =~= out@);
    for item in it: items.into_iter()
        invariant
            all == views(keys@),
            it.seq() == given,
            given.len() == keys@.len() == total,
            n == it.index(),
            partial_order(all, places(order@), n as int),
            out@ == arranged(given, places(order@)),
            order@.len() == n,
    {
        let ghost p = places(order@);
        assert forall|i: int| 0 <= i < n implies 0 <= #[trigger] order@[i] < n by {
            assert(p[i] == order@[i]);
        }
        let mut at: usize = n;
        while at > 0 && comes_before(keys[n].as_str(), keys[order[at - 1]].as_str())
            invariant
                at <= n < keys@.len(),
                order@.len() == n,
                p == places(order@),
                all == views(keys@),
                forall|i: int| 0 <= i < n ==> 0 <= #[trigger] order@[i] < n,
                forall|j: int| at <= j < n ==> before(all[n as int], all[#[trigger] p[j]]),
            decreases at,
        {
            assert(all[n as int] == keys@[n as int]@);
            assert(p[at - 1] == order@[at - 1]);
            assert(all[p[at - 1]] == keys@[order@[at - 1] as int]@);
            at -= 1;
        }
        proof {
            assert(all[n as int] == keys@[n as int]@);
            if at > 0 {
                assert(p[at - 1] == order@[at - 1]);
                assert(all[p[at - 1]] == keys@[order@[at - 1] as int]@);
            }
            insert_keeps_order(all, p, n as int, at as int);
            assert(places(order@.insert(at as int, n)) =~= p.insert(at as int, n as int));
            assert(out@.insert(at as int, item) =~= arranged(given, p.insert(at as int, n as int)));
        }
        out.insert(at, item);
        order.insert(at, n);
        n += 1;
    }
    proof {
        assert(stable_order(all, places(order@)));
    }
    out
}

// ---------------------------------------------------------------------------
// Laws
// ---------------------------------------------------------------------------

/// Texts are ordered by the first character in which they differ, and a text comes
/// before those that go on where it ends.
pub proof fn the_first_difference_decides(p: Seq<char>, x: char, a: Seq<char>, y: char, b: Seq<char>)
    requires
        x < y,
    ensures
        before(p + seq![x] + a, p + seq![y] + b),
        before(p, p + seq![x] + a),
    decreases p.len(),
{
    if p.len() > 0 {
        let q = p.drop_first();
        the_first_difference_decides(q, x, a, y, b);
        assert((p + seq![x] + a).drop_first() =~= q + seq![x] + a);
        assert((p + seq![y] + b).drop_first() =~= q + seq![y] + b);
        assert((p + seq![x] + a)[0] == p[0] && (p + seq![y] + b)[0] == p[0]);
    } else {
        assert((p + seq![x] + a)[0] == x && (p + seq![y] + b)[0] == y);
    }
}

/// Sorting loses nothing and doubles nothing: each item stands at just one place of the
/// sorted list. The keys never go down along it, and items with equal keys stay in
/// their order.
pub proof fn sorting_keeps_every_item<T>(items: Seq<T>, keys: Seq<Seq<char>>, p: Seq<int>, k: int)
    requires
        stable_order(keys, p),
        items.len() == keys.len(),
        0 <= k < items.len(),
    ensures
        arranged(items, p).len() == items.len(),
        exists|i: int| 0 <= i < p.len() && #[trigger] p[i] == k && arranged(items, p)[i] == items[k],
        forall|i: int, j: int| 0 <= i < p.len() && 0 <= j < p.len() && #[trigger] p[i] == #[trigger] p[j]
            ==> i == j,
        forall|i: int, j: int|
            0 <= i < j < p.len() ==> !before(keys[#[trigger] p[j]], keys[#[trigger] p[i]]),
        forall|i: int, j: int|
            0 <= i < j < p.len() && keys[#[trigger] p[i]] == keys[#[trigger] p[j]] ==> p[i] < p[j],
{
    assert(p.contains(k));
    let i = choose|i: int| 0 <= i < p.len() && p[i] == k;
    assert(arranged(items, p)[i] == items[k]);
    assert forall|i: int, j: int| 0 <= i < j < p.len() implies !before(
        keys[#[trigger] p[j]],
        keys[#[trigger] p[i]],
    ) && p[i] != p[j] && (keys[p[i]] == keys[p[j]] ==> p[i] < p[j]) by {
        assert(goes_first(keys, p[i], p[j]));
        before_is_strict(keys[p[i]], keys[p[j]]);
    }
}

} // verus!
