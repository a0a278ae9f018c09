//! Stable sorting by an integer rank, the smallest rank first.
//!
//! The sorted sequence is defined by insertion: each element goes behind all
//! earlier elements of the same or a smaller rank, so elements of equal rank
//! keep the order in which they came.

use vstd::prelude::*;

verus! {

/// Whether the ranks of `s` never fall from one element to the next.
pub open spec fn ordered<T>(s: Seq<T>, rank: spec_fn(T) -> int) -> bool {
    forall|i: int, j: int| 0 <= i < j < s.len() ==> rank(s[i]) <= rank(s[j])
}

/// The index of the first element of `s` whose rank is above `r`, or the
/// length of `s` where there is none.
pub open spec fn slot<T>(s: Seq<T>, rank: spec_fn(T) -> int, r: int) -> int
    decreases s.len(),
{
    if s.len() == 0 || rank(s[0]) > r {
        0
    } else {
        1 + slot(s.skip(1), rank, r)
    }
}

/// `s` sorted by rank, elements of equal rank in the order of `s`.
pub open spec fn stable_sorted<T>(s: Seq<T>, rank: spec_fn(T) -> int) -> Seq<T>
    decreases s.len(),
{
    if s.len() == 0 {
        s
    } else {
        let rest = stable_sorted(s.drop_last(), rank);
        rest.insert(slot(rest, rank, rank(s.last())), s.last())
    }
}

/// Whether the element at `i` shares its rank with no other element of `s`.
pub open spec fn rank_is_unique<T>(s: Seq<T>, rank: spec_fn(T) -> int, i: int) -> bool {
    forall|j: int| 0 <= j < s.len() && j != i ==> rank(#[trigger] s[j]) != rank(s[i])
}

/// No element before the slot of `r` has a rank above `r`, and the element
/// at the slot has, where there is one.
pub proof fn lemma_slot<T>(s: Seq<T>, rank: spec_fn(T) -> int, r: int)
    ensures
        0 <= slot(s, rank, r) <= s.len(),
        forall|k: int| 0 <= k < slot(s, rank, r) ==> rank(#[trigger] s[k]) <= r,
        slot(s, rank, r) < s.len() ==> rank(s[slot(s, rank, r)]) > r,
    decreases s.len(),
{
    if s.len() == 0 || rank(s[0]) > r {
    } else {
        lemma_slot(s.skip(1), rank, r);
        assert forall|k: int| 0 <= k < slot(s, rank, r) implies rank(#[trigger] s[k]) <= r by {
            if k > 0 {
                assert(s[k] == s.skip(1)[k - 1]);
            }
        }
        if slot(s, rank, r) < s.len() {
            assert(s[slot(s, rank, r)] == s.skip(1)[slot(s.skip(1), rank, r)]);
        }
    }
}

/// Where no element before `n` has a rank above `r` and the one at `n` has
/// (or `s` ends there), `n` is the slot of `r`.
pub proof fn lemma_slot_is<T>(s: Seq<T>, rank: spec_fn(T) -> int, r: int, n: int)
    requires
        0 <= n <= s.len(),
        forall|k: int| 0 <= k < n ==> rank(#[trigger] s[k]) <= r,
        n < s.len() ==> rank(s[n]) > r,
    ensures
        slot(s, rank, r) == n,
    decreases s.len(),
{
    if s.len() == 0 || rank(s[0]) > r {
        if n > 0 {
            assert(rank(s[0]) <= r);
        }
    } else {
        assert forall|k: int| 0 <= k < n - 1 implies rank(#[trigger] s.skip(1)[k]) <= r by {
            assert(s.skip(1)[k] == s[k + 1]);
        }
        if n < s.len() {
            assert(s.skip(1)[n - 1] == s[n]);
        }
        lemma_slot_is(s.skip(1), rank, r, n - 1);
    }
}

/// The sorted sequence is ordered and holds the same elements as often.
pub proof fn lemma_stable_sorted<T>(s: Seq<T>, rank: spec_fn(T) -> int)
    ensures
        ordered(stable_sorted(s, rank), rank),
        stable_sorted(s, rank).len() == s.len(),
        stable_sorted(s, rank).to_multiset() == s.to_multiset(),
    decreases s.len(),
{
    if s.len() == 0 {
    } else {
        let rest = stable_sorted(s.drop_last(), rank);
        let x = s.last();
        let p = slot(rest, rank, rank(x));
        lemma_stable_sorted(s.drop_last(), rank);
        lemma_slot(rest, rank, rank(x));
        let out = rest.insert(p, x);
        assert forall|i: int, j: int| 0 <= i < j < out.len() implies rank(out[i]) <= rank(
            out[j],
        ) by {
            if j < p {
                assert(out[i] == rest[i] && out[j] == rest[j]);
            } else if j == p {
                assert(out[i] == rest[i]);
            } else if i < p {
                assert(out[i] == rest[i] && out[j] == rest[j - 1]);
                if p < rest.len() {
                    assert(rank(rest[i]) <= rank(x));
                    assert(p <= j - 1);
                }
            } else if i == p {
                assert(out[j] == rest[j - 1]);
                assert(rank(rest[p]) > rank(x));
                assert(p <= j - 1);
            } else {
                assert(out[i] == rest[i - 1] && out[j] == rest[j - 1]);
            }
        }
        vstd::seq_lib::to_multiset_insert(rest, p, x);
        vstd::seq_lib::to_multiset_build(s.drop_last(), x);
        assert(s.drop_last().push(x) =~= s);
    }
}

/// Two ordered sequences of the same elements begin alike as far as the
/// ranks of the first are unique: where each of the first `k` elements of
/// `x` shares its rank with no other element, the first `k` elements of `y`
/// are the same.
pub proof fn lemma_unique_ranks_fix_order<T>(
    x: Seq<T>,
    y: Seq<T>,
    rank: spec_fn(T) -> int,
    k: int,
)
    requires
        ordered(x, rank),
        ordered(y, rank),
        x.to_multiset() == y.to_multiset(),
        0 <= k <= x.len(),
        forall|i: int| 0 <= i < k ==> rank_is_unique(x, rank, i),
    ensures
        x.len() == y.len(),
        x.take(k) == y.take(k),
    decreases k,
{
    broadcast use vstd::multiset::group_multiset_axioms;
    broadcast use vstd::seq_lib::group_to_multiset_ensures;

    vstd::seq_lib::to_multiset_len(x);
    vstd::seq_lib::to_multiset_len(y);
    if k == 0 {
        assert(x.take(0) =~= y.take(0));
    } else {
        assert(x.to_multiset().contains(x[0]));
        assert(y.to_multiset().contains(x[0]));
        assert(y.contains(x[0]));
        let a = choose|a: int| 0 <= a < y.len() && y[a] == x[0];
        assert(y.to_multiset().contains(y[0]));
        assert(x.contains(y[0]));
        let b = choose|b: int| 0 <= b < x.len() && x[b] == y[0];
        assert(rank(y[0]) <= rank(y[a]));
        assert(rank(x[0]) <= rank(x[b]));
        assert(rank_is_unique(x, rank, 0));
        if b != 0 {
            assert(rank(x[b]) != rank(x[0]));
        }
        assert(x[0] == y[0]);
        let xs = x.drop_first();
        let ys = y.drop_first();
        vstd::seq_lib::to_multiset_remove(x, 0);
        vstd::seq_lib::to_multiset_remove(y, 0);
        assert(x.remove(0) =~= xs);
        assert(y.remove(0) =~= ys);
        assert(xs.to_multiset() == ys.to_multiset());
        assert(ordered(xs, rank)) by {
            assert forall|i: int, j: int| 0 <= i < j < xs.len() implies rank(xs[i]) <= rank(
                xs[j],
            ) by {
                assert(xs[i] == x[i + 1] && xs[j] == x[j + 1]);
            }
        }
        assert(ordered(ys, rank)) by {
            assert forall|i: int, j: int| 0 <= i < j < ys.len() implies rank(ys[i]) <= rank(
                ys[j],
            ) by {
                assert(ys[i] == y[i + 1] && ys[j] == y[j + 1]);
            }
        }
        assert forall|i: int| 0 <= i < k - 1 implies rank_is_unique(xs, rank, i) by {
            assert(rank_is_unique(x, rank, i + 1));
            assert forall|j: int| 0 <= j < xs.len() && j != i implies rank(#[trigger] xs[j])
                != rank(xs[i]) by {
                assert(xs[j] == x[j + 1]);
                assert(xs[i] == x[i + 1]);
            }
        }
        lemma_unique_ranks_fix_order(xs, ys, rank, k - 1);
        assert(x.take(k) =~= y.take(k)) by {
            assert forall|i: int| 0 <= i < k implies x.take(k)[i] == y.take(k)[i] by {
                if i > 0 {
                    assert(xs.take(k - 1)[i - 1] == xs[i - 1]);
                    assert(ys.take(k - 1)[i - 1] == ys[i - 1]);
                    assert(xs[i - 1] == x[i]);
                    assert(ys[i - 1] == y[i]);
                }
            }
        }
    }
}

/// Sorting ignores the order in which the elements came, as far as ranks
/// are unique: two sequences of the same elements sort to sequences that
/// begin with the same `k` elements, where each of the first `k` sorted
/// elements shares its rank with no other element.
pub proof fn lemma_sorting_ignores_order<T>(
    a: Seq<T>,
    b: Seq<T>,
    rank: spec_fn(T) -> int,
    k: int,
)
    requires
        a.to_multiset() == b.to_multiset(),
        0 <= k <= a.len(),
        forall|i: int| 0 <= i < k ==> rank_is_unique(stable_sorted(a, rank), rank, i),
    ensures
        a.len() == b.len(),
        stable_sorted(a, rank).take(k) == stable_sorted(b, rank).take(k),
{
    lemma_stable_sorted(a, rank);
    lemma_stable_sorted(b, rank);
    lemma_unique_ranks_fix_order(stable_sorted(a, rank), stable_sorted(b, rank), rank, k);
}

/// Sorts `v` by the ranks in `ranks`, which holds the rank of each element
/// of `v` at the element's index.
pub(crate) fn sort_by_ranks<T>(v: Vec<T>, ranks: Vec<i128>, Ghost(rank): Ghost<spec_fn(T) -> int>) -> (r:
    Vec<T>)
    requires
        ranks@.len() == v@.len(),
        forall|i: int| 0 <= i < v@.len() ==> ranks@[i] == rank(#[trigger] v@[i]),
    ensures
        r@ == stable_sorted(v@, rank),
{
    let ghost orig = v@;
    let mut v = v;
    let mut ranks = ranks;
    let n = v.len();
    let mut i: usize = 0;
    assert(orig.take(0) =~= stable_sorted(orig.take(0), rank));
    assert(orig.skip(0) =~= orig);
    while i < n
        invariant
            i <= n,
            v@.len() == n,
            ranks@.len() == n,
            orig.len() == n,
            forall|k: int| 0 <= k < n ==> ranks@[k] == rank(#[trigger] v@[k]),
            v@.take(i as int) == stable_sorted(orig.take(i as int), rank),
            v@.skip(i as int) == orig.skip(i as int),
        decreases n - i,
    {
        let ghost before = v@;
        let ghost ranks_before = ranks@;
        let ghost prefix = v@.take(i as int);
        assert(before[i as int] == orig[i as int]) by {
            assert(v@.skip(i as int)[0] == orig.skip(i as int)[0]);
        }
        let x = v.remove(i);
        let rx = ranks.remove(i);
        let ghost mid = v@;
        let ghost ranks_mid = ranks@;
        assert(rx == rank(x));
        assert forall|k: int| 0 <= k < n - 1 implies ranks_mid[k] == rank(#[trigger] mid[k]) by {
            if k < i {
                assert(mid[k] == before[k]);
            } else {
                assert(mid[k] == before[k + 1]);
            }
        }
        let mut j: usize = 0;
        while j < i && ranks[j] <= rx
            invariant
                j <= i,
                i < n,
                ranks@ == ranks_mid,
                ranks_mid.len() == n - 1,
                mid.len() == n - 1,
                forall|k: int| 0 <= k < n - 1 ==> ranks_mid[k] == rank(#[trigger] mid[k]),
                forall|k: int| 0 <= k < j ==> rank(#[trigger] mid[k]) <= rx,
            decreases i - j,
        {
            j += 1;
        }
        proof {
            assert(mid.take(i as int) =~= prefix);
            assert forall|k: int| 0 <= k < j implies rank(#[trigger] prefix[k]) <= rx by {
                assert(prefix[k] == mid[k]);
            }
            if j < i {
                assert(prefix[j as int] == mid[j as int]);
            }
            lemma_slot_is(prefix, rank, rx as int, j as int);
        }
        v.insert(j, x);
        ranks.insert(j, rx);
        proof {
            assert forall|k: int| 0 <= k < n implies ranks@[k] == rank(#[trigger] v@[k]) by {
                if k < j {
                    assert(v@[k] == mid[k]);
                } else if k == j {
                } else {
                    assert(v@[k] == mid[k - 1]);
                }
            }
            assert(v@.take(i + 1) =~= prefix.insert(j as int, x));
            assert(orig.take(i + 1).drop_last() =~= orig.take(i as int));
            assert(orig.take(i + 1).last() == x);
            assert(v@.skip(i + 1) =~= orig.skip(i + 1)) by {
                let got = v@.skip(i + 1);
                let want = orig.skip(i + 1);
                assert forall|k: int| 0 <= k < n - i - 1 implies #[trigger] got[k] == want[k] by {
                    assert(v@[k + i + 1] == mid[k + i]);
                    assert(mid[k + i] == before[k + i + 1]);
                    assert(before.skip(i as int)[k + 1] == orig.skip(i as int)[k + 1]);
                }
            }
        }
        i += 1;
    }
    assert(v@.take(n as int) =~= v@);
    assert(orig.take(n as int) =~= orig);
    v
}

} // verus!
