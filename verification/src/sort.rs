//! Stable ordering by integer keys.

use vstd::prelude::*;

verus! {

/// Whether position `a` comes before position `b`: by key, and among equal keys by position.
pub open spec fn comes_before(keys: Seq<i128>, a: int, b: int) -> bool {
    keys[a] < keys[b] || (keys[a] == keys[b] && a < b)
}

/// Whether `order` lists positions of `keys` one after the other as `comes_before` says.
pub open spec fn ordered(keys: Seq<i128>, order: Seq<usize>) -> bool {
    forall|i: int, j: int|
        0 <= i < j < order.len() ==> comes_before(
            keys,
            (#[trigger] order[i]) as int,
            (#[trigger] order[j]) as int,
        )
}

/// Whether `order` is the stable order of `keys`: every position once, by key, and among
/// equal keys by position.
pub open spec fn is_stable_order(keys: Seq<i128>, order: Seq<usize>) -> bool {
    &&& order.len() == keys.len()
    &&& forall|i: int| 0 <= i < order.len() ==> (#[trigger] order[i]) < keys.len()
    &&& ordered(keys, order)
}

fn before(keys: &Vec<i128>, a: usize, b: usize) -> (r: bool)
    requires
        a < keys.len(),
        b < keys.len(),
    ensures
        r == comes_before(keys@, a as int, b as int),
{
    keys[a] < keys[b] || (keys[a] == keys[b] && a < b)
}

fn merge_orders(keys: &Vec<i128>, a: &Vec<usize>, b: &Vec<usize>, lo: usize, mid: usize, hi: usize)
    -> (out: Vec<usize>)
    requires
        lo <= mid <= hi <= keys.len(),
        ordered(keys@, a@),
        ordered(keys@, b@),
        a@.len() == mid - lo,
        b@.len() == hi - mid,
        forall|i: int| 0 <= i < a@.len() ==> lo <= #[trigger] a@[i] < mid,
        forall|i: int| 0 <= i < b@.len() ==> mid <= #[trigger] b@[i] < hi,
    ensures
        ordered(keys@, out@),
        out@.len() == hi - lo,
        forall|i: int| 0 <= i < out@.len() ==> lo <= #[trigger] out@[i] < hi,
{
    let mut out: Vec<usize> = Vec::new();
    let mut i: usize = 0;
    let mut j: usize = 0;
    while i < a.len() || j < b.len()
        invariant
            lo <= mid <= hi <= keys.len(),
            i <= a.len(),
            j <= b.len(),
            a@.len() == mid - lo,
            b@.len() == hi - mid,
            out@.len() == i + j,
            ordered(keys@, a@),
            ordered(keys@, b@),
            ordered(keys@, out@),
            forall|k: int| 0 <= k < a@.len() ==> lo <= #[trigger] a@[k] < mid,
            forall|k: int| 0 <= k < b@.len() ==> mid <= #[trigger] b@[k] < hi,
            forall|k: int| 0 <= k < out@.len() ==> lo <= #[trigger] out@[k] < hi,
            forall|k: int, m: int|
                0 <= k < out@.len() && i <= m < a@.len() ==> comes_before(
                    keys@,
                    (#[trigger] out@[k]) as int,
                    (#[trigger] a@[m]) as int,
                ),
            forall|k: int, m: int|
                0 <= k < out@.len() && j <= m < b@.len() ==> comes_before(
                    keys@,
                    (#[trigger] out@[k]) as int,
                    (#[trigger] b@[m]) as int,
                ),
        decreases a.len() - i + (b.len() - j),
    {
        let take_a = j == b.len() || (i < a.len() && before(keys, a[i], b[j]));
        if take_a {
            proof {
                if j < b.len() {
                    assert forall|m: int| j <= m < b@.len() implies comes_before(
                        keys@,
                        a@[i as int] as int,
                        (#[trigger] b@[m]) as int,
                    ) by {
                        if m > j {
                            assert(comes_before(keys@, b@[j as int] as int, b@[m] as int));
                        }
                    }
                }
            }
            out.push(a[i]);
            i = i + 1;
        } else {
            proof {
                if i < a.len() {
                    assert(a@[i as int] < mid <= b@[j as int]);
                    assert forall|m: int| i <= m < a@.len() implies comes_before(
                        keys@,
                        b@[j as int] as int,
                        (#[trigger] a@[m]) as int,
                    ) by {
                        if m > i {
                            assert(comes_before(keys@, a@[i as int] as int, a@[m] as int));
                        }
                    }
                }
            }
            out.push(b[j]);
            j = j + 1;
        }
    }
    out
}

fn order_range(keys: &Vec<i128>, lo: usize, hi: usize) -> (order: Vec<usize>)
    requires
        lo <= hi <= keys.len(),
    ensures
        ordered(keys@, order@),
        order@.len() == hi - lo,
        forall|i: int| 0 <= i < order@.len() ==> lo <= #[trigger] order@[i] < hi,
    decreases hi - lo,
{
    if hi - lo == 0 {
        return Vec::new();
    }
    if hi - lo == 1 {
        let mut one: Vec<usize> = Vec::new();
        one.push(lo);
        return one;
    }
    let mid: usize = lo + (hi - lo) / 2;
    let a = order_range(keys, lo, mid);
    let b = order_range(keys, mid, hi);
    merge_orders(keys, &a, &b, lo, mid, hi)
}

/// The stable order of a list of keys, smallest first.
pub fn stable_order(keys: &Vec<i128>) -> (order: Vec<usize>)
    ensures
        is_stable_order(keys@, order@),
{
    order_range(keys, 0, keys.len())
}

/// Every position stands in the stable order, and in one place only.
pub proof fn law_stable_order_is_permutation(keys: Seq<i128>, order: Seq<usize>, p: usize)
    requires
        is_stable_order(keys, order),
        keys.len() <= usize::MAX,
        p < keys.len(),
    ensures
        order.contains(p),
        forall|i: int, j: int|
            0 <= i < order.len() && 0 <= j < order.len() && #[trigger] order[i]
                == #[trigger] order[j] ==> i == j,
{
    let n = keys.len();
    assert forall|i: int, j: int|
        0 <= i < order.len() && 0 <= j < order.len() && #[trigger] order[i]
            == #[trigger] order[j] implies i == j by {
        if i < j {
            assert(comes_before(keys, order[i] as int, order[j] as int));
        } else if j < i {
            assert(comes_before(keys, order[j] as int, order[i] as int));
        }
    }
    assert(order.no_duplicates());
    order.unique_seq_to_set();
    let s = order.to_set();
    let all = Set::new(|k: usize| k < n);
    lemma_positions_below(n);
    assert(s.subset_of(all)) by {
        assert forall|k: usize| s.contains(k) implies all.contains(k) by {
            let i = choose|i: int| 0 <= i < order.len() && order[i] == k;
            assert(order[i] < keys.len());
        }
    }
    vstd::set_lib::lemma_subset_equality(s, all);
    assert(all.contains(p));
    assert(s.contains(p));
}

proof fn lemma_positions_below(n: nat)
    requires
        n <= usize::MAX + 1,
    ensures
        Set::new(|k: usize| k < n).finite(),
        Set::new(|k: usize| k < n).len() == n,
    decreases n,
{
    let all = Set::new(|k: usize| k < n);
    if n == 0 {
        assert(all =~= Set::empty());
    } else {
        let m = (n - 1) as nat;
        lemma_positions_below(m);
        let fewer = Set::new(|k: usize| k < m);
        assert(all =~= fewer.insert(m as usize));
        assert(!fewer.contains(m as usize));
    }
}

/// The stable order of a list of keys is the only one.
pub proof fn law_stable_order_is_unique(keys: Seq<i128>, a: Seq<usize>, b: Seq<usize>)
    requires
        is_stable_order(keys, a),
        is_stable_order(keys, b),
        keys.len() <= usize::MAX,
    ensures
        a == b,
{
    assert forall|k: int| 0 <= k <= a.len() implies #[trigger] a.take(k) == b.take(k) by {
        lemma_prefixes_agree(keys, a, b, k);
    }
    assert(a.take(a.len() as int) =~= a);
    assert(b.take(a.len() as int) =~= b);
}

proof fn lemma_prefixes_agree(keys: Seq<i128>, a: Seq<usize>, b: Seq<usize>, k: int)
    requires
        is_stable_order(keys, a),
        is_stable_order(keys, b),
        0 <= k <= a.len(),
        keys.len() <= usize::MAX,
    ensures
        a.take(k) == b.take(k),
    decreases k,
{
    if k > 0 {
        lemma_prefixes_agree(keys, a, b, k - 1);
        let i = k - 1;
        if a[i] != b[i] {
            law_stable_order_is_permutation(keys, b, a[i]);
            law_stable_order_is_permutation(keys, a, b[i]);
            let jb = choose|j: int| 0 <= j < b.len() && b[j] == a[i];
            let ja = choose|j: int| 0 <= j < a.len() && a[j] == b[i];
            if jb < i {
                assert(a.take(i)[jb] == b.take(i)[jb]);
                assert(a[jb] == a[i]);
                assert(comes_before(keys, a[jb] as int, a[i] as int));
            }
            if ja < i {
                assert(a.take(i)[ja] == b.take(i)[ja]);
                assert(b[ja] == b[i]);
                assert(comes_before(keys, b[ja] as int, b[i] as int));
            }
            assert(comes_before(keys, b[i] as int, b[jb] as int));
            assert(comes_before(keys, a[i] as int, a[ja] as int));
            assert(false);
        }
        assert(a.take(k) =~= a.take(i).push(a[i]));
        assert(b.take(k) =~= b.take(i).push(b[i]));
    } else {
        assert(a.take(0) =~= b.take(0));
    }
}

/// In a stable order no key comes before a smaller one, and of equal keys the one that stood
/// first comes first.
pub proof fn law_stable_order(keys: Seq<i128>, order: Seq<usize>, i: int, j: int)
    requires
        is_stable_order(keys, order),
        0 <= i < j < order.len(),
    ensures
        keys[order[i] as int] <= keys[order[j] as int],
        keys[order[i] as int] == keys[order[j] as int] ==> order[i] < order[j],
{
    assert(comes_before(keys, order[i] as int, order[j] as int));
}

} // verus!
