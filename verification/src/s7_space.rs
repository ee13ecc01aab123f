//! The S7 permutation space: all 7! = 5040 orderings of the slot indices
//! `0..7`, enumerated by the swap-and-recurse method.

use vstd::prelude::*;
use crate::permutation::swap_entries;

verus! {

/// Every arrangement written by `permute_from` keeps the first `start`
/// entries of `arr` and places some entry of `arr[start..i]` at `start`.
pub open spec fn fixed_prefix(out: Seq<usize>, arr: Seq<usize>, start: int) -> bool {
    &&& out.len() == arr.len()
    &&& out.subrange(0, start) == arr.subrange(0, start)
    &&& crate::permutation::is_arrangement(out, arr)
}

/// Index lists as sequences.
pub open spec fn index_lists(v: Seq<Vec<usize>>) -> Seq<Seq<usize>> {
    v.map_values(|p: Vec<usize>| p@)
}

/// The arrangements of `arr` keeping `arr[..start]`, in the order they are
/// written: for each position `i` from `start` on, those of `arr` with
/// entries `start` and `i` exchanged and the first `start + 1` kept.
pub open spec fn permute_seq(arr: Seq<usize>, start: int) -> Seq<Seq<usize>>
    decreases arr.len() - start, arr.len() + 1 - start,
{
    if start >= arr.len() || start < 0 {
        seq![arr]
    } else {
        permute_rounds(arr, start, arr.len() as int)
    }
}

/// The arrangements written by the rounds `start..i` (see `permute_seq`).
pub open spec fn permute_rounds(arr: Seq<usize>, start: int, i: int) -> Seq<Seq<usize>>
    decreases arr.len() - start, i - start,
{
    if i <= start || start < 0 || start >= arr.len() || i > arr.len() {
        Seq::empty()
    } else {
        permute_rounds(arr, start, i - 1) + permute_seq(crate::permutation::swapped(arr, start, i - 1), start + 1)
    }
}

/// The S7 space in the order `generate_s7_permutations` lists it.
pub open spec fn s7_sequence() -> Seq<Seq<usize>> {
    permute_seq(seq![0usize, 1, 2, 3, 4, 5, 6], 0)
}

/// Appends to `result` every arrangement of `arr` that keeps `arr[..start]`
/// in place; `arr` is restored on return.
fn permute_from(arr: &mut Vec<usize>, start: usize, result: &mut Vec<Vec<usize>>)
    requires
        start <= old(arr).len(),
        old(arr)@.no_duplicates(),
    ensures
        final(arr)@ == old(arr)@,
        final(result)@.len() == old(result)@.len() + crate::permutation::factorial((old(arr)@.len() - start) as nat),
        forall|k: int| 0 <= k < old(result)@.len() ==> #[trigger] final(result)@[k] == old(result)@[k],
        forall|k: int|
            old(result)@.len() <= k < final(result)@.len() ==> fixed_prefix(
                #[trigger] final(result)@[k]@,
                old(arr)@,
                start as int,
            ),
        forall|a: int, b: int|
            old(result)@.len() <= a < final(result)@.len() && old(result)@.len() <= b
                < final(result)@.len() && a != b ==> #[trigger] final(result)@[a]@
                != #[trigger] final(result)@[b]@,
        final(result)@[old(result)@.len() as int]@ == old(arr)@,
        index_lists(final(result)@) == index_lists(old(result)@) + permute_seq(old(arr)@, start as int),
    decreases old(arr)@.len() - start,
{
    let ghost a0 = arr@;
    let ghost r0 = result@;
    let n = arr.len();
    if start == n {
        let copy = arr.clone();
        assert(copy@ =~= arr@);
        result.push(copy);
        proof {
            assert(index_lists(result@) =~= index_lists(r0) + permute_seq(a0, start as int));
            crate::permutation::lemma_arrangement_refl(a0);
            assert(crate::permutation::factorial(0) == 1);
        }
        return;
    }
    let ghost f = crate::permutation::factorial((n - start - 1) as nat);
    proof {
        crate::permutation::lemma_factorial_positive((n - start - 1) as nat);
    }
    let mut i = start;
    while i < n
        invariant
            start < n == a0.len(),
            start <= i <= n,
            arr@ == a0,
            old(arr)@ == a0,
            a0.no_duplicates(),
            f == crate::permutation::factorial((n - start - 1) as nat),
            f >= 1,
            result@.len() == r0.len() + (i - start) * f,
            forall|k: int| 0 <= k < r0.len() ==> #[trigger] result@[k] == r0[k],
            forall|k: int|
                r0.len() <= k < result@.len() ==> fixed_prefix(#[trigger] result@[k]@, a0, start as int),
            forall|k: int|
                r0.len() <= k < result@.len() ==> exists|b: int|
                    start <= b < i && #[trigger] result@[k]@[start as int] == a0[b],
            forall|x: int, y: int|
                r0.len() <= x < result@.len() && r0.len() <= y < result@.len() && x != y
                    ==> #[trigger] result@[x]@ != #[trigger] result@[y]@,
            i > start ==> result@[r0.len() as int]@ == a0,
            index_lists(result@) == index_lists(r0) + permute_rounds(a0, start as int, i as int),
        decreases n - i,
    {
        let ghost before = result@;
        swap_entries(arr, start, i);
        let ghost swapped_arr = arr@;
        proof {
            crate::permutation::lemma_swap_arrangement(a0, start as int, i as int);
        }
        assert(arr@.len() == n);
        permute_from(arr, start + 1, result);
        swap_entries(arr, start, i);
        proof {
            assert(swapped_arr == crate::permutation::swapped(a0, start as int, i as int));
            assert(index_lists(result@) =~= index_lists(r0) + permute_rounds(a0, start as int, i + 1));
            assert(arr@ =~= a0);
            let lo = before.len() as int;
            let hi = result@.len() as int;
            assert(hi == lo + f);
            assert(result@.len() == r0.len() + (i + 1 - start) * f) by (nonlinear_arith)
                requires
                    hi == lo + f,
                    lo == r0.len() + (i - start) * f,
                    hi == result@.len(),
            ;
            assert forall|k: int| lo <= k < hi implies fixed_prefix(#[trigger] result@[k]@, a0, start as int)
                && result@[k]@[start as int] == a0[i as int] by {
                let o = result@[k]@;
                assert(o.subrange(0, start + 1) == swapped_arr.subrange(0, start + 1));
                assert(o.subrange(0, start as int) =~= a0.subrange(0, start as int)) by {
                    assert forall|t: int| 0 <= t < start implies o[t] == a0[t] by {
                        assert(o.subrange(0, start + 1)[t] == swapped_arr.subrange(0, start + 1)[t]);
                    }
                }
                assert(o.subrange(0, start + 1)[start as int] == swapped_arr.subrange(0, start + 1)[start as int]);
                crate::permutation::lemma_arrangement_trans(o, swapped_arr, a0);
            }
            assert forall|k: int| r0.len() <= k < hi implies exists|b: int|
                start <= b < i + 1 && #[trigger] result@[k]@[start as int] == a0[b] by {
                if k >= lo {
                    assert(result@[k]@[start as int] == a0[i as int]);
                } else {
                    assert(result@[k] == before[k]);
                }
            }
            assert forall|x: int, y: int|
                r0.len() <= x < hi && r0.len() <= y < hi && x != y implies #[trigger] result@[x]@
                != #[trigger] result@[y]@ by {
                if x >= lo && y >= lo {
                } else if x < lo && y < lo {
                    assert(result@[x] == before[x]);
                    assert(result@[y] == before[y]);
                } else if x < lo {
                    assert(result@[x] == before[x]);
                    let b = choose|b: int| start <= b < i && #[trigger] before[x]@[start as int] == a0[b];
                    assert(result@[y]@[start as int] == a0[i as int]);
                    assert(a0[b] != a0[i as int]);
                } else {
                    assert(result@[y] == before[y]);
                    let b = choose|b: int| start <= b < i && #[trigger] before[y]@[start as int] == a0[b];
                    assert(result@[x]@[start as int] == a0[i as int]);
                    assert(a0[b] != a0[i as int]);
                }
            }
            if i == start {
                assert(swapped_arr =~= a0);
            } else {
                assert(lo > r0.len()) by (nonlinear_arith)
                    requires
                        lo == r0.len() + (i - start) * f,
                        i > start,
                        f >= 1,
                ;
                assert(result@[r0.len() as int] == before[r0.len() as int]);
            }
        }
        i = i + 1;
    }
    proof {
        let m = (n - start) as nat;
        assert(crate::permutation::factorial(m) == m * crate::permutation::factorial((m - 1) as nat));
        assert((n - start) * f == crate::permutation::factorial(m));
    }
}

/// Generates all 5040 permutations of `0..7`, starting with the identity.
pub fn generate_s7_permutations() -> (result: Vec<Vec<usize>>)
    ensures
        result@.len() == 5040,
        forall|k: int| 0 <= k < result@.len() ==> crate::permutation::is_permutation_of_range(#[trigger] result@[k]@, 7),
        forall|a: int, b: int|
            0 <= a < result@.len() && 0 <= b < result@.len() && a != b ==> #[trigger] result@[a]@
                != #[trigger] result@[b]@,
        result@[0]@ == seq![0usize, 1, 2, 3, 4, 5, 6],
        index_lists(result@) == s7_sequence(),
{
    let mut result: Vec<Vec<usize>> = Vec::new();
    let mut arr: Vec<usize> = vec![0, 1, 2, 3, 4, 5, 6];
    let ghost a0 = arr@;
    assert(a0 =~= seq![0usize, 1, 2, 3, 4, 5, 6]);
    assert forall|i: int| 0 <= i < 7 implies #[trigger] a0[i] == i by {}
    permute_from(&mut arr, 0, &mut result);
    proof {
        assert(index_lists(Seq::<Vec<usize>>::empty()) =~= Seq::<Seq<usize>>::empty());
        assert(index_lists(result@) =~= s7_sequence());
        crate::permutation::lemma_factorial_7();
        assert forall|k: int| 0 <= k < result@.len() implies crate::permutation::is_permutation_of_range(
            #[trigger] result@[k]@,
            7,
        ) by {
            let p = result@[k]@;
            assert(fixed_prefix(p, a0, 0));
            assert forall|i: int| 0 <= i < p.len() implies #[trigger] p[i] < 7 by {
                assert(p.contains(p[i]));
                assert(a0.contains(p[i]));
            }
        }
    }
    result
}

/// The rounds from `start` up to `i` list everything listed by an
/// earlier round `j`.
proof fn lemma_rounds_contain(arr: Seq<usize>, start: int, i: int, j: int, q: Seq<usize>)
    requires
        0 <= start < arr.len(),
        start <= j < i <= arr.len(),
        permute_seq(crate::permutation::swapped(arr, start, j), start + 1).contains(q),
    ensures
        permute_rounds(arr, start, i).contains(q),
    decreases i,
{
    let a = permute_rounds(arr, start, i - 1);
    let b = permute_seq(crate::permutation::swapped(arr, start, i - 1), start + 1);
    assert(permute_rounds(arr, start, i) == a + b);
    if j == i - 1 {
        let t = choose|t: int| 0 <= t < b.len() && b[t] == q;
        assert((a + b)[a.len() + t] == q);
    } else {
        lemma_rounds_contain(arr, start, i - 1, j, q);
        let t = choose|t: int| 0 <= t < a.len() && a[t] == q;
        assert((a + b)[t] == q);
    }
}

/// Every arrangement of `arr` that keeps its first `start` entries is
/// listed by `permute_seq(arr, start)`.
pub proof fn lemma_permute_seq_complete(arr: Seq<usize>, start: int, q: Seq<usize>)
    requires
        arr.no_duplicates(),
        0 <= start <= arr.len(),
        fixed_prefix(q, arr, start),
    ensures
        permute_seq(arr, start).contains(q),
    decreases arr.len() - start,
{
    let n = arr.len() as int;
    if start == n {
        assert(q =~= arr) by {
            assert forall|t: int| 0 <= t < n implies q[t] == arr[t] by {
                assert(q.subrange(0, n)[t] == arr.subrange(0, n)[t]);
            }
        }
        assert(permute_seq(arr, start)[0] == q);
    } else {
        assert(q.contains(q[start]));
        assert(arr.contains(q[start]));
        let j = choose|j: int| 0 <= j < n && arr[j] == q[start];
        if j < start {
            assert(q.subrange(0, start)[j] == arr.subrange(0, start)[j]);
            assert(q[j] == q[start]);
            assert(false);
        }
        let sw = crate::permutation::swapped(arr, start, j);
        crate::permutation::lemma_swap_arrangement(arr, start, j);
        assert(sw.no_duplicates());
        assert(q.subrange(0, start + 1) =~= sw.subrange(0, start + 1)) by {
            assert forall|t: int| 0 <= t < start + 1 implies q[t] == sw[t] by {
                if t < start {
                    assert(q.subrange(0, start)[t] == arr.subrange(0, start)[t]);
                }
            }
        }
        assert(crate::permutation::is_arrangement(q, sw));
        lemma_permute_seq_complete(sw, start + 1, q);
        lemma_rounds_contain(arr, start, n, j, q);
    }
}

/// The S7 space lists every permutation of `0..7`.
pub proof fn lemma_s7_complete(q: Seq<usize>)
    requires
        crate::permutation::is_permutation_of_range(q, 7),
    ensures
        s7_sequence().contains(q),
{
    let a0 = seq![0usize, 1, 2, 3, 4, 5, 6];
    assert(a0.no_duplicates());
    assert forall|x: usize| q.contains(x) <==> a0.contains(x) by {
        if q.contains(x) {
            let t = choose|t: int| 0 <= t < 7 && q[t] == x;
            assert(a0[x as int] == x);
        }
        if a0.contains(x) {
            let t = choose|t: int| 0 <= t < 7 && a0[t] == x;
            assert(x < 7);
            crate::permutation::lemma_permutation_of_range_covers(q, 7);
            assert(crate::permutation::occurs(q, x as int));
            let w = choose|w: int| 0 <= w < q.len() && q[w] as int == x as int;
            assert(q[w] == x);
        }
    }
    assert(q.subrange(0, 0) =~= a0.subrange(0, 0));
    lemma_permute_seq_complete(a0, 0, q);
}

proof fn lemma_rounds_len(arr: Seq<usize>, start: int, i: int)
    requires
        0 <= start < arr.len(),
        start <= i <= arr.len(),
    ensures
        permute_rounds(arr, start, i).len() == (i - start) * crate::permutation::factorial(
            (arr.len() - start - 1) as nat,
        ),
    decreases arr.len() - start, i - start,
{
    let f = crate::permutation::factorial((arr.len() - start - 1) as nat);
    if i > start {
        lemma_rounds_len(arr, start, i - 1);
        let sw = crate::permutation::swapped(arr, start, i - 1);
        assert(sw.len() == arr.len());
        lemma_permute_seq_len(sw, start + 1);
        assert(permute_rounds(arr, start, i) == permute_rounds(arr, start, i - 1) + permute_seq(sw, start + 1));
        assert((i - start) * f == (i - 1 - start) * f + f) by (nonlinear_arith);
    } else {
        assert((i - start) * f == 0) by (nonlinear_arith)
            requires
                i == start,
        ;
    }
}

/// `permute_seq(arr, start)` lists `(arr.len() - start)!` arrangements.
proof fn lemma_permute_seq_len(arr: Seq<usize>, start: int)
    requires
        0 <= start <= arr.len(),
    ensures
        permute_seq(arr, start).len() == crate::permutation::factorial((arr.len() - start) as nat),
    decreases arr.len() - start, arr.len() + 1 - start,
{
    if start < arr.len() {
        lemma_rounds_len(arr, start, arr.len() as int);
        let m = (arr.len() - start) as nat;
        assert(crate::permutation::factorial(m) == m * crate::permutation::factorial((m - 1) as nat));
    }
}

/// The S7 space lists 7! = 5040 arrangements.
pub proof fn lemma_s7_len()
    ensures
        s7_sequence().len() == 5040,
{
    lemma_permute_seq_len(seq![0usize, 1, 2, 3, 4, 5, 6], 0);
    crate::permutation::lemma_factorial_7();
}

} // verus!
