//! Route enumeration over S7: the 7! = 5040 orderings of the operator slots
//! numbered `1..=7`, enumerated with Heap's algorithm.

use vstd::prelude::*;
use crate::permutation::swap_entries;

verus! {

/// `a` with its first `k` entries rotated right by `i` places (`0 <= i <= k`).
pub open spec fn rotated(a: Seq<u8>, k: int, i: int) -> Seq<u8> {
    Seq::new(
        a.len(),
        |j: int|
            if j < k {
                if j >= i {
                    a[j - i]
                } else {
                    a[j - i + k]
                }
            } else {
                a[j]
            },
    )
}

/// The state of the first `k` entries of `a` after `i` rounds of the even
/// case of Heap's algorithm (round `r` exchanges entries `r` and `k - 1`).
pub open spec fn even_rounds(a: Seq<u8>, k: int, i: int) -> Seq<u8> {
    Seq::new(
        a.len(),
        |j: int|
            if i == 0 || j >= k {
                a[j]
            } else if j == 0 {
                a[k - 1]
            } else if j < i {
                a[j - 1]
            } else if j < k - 1 {
                a[j]
            } else {
                a[i - 1]
            },
    )
}

/// The array before round `i` of Heap's algorithm on the first `k` entries.
pub open spec fn heap_round_state(a: Seq<u8>, k: int, i: int) -> Seq<u8> {
    if k % 2 == 1 {
        rotated(a, k, i)
    } else {
        even_rounds(a, k, i)
    }
}

/// The array once Heap's algorithm on the first `k` entries has returned:
/// unchanged for odd `k`, rotated right by one place for even `k`.
pub open spec fn heap_final(a: Seq<u8>, k: int) -> Seq<u8> {
    if k % 2 == 1 {
        a
    } else {
        rotated(a, k, 1)
    }
}

/// An output of Heap's algorithm: an arrangement of `a` that leaves the
/// entries from `k` on in place.
pub open spec fn keeps_tail(out: Seq<u8>, a: Seq<u8>, k: int) -> bool {
    &&& out.len() == a.len()
    &&& out.subrange(k, a.len() as int) == a.subrange(k, a.len() as int)
    &&& crate::permutation::is_arrangement(out, a)
}

/// `p` orders the operator slots `1..=7`, each once.
pub open spec fn is_slot_ordering(p: Seq<u8>) -> bool {
    &&& p.len() == 7
    &&& p.no_duplicates()
    &&& forall|i: int| 0 <= i < p.len() ==> 1 <= #[trigger] p[i] <= 7
}

/// Slot orderings as sequences.
pub open spec fn slot_lists(v: Seq<Vec<u8>>) -> Seq<Seq<u8>> {
    v.map_values(|p: Vec<u8>| p@)
}

/// The orderings Heap's algorithm writes for the first `k` entries of `a`,
/// in order: `a` itself when `k` is 1, and otherwise, for each round `i`,
/// those written for the first `k - 1` entries of the round's state.
pub open spec fn heap_seq(a: Seq<u8>, k: int) -> Seq<Seq<u8>>
    decreases k, k + 1,
{
    if k <= 1 {
        seq![a]
    } else {
        heap_rounds(a, k, k)
    }
}

/// The orderings written by rounds `0..i` (see `heap_seq`).
pub open spec fn heap_rounds(a: Seq<u8>, k: int, i: int) -> Seq<Seq<u8>>
    decreases k, i,
{
    if i <= 0 || k <= 1 || i > k {
        Seq::empty()
    } else {
        heap_rounds(a, k, i - 1) + heap_seq(heap_round_state(a, k, i - 1), k - 1)
    }
}

/// The slot orderings in the order `generate_permutations` lists them.
pub open spec fn slot_sequence() -> Seq<Seq<u8>> {
    heap_seq(seq![1u8, 2, 3, 4, 5, 6, 7], 7)
}

proof fn lemma_even_round_step(a: Seq<u8>, k: int, i: int)
    requires
        2 <= k <= a.len(),
        0 <= i < k,
    ensures
        crate::permutation::swapped(even_rounds(a, k, i), i, k - 1) == even_rounds(a, k, i + 1),
{
    assert(crate::permutation::swapped(even_rounds(a, k, i), i, k - 1) =~= even_rounds(a, k, i + 1));
}

proof fn lemma_odd_round_step(a: Seq<u8>, k: int, i: int)
    requires
        3 <= k <= a.len(),
        0 <= i < k,
    ensures
        crate::permutation::swapped(rotated(rotated(a, k, i), k - 1, 1), 0, k - 1) == rotated(a, k, i + 1),
{
    assert(crate::permutation::swapped(rotated(rotated(a, k, i), k - 1, 1), 0, k - 1) =~= rotated(a, k, i + 1));
}

proof fn lemma_round_bounds(a: Seq<u8>, k: int)
    requires
        1 <= k <= a.len(),
    ensures
        rotated(a, k, 0) == a,
        even_rounds(a, k, 0) == a,
        rotated(a, k, k) == a,
        even_rounds(a, k, k) == rotated(a, k, 1),
{
    assert(rotated(a, k, 0) =~= a);
    assert(even_rounds(a, k, 0) =~= a);
    assert(rotated(a, k, k) =~= a);
    assert(even_rounds(a, k, k) =~= rotated(a, k, 1));
}

/// The entry that round `b` leaves at position `k - 1`.
proof fn lemma_round_last(a: Seq<u8>, k: int, b: int)
    requires
        1 <= k <= a.len(),
        0 <= b < k,
    ensures
        k % 2 == 1 ==> heap_round_state(a, k, b)[k - 1] == a[k - 1 - b],
        k % 2 == 0 ==> heap_round_state(a, k, b)[k - 1] == (if b == 0 { a[k - 1] } else { a[b - 1] }),
{
}

fn heaps_algorithm(k: usize, arr: &mut Vec<u8>, output: &mut Vec<Vec<u8>>)
    requires
        1 <= k <= old(arr)@.len(),
        old(arr)@.no_duplicates(),
    ensures
        final(arr)@ == heap_final(old(arr)@, k as int),
        crate::permutation::is_arrangement(final(arr)@, old(arr)@),
        final(output)@.len() == old(output)@.len() + crate::permutation::factorial(k as nat),
        forall|m: int| 0 <= m < old(output)@.len() ==> #[trigger] final(output)@[m] == old(output)@[m],
        forall|m: int|
            old(output)@.len() <= m < final(output)@.len() ==> keeps_tail(
                #[trigger] final(output)@[m]@,
                old(arr)@,
                k as int,
            ),
        forall|x: int, y: int|
            old(output)@.len() <= x < final(output)@.len() && old(output)@.len() <= y
                < final(output)@.len() && x != y ==> #[trigger] final(output)@[x]@
                != #[trigger] final(output)@[y]@,
        final(output)@[old(output)@.len() as int]@ == old(arr)@,
        slot_lists(final(output)@) == slot_lists(old(output)@) + heap_seq(old(arr)@, k as int),
    decreases k,
{
    let ghost a0 = arr@;
    let ghost o0 = output@;
    let ghost n = a0.len() as int;
    if k == 1 {
        let copy = arr.clone();
        assert(copy@ =~= arr@);
        output.push(copy);
        proof {
            assert(slot_lists(output@) =~= slot_lists(o0) + heap_seq(a0, k as int));
            crate::permutation::lemma_arrangement_refl(a0);
            assert(crate::permutation::factorial(1) == 1 * crate::permutation::factorial(0));
            assert(output@[o0.len() as int]@.subrange(1, n) =~= a0.subrange(1, n));
        }
        return;
    }
    let ghost f = crate::permutation::factorial((k - 1) as nat);
    proof {
        crate::permutation::lemma_factorial_positive((k - 1) as nat);
        lemma_round_bounds(a0, k as int);
        crate::permutation::lemma_arrangement_refl(a0);
    }
    let mut i: usize = 0;
    while i < k
        invariant
            2 <= k <= n == a0.len(),
            old(arr)@ == a0,
            a0.no_duplicates(),
            0 <= i <= k,
            arr@ == heap_round_state(a0, k as int, i as int),
            crate::permutation::is_arrangement(arr@, a0),
            f == crate::permutation::factorial((k - 1) as nat),
            f >= 1,
            output@.len() == o0.len() + i * f,
            forall|m: int| 0 <= m < o0.len() ==> #[trigger] output@[m] == o0[m],
            forall|m: int| o0.len() <= m < output@.len() ==> keeps_tail(#[trigger] output@[m]@, a0, k as int),
            forall|m: int|
                o0.len() <= m < output@.len() ==> exists|b: int|
                    0 <= b < i && #[trigger] output@[m]@[k - 1] == heap_round_state(a0, k as int, b)[k - 1],
            forall|x: int, y: int|
                o0.len() <= x < output@.len() && o0.len() <= y < output@.len() && x != y
                    ==> #[trigger] output@[x]@ != #[trigger] output@[y]@,
            i > 0 ==> output@[o0.len() as int]@ == a0,
            slot_lists(output@) == slot_lists(o0) + heap_rounds(a0, k as int, i as int),
        decreases k - i,
    {
        let ghost before = output@;
        let ghost state = arr@;
        assert(state.no_duplicates());
        heaps_algorithm(k - 1, arr, output);
        let ghost after_call = arr@;
        proof {
            assert(slot_lists(output@) =~= slot_lists(o0) + heap_rounds(a0, k as int, i + 1));
            let lo = before.len() as int;
            let hi = output@.len() as int;
            assert(hi == lo + f);
            assert forall|m: int| lo <= m < hi implies keeps_tail(#[trigger] output@[m]@, a0, k as int)
                && output@[m]@[k - 1] == state[k - 1] by {
                let o = output@[m]@;
                assert(o.subrange(k - 1, n) == state.subrange(k - 1, n));
                assert(o.subrange(k - 1, n)[0] == state.subrange(k - 1, n)[0]);
                assert(state.subrange(k as int, n) =~= a0.subrange(k as int, n)) by {
                    if k % 2 == 1 {
                    } else {
                    }
                }
                assert(o.subrange(k as int, n) =~= a0.subrange(k as int, n)) by {
                    assert forall|t: int| 0 <= t < n - k implies o.subrange(k as int, n)[t]
                        == a0.subrange(k as int, n)[t] by {
                        assert(o.subrange(k - 1, n)[t + 1] == state.subrange(k - 1, n)[t + 1]);
                        assert(state.subrange(k as int, n)[t] == a0.subrange(k as int, n)[t]);
                    }
                }
                crate::permutation::lemma_arrangement_trans(o, state, a0);
            }
            assert(output@.len() == o0.len() + (i + 1) * f) by (nonlinear_arith)
                requires
                    hi == lo + f,
                    lo == o0.len() + i * f,
                    hi == output@.len(),
            ;
        }
        if k % 2 == 0 {
            swap_entries(arr, i, k - 1);
            proof {
                lemma_even_round_step(a0, k as int, i as int);
                crate::permutation::lemma_swap_arrangement(after_call, i as int, k - 1);
            }
        } else {
            swap_entries(arr, 0, k - 1);
            proof {
                lemma_odd_round_step(a0, k as int, i as int);
                crate::permutation::lemma_swap_arrangement(after_call, 0, k - 1);
            }
        }
        proof {
            crate::permutation::lemma_arrangement_trans(arr@, after_call, state);
            crate::permutation::lemma_arrangement_trans(arr@, state, a0);
            let lo = before.len() as int;
            let hi = output@.len() as int;
            lemma_round_last(a0, k as int, i as int);
            assert forall|m: int| o0.len() <= m < hi implies exists|b: int|
                0 <= b < i + 1 && #[trigger] output@[m]@[k - 1] == heap_round_state(a0, k as int, b)[k - 1] by {
                if m >= lo {
                    assert(output@[m]@[k - 1] == heap_round_state(a0, k as int, i as int)[k - 1]);
                } else {
                    assert(output@[m] == before[m]);
                }
            }
            assert forall|x: int, y: int|
                o0.len() <= x < hi && o0.len() <= y < hi && x != y implies #[trigger] output@[x]@
                != #[trigger] output@[y]@ by {
                if x >= lo && y >= lo {
                } else if x < lo && y < lo {
                    assert(output@[x] == before[x]);
                    assert(output@[y] == before[y]);
                } else {
                    let (p, q) = if x < lo { (x, y) } else { (y, x) };
                    assert(output@[p] == before[p]);
                    let b = choose|b: int| 0 <= b < i && #[trigger] before[p]@[k - 1]
                        == heap_round_state(a0, k as int, b)[k - 1];
                    lemma_round_last(a0, k as int, b);
                    assert(output@[q]@[k - 1] == heap_round_state(a0, k as int, i as int)[k - 1]);
                    assert(heap_round_state(a0, k as int, b)[k - 1] != heap_round_state(
                        a0,
                        k as int,
                        i as int,
                    )[k - 1]);
                }
            }
            if i == 0 {
            } else {
                assert(lo > o0.len()) by (nonlinear_arith)
                    requires
                        lo == o0.len() + i * f,
                        i > 0,
                        f >= 1,
                ;
                assert(output@[o0.len() as int] == before[o0.len() as int]);
            }
        }
        i = i + 1;
    }
    proof {
        assert(crate::permutation::factorial(k as nat) == k * crate::permutation::factorial((k - 1) as nat));
        assert(heap_seq(a0, k as int) == heap_rounds(a0, k as int, k as int));
    }
}

/// A slot ordering `1..=7` as the permutation of `0..7` it names.
pub open spec fn shift_down(p: Seq<u8>) -> Seq<usize> {
    p.map_values(|x: u8| (x - 1) as usize)
}

/// A permutation of `0..7` as the slot ordering it names.
pub open spec fn shift_up(q: Seq<usize>) -> Seq<u8> {
    q.map_values(|x: usize| (x + 1) as u8)
}

proof fn lemma_spaces_agree(slots: Seq<Seq<u8>>)
    requires
        slots.len() == 5040,
        forall|m: int| 0 <= m < slots.len() ==> is_slot_ordering(#[trigger] slots[m]),
        forall|x: int, y: int| 0 <= x < slots.len() && 0 <= y < slots.len() && x != y ==> #[trigger] slots[x] != #[trigger] slots[y],
    ensures
        forall|m: int| 0 <= m < 5040 ==> crate::s7_space::s7_sequence().contains(#[trigger] shift_down(slots[m])),
        forall|n: int| 0 <= n < 5040 ==> slots.contains(#[trigger] shift_up(crate::s7_space::s7_sequence()[n])),
{
    let space = crate::s7_space::s7_sequence();
    let down = slots.map_values(|p: Seq<u8>| shift_down(p));
    assert forall|m: int| 0 <= m < 5040 implies space.contains(#[trigger] shift_down(slots[m])) by {
        let p = slots[m];
        let q = shift_down(p);
        assert(is_slot_ordering(p));
        assert forall|a: int, b: int| 0 <= a < q.len() && 0 <= b < q.len() && a != b implies q[a] != q[b] by {
            assert(p[a] != p[b]);
        }
        crate::s7_space::lemma_s7_complete(q);
    }
    // Every entry of `space` is the shifted form of some slot ordering.
    assert(down.no_duplicates()) by {
        assert forall|a: int, b: int| 0 <= a < down.len() && 0 <= b < down.len() && a != b implies down[a] != down[b] by {
            let p = slots[a];
            let r = slots[b];
            assert(is_slot_ordering(p) && is_slot_ordering(r));
            if down[a] == down[b] {
                assert forall|t: int| 0 <= t < 7 implies p[t] == r[t] by {
                    assert(down[a][t] == down[b][t]);
                }
                assert(p =~= r);
            }
        }
    }
    down.unique_seq_to_set();
    space.lemma_cardinality_of_set();
    crate::s7_space::lemma_s7_len();
    assert(down.to_set().subset_of(space.to_set())) by {
        assert forall|q: Seq<usize>| down.to_set().contains(q) implies space.to_set().contains(q) by {
            let m = choose|m: int| 0 <= m < down.len() && down[m] == q;
            assert(space.contains(shift_down(slots[m])));
        }
    }
    vstd::seq_lib::seq_to_set_is_finite(down);
    vstd::seq_lib::seq_to_set_is_finite(space);
    vstd::set_lib::lemma_len_subset(down.to_set(), space.to_set());
    vstd::set_lib::lemma_subset_equality(down.to_set(), space.to_set());
    assert forall|n: int| 0 <= n < 5040 implies slots.contains(#[trigger] shift_up(space[n])) by {
        assert(space.to_set().contains(space[n]));
        assert(down.to_set().contains(space[n]));
        let m = choose|m: int| 0 <= m < down.len() && down[m] == space[n];
        let p = slots[m];
        assert(is_slot_ordering(p));
        assert(shift_up(space[n]) =~= p) by {
            assert forall|t: int| 0 <= t < 7 implies shift_up(space[n])[t] == p[t] by {
                assert(down[m][t] == space[n][t]);
            }
        }
    }
}

/// Generates all 7! = 5040 orderings of the slots `1..=7` (Heap's
/// algorithm), starting with `[1, 2, 3, 4, 5, 6, 7]`.
pub fn generate_permutations() -> (perms: Vec<Vec<u8>>)
    ensures
        perms@.len() == 5040,
        forall|m: int| 0 <= m < perms@.len() ==> is_slot_ordering(#[trigger] perms@[m]@),
        forall|x: int, y: int|
            0 <= x < perms@.len() && 0 <= y < perms@.len() && x != y ==> #[trigger] perms@[x]@
                != #[trigger] perms@[y]@,
        perms@[0]@ == seq![1u8, 2, 3, 4, 5, 6, 7],
        slot_lists(perms@) == slot_sequence(),
        forall|m: int|
            0 <= m < 5040 ==> crate::s7_space::s7_sequence().contains(#[trigger] shift_down(slot_sequence()[m])),
        forall|n: int|
            0 <= n < 5040 ==> slot_sequence().contains(#[trigger] shift_up(crate::s7_space::s7_sequence()[n])),
{
    let mut perms: Vec<Vec<u8>> = Vec::new();
    let mut working: Vec<u8> = vec![1, 2, 3, 4, 5, 6, 7];
    let ghost a0 = working@;
    assert(a0 =~= seq![1u8, 2, 3, 4, 5, 6, 7]);
    assert forall|i: int| 0 <= i < 7 implies #[trigger] a0[i] == i + 1 by {}
    heaps_algorithm(7, &mut working, &mut perms);
    proof {
        assert(slot_lists(Seq::<Vec<u8>>::empty()) =~= Seq::<Seq<u8>>::empty());
        assert(slot_lists(perms@) =~= slot_sequence());
        crate::permutation::lemma_factorial_7();
        assert forall|m: int| 0 <= m < perms@.len() implies is_slot_ordering(#[trigger] perms@[m]@) by {
            let p = perms@[m]@;
            assert(keeps_tail(p, a0, 7));
            assert forall|i: int| 0 <= i < p.len() implies 1 <= #[trigger] p[i] <= 7 by {
                assert(p.contains(p[i]));
                assert(a0.contains(p[i]));
            }
        }
        let slots = slot_lists(perms@);
        assert forall|x: int, y: int| 0 <= x < slots.len() && 0 <= y < slots.len() && x != y implies #[trigger] slots[x]
            != #[trigger] slots[y] by {
            assert(perms@[x]@ != perms@[y]@);
        }
        lemma_spaces_agree(slots);
    }
    perms
}

} // verus!
