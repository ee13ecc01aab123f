//! Common vocabulary for permutation spaces: factorials, arrangements of a
//! sequence, and an in-place swap with its specification.

use vstd::prelude::*;

verus! {

/// n! for natural numbers.
pub open spec fn factorial(n: nat) -> nat
    decreases n,
{
    if n == 0 {
        1
    } else {
        n * factorial((n - 1) as nat)
    }
}

/// `p` is a rearrangement of `a`: same length, no repeated element, and the
/// same elements.  (Meant for sequences `a` without repetitions.)
pub open spec fn is_arrangement<T>(p: Seq<T>, a: Seq<T>) -> bool {
    &&& p.len() == a.len()
    &&& p.no_duplicates()
    &&& forall|x: T| p.contains(x) <==> a.contains(x)
}

/// `p` is a permutation of `0, 1, ..., n - 1`.
pub open spec fn is_permutation_of_range(p: Seq<usize>, n: nat) -> bool {
    &&& p.len() == n
    &&& p.no_duplicates()
    &&& forall|i: int| 0 <= i < p.len() ==> #[trigger] p[i] < n
}

/// The sequence `s` with the entries at `i` and `j` exchanged.
pub open spec fn swapped<T>(s: Seq<T>, i: int, j: int) -> Seq<T> {
    s.update(i, s[j]).update(j, s[i])
}

pub proof fn lemma_factorial_7()
    ensures
        factorial(7) == 5040,
{
    reveal_with_fuel(factorial, 8);
}

pub proof fn lemma_factorial_positive(n: nat)
    ensures
        factorial(n) >= 1,
    decreases n,
{
    if n > 0 {
        lemma_factorial_positive((n - 1) as nat);
        assert(n * factorial((n - 1) as nat) >= 1) by (nonlinear_arith)
            requires
                n >= 1,
                factorial((n - 1) as nat) >= 1,
        ;
    }
}

/// Exchanging two entries keeps a sequence an arrangement of itself.
pub proof fn lemma_swap_arrangement<T>(s: Seq<T>, i: int, j: int)
    requires
        0 <= i < s.len(),
        0 <= j < s.len(),
        s.no_duplicates(),
    ensures
        is_arrangement(swapped(s, i, j), s),
{
    let t = swapped(s, i, j);
    assert forall|x: T| t.contains(x) <==> s.contains(x) by {
        if t.contains(x) {
            let k = choose|k: int| 0 <= k < t.len() && t[k] == x;
            if k == j {
                assert(s[i] == x);
            } else if k == i {
                assert(s[j] == x);
            } else {
                assert(s[k] == x);
            }
        }
        if s.contains(x) {
            let k = choose|k: int| 0 <= k < s.len() && s[k] == x;
            if k == i {
                assert(t[j] == x);
            } else if k == j {
                assert(t[i] == x);
            } else {
                assert(t[k] == x);
            }
        }
    }
    assert forall|a: int, b: int| 0 <= a < t.len() && 0 <= b < t.len() && a != b implies t[a] != t[b] by {
        let sa = if a == j { i } else if a == i { j } else { a };
        let sb = if b == j { i } else if b == i { j } else { b };
        assert(t[a] == s[sa]);
        assert(t[b] == s[sb]);
    }
}

/// Arrangement is transitive.
pub proof fn lemma_arrangement_trans<T>(p: Seq<T>, q: Seq<T>, r: Seq<T>)
    requires
        is_arrangement(p, q),
        is_arrangement(q, r),
    ensures
        is_arrangement(p, r),
{
}

/// A sequence without repetitions is an arrangement of itself.
pub proof fn lemma_arrangement_refl<T>(p: Seq<T>)
    requires
        p.no_duplicates(),
    ensures
        is_arrangement(p, p),
{
}

/// Exchanges the entries at `i` and `j` of `v`.
pub fn swap_entries<T: Copy>(v: &mut Vec<T>, i: usize, j: usize)
    requires
        i < old(v).len(),
        j < old(v).len(),
    ensures
        final(v)@ == swapped(old(v)@, i as int, j as int),
{
    let a = v[i];
    let b = v[j];
    v.set(i, b);
    v.set(j, a);
}

/// A duplicate-free list of positions as long as the range covers it.
pub proof fn lemma_covers_range(m: Seq<int>, n: int)
    requires
        m.len() == n,
        m.no_duplicates(),
        forall|i: int| 0 <= i < m.len() ==> 0 <= #[trigger] m[i] < n,
    ensures
        forall|x: int| 0 <= x < n ==> #[trigger] m.contains(x),
{
    let s = m.to_set();
    let r = Set::new(|x: int| 0 <= x < n);
    m.unique_seq_to_set();
    assert(s.subset_of(r));
    vstd::set_lib::lemma_int_range(0, n);
    assert(r =~= vstd::set_lib::set_int_range(0, n));
    vstd::set_lib::lemma_subset_equality(s, r);
    assert forall|x: int| 0 <= x < n implies #[trigger] m.contains(x) by {
        assert(r.contains(x));
        assert(s.contains(x));
    }
}


/// `x` occurs among the entries of `o`.
pub open spec fn occurs(o: Seq<usize>, x: int) -> bool {
    exists|j: int| 0 <= j < o.len() && o[j] as int == x
}

/// A permutation of `0..n` holds every number below `n`.
pub proof fn lemma_permutation_of_range_covers(o: Seq<usize>, n: nat)
    requires
        is_permutation_of_range(o, n),
    ensures
        forall|x: int| 0 <= x < n ==> #[trigger] occurs(o, x),
{
    let m = o.map_values(|x: usize| x as int);
    assert forall|a: int, b: int| 0 <= a < m.len() && 0 <= b < m.len() && a != b implies m[a] != m[b] by {
        assert(o[a] != o[b]);
    }
    assert(m.no_duplicates());
    lemma_covers_range(m, n as int);
    assert forall|x: int| 0 <= x < n implies #[trigger] occurs(o, x) by {
        assert(m.contains(x));
        let j = choose|j: int| 0 <= j < m.len() && m[j] == x;
        assert(o[j] as int == x);
    }
}

} // verus!
