//! The order of text keys (character by character, by code point, a proper
//! prefix first), which is the order of `str` in std, and a stable way to
//! list distinct keys in increasing order.

use vstd::prelude::*;

verus! {

/// `a` comes strictly before `b`.
pub open spec fn text_lt(a: Seq<char>, b: Seq<char>) -> bool
    decreases a.len(),
{
    if a.len() == 0 {
        b.len() > 0
    } else if b.len() == 0 {
        false
    } else if a[0] != b[0] {
        (a[0] as int) < (b[0] as int)
    } else {
        text_lt(a.drop_first(), b.drop_first())
    }
}

pub proof fn lemma_text_lt_irreflexive(a: Seq<char>)
    ensures
        !text_lt(a, a),
    decreases a.len(),
{
    if a.len() > 0 {
        lemma_text_lt_irreflexive(a.drop_first());
    }
}

pub proof fn lemma_text_lt_transitive(a: Seq<char>, b: Seq<char>, c: Seq<char>)
    requires
        text_lt(a, b),
        text_lt(b, c),
    ensures
        text_lt(a, c),
    decreases a.len(),
{
    if a.len() > 0 && b.len() > 0 && c.len() > 0 {
        if a[0] == b[0] && b[0] == c[0] {
            lemma_text_lt_transitive(a.drop_first(), b.drop_first(), c.drop_first());
        }
    }
}

pub proof fn lemma_text_lt_total(a: Seq<char>, b: Seq<char>)
    requires
        a != b,
    ensures
        text_lt(a, b) || text_lt(b, a),
    decreases a.len(),
{
    if a.len() > 0 && b.len() > 0 && a[0] == b[0] {
        if a.drop_first() == b.drop_first() {
            assert(a =~= seq![a[0]] + a.drop_first());
            assert(b =~= seq![b[0]] + b.drop_first());
        }
        lemma_text_lt_total(a.drop_first(), b.drop_first());
    }
    if a.len() == 0 && b.len() == 0 {
        assert(a =~= b);
    }
}

pub proof fn lemma_text_lt_asymmetric(a: Seq<char>, b: Seq<char>)
    requires
        text_lt(a, b),
    ensures
        !text_lt(b, a),
{
    if text_lt(b, a) {
        lemma_text_lt_transitive(a, b, a);
        lemma_text_lt_irreflexive(a);
    }
}

/// `a` comes strictly before `b` in the order of text keys.
pub fn text_less(a: &str, b: &str) -> (lt: bool)
    ensures
        lt == text_lt(a@, b@),
{
    let la = a.unicode_len();
    let lb = b.unicode_len();
    let mut i: usize = 0;
    assert(a@.skip(0) =~= a@);
    assert(b@.skip(0) =~= b@);
    while i < la && i < lb
        invariant
            la == a@.len(),
            lb == b@.len(),
            i <= la,
            i <= lb,
            text_lt(a@, b@) == text_lt(a@.skip(i as int), b@.skip(i as int)),
        decreases la - i,
    {
        let ca = a.get_char(i);
        let cb = b.get_char(i);
        let ghost sa = a@.skip(i as int);
        let ghost sb = b@.skip(i as int);
        assert(sa[0] == ca && sb[0] == cb);
        if ca != cb {
            return (ca as u32) < (cb as u32);
        }
        assert(sa.drop_first() =~= a@.skip(i + 1));
        assert(sb.drop_first() =~= b@.skip(i + 1));
        i = i + 1;
    }
    lb > i
}

/// Keys listed at the positions of `order` increase strictly.
pub open spec fn increasing_under(keys: Seq<Seq<char>>, order: Seq<usize>) -> bool {
    forall|x: int, y: int|
        0 <= x < y < order.len() ==> text_lt(keys[order[x] as int], keys[order[y] as int])
}

/// Texts in strictly increasing order.
pub open spec fn strictly_increasing(a: Seq<Seq<char>>) -> bool {
    forall|x: int, y: int| 0 <= x < y < a.len() ==> text_lt(a[x], a[y])
}

/// Two strictly increasing sequences of the same length holding the same
/// texts agree on their first `k` positions.
pub proof fn lemma_increasing_same_texts(a: Seq<Seq<char>>, b: Seq<Seq<char>>, k: int)
    requires
        a.len() == b.len(),
        strictly_increasing(a),
        strictly_increasing(b),
        forall|x: int| 0 <= x < a.len() ==> b.contains(#[trigger] a[x]),
        forall|x: int| 0 <= x < b.len() ==> a.contains(#[trigger] b[x]),
        0 <= k <= a.len(),
    ensures
        forall|t: int| 0 <= t < k ==> a[t] == b[t],
    decreases k,
{
    if k > 0 {
        lemma_increasing_same_texts(a, b, k - 1);
        let m = k - 1;
        assert(b.contains(a[m]));
        assert(a.contains(b[m]));
        let j = choose|j: int| 0 <= j < b.len() && b[j] == a[m];
        let i = choose|i: int| 0 <= i < a.len() && a[i] == b[m];
        lemma_text_lt_irreflexive(a[m]);
        lemma_text_lt_irreflexive(b[m]);
        if j < m {
            assert(text_lt(a[j], a[m]));
        } else if i < m {
            assert(text_lt(b[i], b[m]));
        } else if j > m {
            assert(text_lt(b[m], b[j]));
            if i > m {
                assert(text_lt(a[m], a[i]));
                lemma_text_lt_transitive(b[m], a[m], b[m]);
            }
        }
    }
}

/// Keys without repetitions.
pub open spec fn distinct_keys(keys: Seq<Seq<char>>) -> bool {
    forall|x: int, y: int| 0 <= x < keys.len() && 0 <= y < keys.len() && x != y ==> keys[x] != keys[y]
}

/// The positions of `keys`, ordered so that the keys increase.
pub fn sorted_order(keys: &Vec<String>) -> (order: Vec<usize>)
    requires
        distinct_keys(keys@.map_values(|s: String| s@)),
    ensures
        crate::permutation::is_permutation_of_range(order@, keys@.len() as nat),
        forall|e: int| 0 <= e < keys@.len() ==> #[trigger] order@.contains(e as usize),
        increasing_under(keys@.map_values(|s: String| s@), order@),
{
    let ghost kv = keys@.map_values(|s: String| s@);
    let n = keys.len();
    let mut order: Vec<usize> = Vec::new();
    let mut i: usize = 0;
    while i < n
        invariant
            n == keys@.len() == kv.len(),
            kv == keys@.map_values(|s: String| s@),
            distinct_keys(kv),
            i <= n,
            order@.len() == i,
            order@.no_duplicates(),
            forall|t: int| 0 <= t < order@.len() ==> #[trigger] order@[t] < i,
            forall|e: int| 0 <= e < i ==> #[trigger] order@.contains(e as usize),
            increasing_under(kv, order@),
        decreases n - i,
    {
        let mut pos: usize = 0;
        while pos < order.len() && !text_less(keys[i].as_str(), keys[order[pos]].as_str())
            invariant
                n == keys@.len() == kv.len(),
                kv == keys@.map_values(|s: String| s@),
                distinct_keys(kv),
                i < n,
                order@.len() == i,
                forall|t: int| 0 <= t < order@.len() ==> #[trigger] order@[t] < i,
                pos <= order@.len(),
                forall|t: int| 0 <= t < pos ==> text_lt(kv[order@[t] as int], kv[i as int]),
            decreases order@.len() - pos,
        {
            proof {
                let other = order@[pos as int] as int;
                assert(other != i);
                assert(kv[other] != kv[i as int]);
                lemma_text_lt_total(kv[other], kv[i as int]);
            }
            pos = pos + 1;
        }
        let ghost old_order = order@;
        order.insert(pos, i);
        proof {
            assert(order@ == old_order.insert(pos as int, i));
            assert forall|e: int| 0 <= e < i + 1 implies #[trigger] order@.contains(e as usize) by {
                if e == i {
                    assert(order@[pos as int] == i);
                } else {
                    assert(old_order.contains(e as usize));
                    let t = choose|t: int| 0 <= t < old_order.len() && old_order[t] == e as usize;
                    if t < pos {
                        assert(order@[t] == old_order[t]);
                    } else {
                        assert(order@[t + 1] == old_order[t]);
                    }
                }
            }
            assert forall|t: int| 0 <= t < order@.len() implies #[trigger] order@[t] < i + 1 by {
                if t < pos {
                    assert(order@[t] == old_order[t]);
                } else if t > pos {
                    assert(order@[t] == old_order[t - 1]);
                }
            }
            assert forall|x: int, y: int| 0 <= x < order@.len() && 0 <= y < order@.len() && x != y
                implies order@[x] != order@[y] by {
                let ox = if x < pos { x } else if x > pos { x - 1 } else { -1 };
                let oy = if y < pos { y } else if y > pos { y - 1 } else { -1 };
                if ox >= 0 {
                    assert(order@[x] == old_order[ox]);
                }
                if oy >= 0 {
                    assert(order@[y] == old_order[oy]);
                }
            }
            assert forall|x: int, y: int| 0 <= x < y < order@.len() implies text_lt(
                kv[order@[x] as int],
                kv[order@[y] as int],
            ) by {
                if y < pos {
                    assert(order@[x] == old_order[x]);
                    assert(order@[y] == old_order[y]);
                } else if x > pos {
                    assert(order@[x] == old_order[x - 1]);
                    assert(order@[y] == old_order[y - 1]);
                } else if x == pos {
                    assert(order@[x] == i);
                    assert(order@[y] == old_order[y - 1]);
                    if y - 1 == pos {
                    } else {
                        assert(text_lt(kv[old_order[pos as int] as int], kv[old_order[y - 1] as int]));
                        lemma_text_lt_transitive(
                            kv[i as int],
                            kv[old_order[pos as int] as int],
                            kv[old_order[y - 1] as int],
                        );
                    }
                } else if y == pos {
                    assert(order@[x] == old_order[x]);
                    assert(order@[y] == i);
                } else {
                    assert(order@[x] == old_order[x]);
                    assert(order@[y] == old_order[y - 1]);
                    assert(text_lt(kv[old_order[x] as int], kv[i as int]));
                    assert(text_lt(kv[i as int], kv[old_order[pos as int] as int]));
                    if y - 1 == pos {
                        lemma_text_lt_transitive(kv[old_order[x] as int], kv[i as int], kv[old_order[y - 1] as int]);
                    } else {
                        assert(text_lt(kv[old_order[pos as int] as int], kv[old_order[y - 1] as int]));
                        lemma_text_lt_transitive(kv[i as int], kv[old_order[pos as int] as int], kv[old_order[y - 1] as int]);
                        lemma_text_lt_transitive(kv[old_order[x] as int], kv[i as int], kv[old_order[y - 1] as int]);
                    }
                }
            }
        }
        i = i + 1;
    }
    proof {
        assert forall|t: int| 0 <= t < order@.len() implies #[trigger] order@[t] < n by {}
    }
    order
}

/// Law: with distinct keys there is only one order of the positions that
/// is increasing under the keys.
pub proof fn lemma_sorted_order_unique(keys: Seq<Seq<char>>, o1: Seq<usize>, o2: Seq<usize>)
    requires
        distinct_keys(keys),
        crate::permutation::is_permutation_of_range(o1, keys.len()),
        crate::permutation::is_permutation_of_range(o2, keys.len()),
        increasing_under(keys, o1),
        increasing_under(keys, o2),
    ensures
        o1 == o2,
{
    assert forall|i: int| 0 <= i < o1.len() implies o1[i] == o2[i] by {
        lemma_sorted_prefix_equal(keys, o1, o2, i);
    }
    assert(o1 =~= o2);
}

proof fn lemma_sorted_prefix_equal(keys: Seq<Seq<char>>, o1: Seq<usize>, o2: Seq<usize>, i: int)
    requires
        distinct_keys(keys),
        crate::permutation::is_permutation_of_range(o1, keys.len()),
        crate::permutation::is_permutation_of_range(o2, keys.len()),
        increasing_under(keys, o1),
        increasing_under(keys, o2),
        0 <= i < o1.len(),
    ensures
        o1[i] == o2[i],
    decreases i,
{
    let n = keys.len();
    assert forall|t: int| 0 <= t < i implies o1[t] == o2[t] by {
        lemma_sorted_prefix_equal(keys, o1, o2, t);
    }
    if o1[i] != o2[i] {
        // Every position occurs in each order, since each is a permutation.
        lemma_permutation_covers(o2, n, o1[i] as int);
        lemma_permutation_covers(o1, n, o2[i] as int);
        let j = choose|j: int| 0 <= j < o2.len() && o2[j] as int == o1[i] as int;
        let k = choose|k: int| 0 <= k < o1.len() && o1[k] as int == o2[i] as int;
        if j < i {
            assert(o2[j] == o1[j]);
            assert(o1.no_duplicates());
        }
        if k < i {
            assert(o1[k] == o2[k]);
            assert(o2.no_duplicates());
        }
        assert(j > i && k > i);
        assert(text_lt(keys[o2[i] as int], keys[o2[j] as int]));
        assert(text_lt(keys[o1[i] as int], keys[o1[k] as int]));
        lemma_text_lt_asymmetric(keys[o2[i] as int], keys[o1[i] as int]);
    }
}

proof fn lemma_permutation_covers(o: Seq<usize>, n: nat, e: int)
    requires
        crate::permutation::is_permutation_of_range(o, n),
        0 <= e < n,
    ensures
        exists|j: int| 0 <= j < o.len() && o[j] as int == e,
{
    crate::permutation::lemma_permutation_of_range_covers(o, n);
    assert(crate::permutation::occurs(o, e));
}

} // verus!
