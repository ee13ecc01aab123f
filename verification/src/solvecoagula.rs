//! Configuration and index bookkeeping of the Solve-Coagula operators: the
//! scale levels of the weight transfer, configuration defaults, the
//! path-equivalent permutations of path invariance and how vectors are
//! reordered by them.
//!
//! The operators themselves act on floating-point vectors; what is kept
//! here is the part that reads only indices, names and counts.

use vstd::prelude::*;
use crate::text::text_eq;

verus! {

/// Scale levels of the weight transfer.
#[derive(Clone, Copy, Debug, PartialEq, Eq, Structural, Hash)]
pub enum ScaleLevel {
    Micro,
    Meso,
    Macro,
}

/// The name of a scale level.
pub open spec fn level_name(l: ScaleLevel) -> Seq<char> {
    match l {
        ScaleLevel::Micro => "micro"@,
        ScaleLevel::Meso => "meso"@,
        ScaleLevel::Macro => "macro"@,
    }
}

/// The scale level with a given name.
pub open spec fn level_named(s: Seq<char>) -> Option<ScaleLevel> {
    if s == "micro"@ {
        Some(ScaleLevel::Micro)
    } else if s == "meso"@ {
        Some(ScaleLevel::Meso)
    } else if s == "macro"@ {
        Some(ScaleLevel::Macro)
    } else {
        None
    }
}

impl ScaleLevel {
    /// The level's name.
    pub fn as_str(&self) -> (name: &'static str)
        ensures
            name@ == level_name(*self),
    {
        match self {
            ScaleLevel::Micro => "micro",
            ScaleLevel::Meso => "meso",
            ScaleLevel::Macro => "macro",
        }
    }

    /// The level with name `s`, if any.
    pub fn from_str(s: &str) -> (level: Option<ScaleLevel>)
        ensures
            level == level_named(s@),
    {
        if text_eq(s, "micro") {
            Some(ScaleLevel::Micro)
        } else if text_eq(s, "meso") {
            Some(ScaleLevel::Meso)
        } else if text_eq(s, "macro") {
            Some(ScaleLevel::Macro)
        } else {
            None
        }
    }
}

/// Law: a level's name reads back as the level, and a name that reads as
/// a level is that level's name.
pub proof fn lemma_level_names_round_trip(l: ScaleLevel, s: Seq<char>)
    ensures
        level_named(level_name(l)) == Some(l),
        level_named(s) matches Some(m) ==> level_name(m) == s,
{
    reveal_strlit("micro");
    reveal_strlit("meso");
    reveal_strlit("macro");
    assert("micro"@ != "meso"@) by {
        assert("micro"@[1] != "meso"@[1]);
    }
    assert("micro"@ != "macro"@) by {
        assert("micro"@[1] != "macro"@[1]);
    }
    assert("meso"@ != "macro"@) by {
        assert("meso"@[1] != "macro"@[1]);
    }
}

/// Weight-transfer configuration.
pub struct WTConfig {
    pub mode: String,
}

impl Default for WTConfig {
    fn default() -> (config: WTConfig)
        ensures
            config.mode@ == "analytic"@,
    {
        WTConfig { mode: default_mode() }
    }
}

/// The default weight-transfer mode: `analytic`.
pub fn default_mode() -> (mode: String)
    ensures
        mode@ == "analytic"@,
{
    String::from_str("analytic")
}

/// The default canonical ordering of path invariance: `lexicographic`.
pub fn default_canon() -> (canon: String)
    ensures
        canon@ == "lexicographic"@,
{
    String::from_str("lexicographic")
}

/// The default iteration bound of the fixpoint search.
pub fn default_max_iter() -> (n: usize)
    ensures
        n == 1000,
{
    1000
}

/// Whether `c` has the Unicode `White_Space` property
/// (`char::is_whitespace`).
pub uninterp spec fn char_is_whitespace(c: char) -> bool;

/// The ASCII characters with the `White_Space` property: tab, line feed,
/// vertical tab, form feed, carriage return and space.
pub open spec fn ascii_whitespace(c: char) -> bool {
    (c as u32) == 32 || (9 <= (c as u32) <= 13)
}

/// `s` without the leading and trailing characters that satisfy `ws`.
pub open spec fn trim_with(s: Seq<char>, ws: spec_fn(char) -> bool) -> Seq<char>
    decreases s.len(),
{
    if s.len() > 0 && ws(s[0]) {
        trim_with(s.drop_first(), ws)
    } else if s.len() > 0 && ws(s.last()) {
        trim_with(s.drop_last(), ws)
    } else {
        s
    }
}

/// `s` without leading and trailing white space (what `str::trim` gives).
pub open spec fn trimmed(s: Seq<char>) -> Seq<char> {
    trim_with(s, |c: char| char_is_whitespace(c))
}

/// Trusted: `str::trim`, which removes the leading and trailing
/// characters with the `White_Space` property.  For an all-ASCII text
/// those are the ASCII white space characters.
#[verifier::external_body]
fn trim_text(s: &str) -> (t: String)
    ensures
        t@ == trimmed(s@),
        t@.len() > 0 ==> !char_is_whitespace(t@[0]) && !char_is_whitespace(t@.last()),
        (forall|i: int| 0 <= i < s@.len() ==> (s@[i] as u32) < 128) ==> t@ == trim_with(
            s@,
            |c: char| ascii_whitespace(c),
        ),
{
    s.trim().to_string()
}

/// The levels named by the pieces, trimmed, in order (unknown names are
/// skipped).
pub open spec fn levels_of(pieces: Seq<Seq<char>>) -> Seq<ScaleLevel>
    decreases pieces.len(),
{
    if pieces.len() == 0 {
        Seq::empty()
    } else {
        let front = levels_of(pieces.drop_last());
        match level_named(trimmed(pieces[pieces.len() - 1])) {
            Some(l) => front.push(l),
            None => front,
        }
    }
}

/// Reads a comma-separated list of level names, e.g. `micro, meso`.
pub fn parse_levels(spec: &str) -> (levels: Vec<ScaleLevel>)
    ensures
        levels@ == levels_of(crate::text::split_pieces(spec@, ',')),
{
    let pieces = crate::text::split_text(spec, ',');
    let ghost pv = pieces@.map_values(|p: Vec<char>| p@);
    let mut levels: Vec<ScaleLevel> = Vec::new();
    let mut k: usize = 0;
    while k < pieces.len()
        invariant
            pv == pieces@.map_values(|p: Vec<char>| p@),
            0 <= k <= pieces@.len(),
            levels@ == levels_of(pv.subrange(0, k as int)),
        decreases pieces@.len() - k,
    {
        let text = crate::text::text_of(&pieces[k]);
        let trimmed_text = trim_text(text.as_str());
        proof {
            let next = pv.subrange(0, k + 1);
            assert(next.drop_last() =~= pv.subrange(0, k as int));
            assert(next[next.len() - 1] == pieces@[k as int]@);
        }
        match ScaleLevel::from_str(trimmed_text.as_str()) {
            Some(l) => levels.push(l),
            None => {},
        }
        k = k + 1;
    }
    assert(pv.subrange(0, pieces@.len() as int) =~= pv);
    levels
}

/// How path-equivalent vectors are ordered before they are averaged.
#[derive(Clone, Copy, Debug, PartialEq, Eq, Structural)]
pub enum CanonMode {
    /// Componentwise, first difference decides.
    Lexicographic,
    /// By Euclidean norm.
    Norm,
    /// By component sum.
    Sum,
    /// Left as generated.
    Unordered,
}

/// The ordering that a canonical-order name selects.
pub open spec fn canon_mode_spec(canon: Seq<char>) -> CanonMode {
    if canon == "lexicographic"@ {
        CanonMode::Lexicographic
    } else if canon == "norm"@ {
        CanonMode::Norm
    } else if canon == "sum"@ {
        CanonMode::Sum
    } else {
        CanonMode::Unordered
    }
}

/// The ordering that a canonical-order name selects; unknown names leave
/// the vectors as generated.
pub fn canon_mode(canon: &str) -> (mode: CanonMode)
    ensures
        mode == canon_mode_spec(canon@),
{
    if text_eq(canon, "lexicographic") {
        CanonMode::Lexicographic
    } else if text_eq(canon, "norm") {
        CanonMode::Norm
    } else if text_eq(canon, "sum") {
        CanonMode::Sum
    } else {
        CanonMode::Unordered
    }
}

/// The path-equivalent permutations of five components: identity, the
/// two cyclic shifts, even-odd separation, alternation and reversal.
pub open spec fn path_permutations_spec() -> Seq<Seq<usize>> {
    seq![
        seq![0usize, 1, 2, 3, 4],
        seq![1usize, 2, 3, 4, 0],
        seq![4usize, 0, 1, 2, 3],
        seq![0usize, 2, 4, 1, 3],
        seq![1usize, 3, 0, 4, 2],
        seq![4usize, 3, 2, 1, 0],
    ]
}

/// The path-equivalent permutations (see `path_permutations_spec`); each
/// is a permutation of `0..5`.
pub fn path_permutations() -> (perms: Vec<Vec<usize>>)
    ensures
        perms@.map_values(|p: Vec<usize>| p@) == path_permutations_spec(),
        forall|i: int| 0 <= i < perms@.len() ==> crate::permutation::is_permutation_of_range(#[trigger] perms@[i]@, 5),
{
    let perms = vec![
        vec![0, 1, 2, 3, 4],
        vec![1, 2, 3, 4, 0],
        vec![4, 0, 1, 2, 3],
        vec![0, 2, 4, 1, 3],
        vec![1, 3, 0, 4, 2],
        vec![4, 3, 2, 1, 0],
    ];
    assert(perms@.map_values(|p: Vec<usize>| p@) =~= path_permutations_spec());
    proof {
        assert forall|i: int| 0 <= i < perms@.len() implies crate::permutation::is_permutation_of_range(
            #[trigger] perms@[i]@,
            5,
        ) by {
            let p = perms@[i]@;
            assert(p == path_permutations_spec()[i]);
            assert forall|a: int, b: int| 0 <= a < p.len() && 0 <= b < p.len() && a != b implies p[a] != p[b] by {}
        }
    }
    perms
}

/// The path-equivalent orders of `n` components that the fixpoint
/// operator averages over: identity, rotation by one to the left and to
/// the right, and reversal.
pub open spec fn rotation_permutations_spec(n: nat) -> Seq<Seq<usize>> {
    seq![
        Seq::new(n, |i: int| i as usize),
        Seq::new(n, |i: int| if i + 1 < n { (i + 1) as usize } else { 0usize }),
        Seq::new(n, |i: int| if i == 0 { (n - 1) as usize } else { (i - 1) as usize }),
        Seq::new(n, |i: int| (n - 1 - i) as usize),
    ]
}

/// The path-equivalent orders of `n` components (see
/// `rotation_permutations_spec`); each is a permutation of `0..n`.
pub fn rotation_permutations(n: usize) -> (perms: Vec<Vec<usize>>)
    requires
        n >= 1,
    ensures
        perms@.map_values(|p: Vec<usize>| p@) == rotation_permutations_spec(n as nat),
        forall|k: int| 0 <= k < perms@.len() ==> crate::permutation::is_permutation_of_range(#[trigger] perms@[k]@, n as nat),
{
    let ghost spec = rotation_permutations_spec(n as nat);
    let mut identity: Vec<usize> = Vec::new();
    let mut left: Vec<usize> = Vec::new();
    let mut right: Vec<usize> = Vec::new();
    let mut reversed: Vec<usize> = Vec::new();
    let mut i: usize = 0;
    while i < n
        invariant
            0 <= i <= n,
            n >= 1,
            spec == rotation_permutations_spec(n as nat),
            identity@ == spec[0].take(i as int),
            left@ == spec[1].take(i as int),
            right@ == spec[2].take(i as int),
            reversed@ == spec[3].take(i as int),
        decreases n - i,
    {
        identity.push(i);
        left.push(if i + 1 < n { i + 1 } else { 0 });
        right.push(if i == 0 { n - 1 } else { i - 1 });
        reversed.push(n - 1 - i);
        proof {
            assert(identity@ =~= spec[0].take(i + 1));
            assert(left@ =~= spec[1].take(i + 1));
            assert(right@ =~= spec[2].take(i + 1));
            assert(reversed@ =~= spec[3].take(i + 1));
        }
        i = i + 1;
    }
    proof {
        assert(identity@ =~= spec[0]);
        assert(left@ =~= spec[1]);
        assert(right@ =~= spec[2]);
        assert(reversed@ =~= spec[3]);
    }
    let perms = vec![identity, left, right, reversed];
    proof {
        assert(perms@.map_values(|p: Vec<usize>| p@) =~= spec);
        assert forall|k: int| 0 <= k < perms@.len() implies crate::permutation::is_permutation_of_range(
            #[trigger] perms@[k]@,
            n as nat,
        ) by {
            let p = perms@[k]@;
            assert(p == spec[k]);
            assert forall|a: int, b: int| 0 <= a < p.len() && 0 <= b < p.len() && a != b implies p[a] != p[b] by {}
        }
    }
    perms
}

/// The order that shifts `n` components cyclically by `shift`: position
/// `i` takes component `(i + shift) mod n` (for `shift < n`).
pub open spec fn cyclic_shift_spec(n: nat, shift: nat) -> Seq<usize> {
    Seq::new(n, |i: int| if i + shift < n { (i + shift) as usize } else { (i + shift - n) as usize })
}

/// The order that shifts `n` components cyclically by `shift` (see
/// `cyclic_shift_spec`); it is a permutation of `0..n`.
pub fn cyclic_shift(n: usize, shift: usize) -> (order: Vec<usize>)
    requires
        shift < n,
    ensures
        order@ == cyclic_shift_spec(n as nat, shift as nat),
        crate::permutation::is_permutation_of_range(order@, n as nat),
{
    let mut order: Vec<usize> = Vec::new();
    let mut i: usize = 0;
    while i < n
        invariant
            0 <= i <= n,
            shift < n,
            order@ == cyclic_shift_spec(n as nat, shift as nat).take(i as int),
        decreases n - i,
    {
        let from_end = n - i;
        order.push(if shift < from_end { i + shift } else { shift - from_end });
        assert(order@ =~= cyclic_shift_spec(n as nat, shift as nat).take(i + 1));
        i = i + 1;
    }
    assert(order@ =~= cyclic_shift_spec(n as nat, shift as nat));
    proof {
        let p = order@;
        assert forall|a: int, b: int| 0 <= a < p.len() && 0 <= b < p.len() && a != b implies p[a] != p[b] by {}
    }
    order
}

/// The bytes from which the Solve-Coagula weight matrix is drawn: the
/// first 25 bytes of the SHA-256 digest of the seed 42 as eight
/// little-endian bytes, row after row of the 5×5 matrix.
pub fn weight_matrix_bytes() -> (bytes: Vec<u8>)
    ensures
        bytes@ == crate::hashing::sha256_digest(seq![42u8, 0, 0, 0, 0, 0, 0, 0]).take(25),
{
    let seed: [u8; 8] = [42, 0, 0, 0, 0, 0, 0, 0];
    assert(seed@ =~= seq![42u8, 0, 0, 0, 0, 0, 0, 0]);
    let digest = crate::hashing::sha256_bytes(&seed);
    let mut bytes: Vec<u8> = Vec::new();
    let mut k: usize = 0;
    while k < 25
        invariant
            0 <= k <= 25,
            digest@.len() == 32,
            bytes@ == digest@.take(k as int),
        decreases 25 - k,
    {
        bytes.push(digest[k]);
        assert(bytes@ =~= digest@.take(k + 1));
        k = k + 1;
    }
    bytes
}

/// The components of `v` in the order `perm` names them.
pub fn apply_permutation<T: Copy>(v: &Vec<T>, perm: &Vec<usize>) -> (out: Vec<T>)
    requires
        forall|i: int| 0 <= i < perm@.len() ==> #[trigger] perm@[i] < v@.len(),
    ensures
        out@.len() == perm@.len(),
        forall|i: int| 0 <= i < perm@.len() ==> #[trigger] out@[i] == v@[perm@[i] as int],
{
    let mut out: Vec<T> = Vec::new();
    let mut i: usize = 0;
    while i < perm.len()
        invariant
            0 <= i <= perm@.len(),
            forall|t: int| 0 <= t < perm@.len() ==> #[trigger] perm@[t] < v@.len(),
            out@.len() == i,
            forall|t: int| 0 <= t < i ==> #[trigger] out@[t] == v@[perm@[t] as int],
        decreases perm@.len() - i,
    {
        out.push(v[perm[i]]);
        i = i + 1;
    }
    out
}

/// Law: reordering a vector by a permutation of its positions keeps every
/// component value, each exactly as often.
pub proof fn lemma_permuted_keeps_components<T>(v: Seq<T>, perm: Seq<usize>, out: Seq<T>)
    requires
        crate::permutation::is_permutation_of_range(perm, v.len()),
        out.len() == perm.len(),
        forall|i: int| 0 <= i < perm.len() ==> #[trigger] out[i] == v[perm[i] as int],
    ensures
        out.to_multiset() == v.to_multiset(),
{
    let m = perm.map_values(|x: usize| x as int);
    assert(out =~= m.map_values(|x: int| v[x]));
    lemma_reindex_multiset(v, m);
}

/// Reindexing by a bijection of the positions keeps the multiset.
proof fn lemma_reindex_multiset<T>(v: Seq<T>, m: Seq<int>)
    requires
        m.len() == v.len(),
        m.no_duplicates(),
        forall|i: int| 0 <= i < m.len() ==> 0 <= #[trigger] m[i] < v.len(),
    ensures
        m.map_values(|x: int| v[x]).to_multiset() == v.to_multiset(),
    decreases v.len(),
{
    broadcast use vstd::seq_lib::group_to_multiset_ensures;
    if v.len() == 0 {
        assert(m.map_values(|x: int| v[x]) =~= Seq::<T>::empty());
    } else {
        let last = v.len() - 1;
        crate::permutation::lemma_covers_range(m, v.len() as int);
        assert(m.contains(last));
        let pos = choose|p: int| 0 <= p < m.len() && m[p] == last;
        let m2 = m.remove(pos);
        let v2 = v.drop_last();
        assert forall|i: int| 0 <= i < m2.len() implies 0 <= #[trigger] m2[i] < v2.len() by {
            if i < pos {
                assert(m2[i] == m[i]);
                assert(m[i] != m[pos]);
            } else {
                assert(m2[i] == m[i + 1]);
                assert(m[i + 1] != m[pos]);
            }
        }
        assert(m2.no_duplicates()) by {
            assert forall|a: int, b: int| 0 <= a < m2.len() && 0 <= b < m2.len() && a != b implies m2[a] != m2[b] by {
                let a1 = if a < pos { a } else { a + 1 };
                let b1 = if b < pos { b } else { b + 1 };
                assert(m2[a] == m[a1] && m2[b] == m[b1]);
            }
        }
        lemma_reindex_multiset(v2, m2);
        let full = m.map_values(|x: int| v[x]);
        let part = m2.map_values(|x: int| v2[x]);
        assert(part =~= full.remove(pos)) by {
            assert forall|i: int| 0 <= i < part.len() implies part[i] == full.remove(pos)[i] by {
                if i < pos {
                    assert(m2[i] == m[i]);
                } else {
                    assert(m2[i] == m[i + 1]);
                }
            }
        }
        vstd::seq_lib::to_multiset_remove(full, pos);
        assert(full[pos] == v[last]);
        assert(v2.push(v[last]) =~= v);
        assert(v.to_multiset() == v2.to_multiset().insert(v[last]));
    }
}

/// How many relaxation steps follow a fixpoint iteration that did not
/// converge: one for every 64 allowed iterations, and at least 8.
pub fn relaxation_limit(max_iter: usize) -> (limit: usize)
    ensures
        limit == (if max_iter / 64 > 8 {
            max_iter / 64
        } else {
            8
        }),
{
    let share = max_iter / 64;
    if share > 8 {
        share
    } else {
        8
    }
}

/// The steps reported after relaxation: the iteration's steps plus the
/// relaxation steps taken (all of them when it never converged), but no
/// more than one less than the iteration limit.
pub fn relaxed_total_steps(steps: usize, converged_after: Option<usize>, limit: usize, max_iter: usize) -> (total: usize)
    requires
        max_iter >= 1,
        steps + limit <= usize::MAX,
        converged_after matches Some(extra) ==> extra <= limit,
    ensures
        total == (if (match converged_after {
            Some(extra) => steps + extra,
            None => steps + limit,
        }) < max_iter - 1 {
            match converged_after {
                Some(extra) => steps + extra,
                None => steps + limit,
            }
        } else {
            max_iter - 1
        }),
{
    let taken = match converged_after {
        Some(extra) => steps + extra,
        None => steps + limit,
    };
    let cap = max_iter - 1;
    if taken < cap {
        taken
    } else {
        cap
    }
}

} // verus!
