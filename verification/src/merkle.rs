//! Binary hash trees over the leaf digests of a vector collection, the
//! sibling paths that prove a leaf's membership, and the check of such a path.

use vstd::prelude::*;
use crate::hashing::sha256_hex_digest;
use crate::text::{join3, text_eq};

verus! {

/// The word that marks a sibling on the left of the running digest.
pub open spec fn left_word() -> Seq<char> {
    seq!['l', 'e', 'f', 't']
}

/// The word that marks a sibling on the right of the running digest.
pub open spec fn right_word() -> Seq<char> {
    seq!['r', 'i', 'g', 'h', 't']
}

/// The digest of two child digests: SHA-256 of `left|right`.
pub open spec fn combine_spec(left: Seq<char>, right: Seq<char>) -> Seq<char> {
    crate::hashing::sha256_hex(vstd::utf8::encode_utf8(left + seq!['|'] + right))
}

/// Digests of a string sequence, as character sequences.
pub open spec fn strings_view(v: Seq<String>) -> Seq<Seq<char>> {
    v.map_values(|s: String| s@)
}

/// Sibling pairs `(position, digest)` as character sequences.
pub open spec fn pairs_view(v: Seq<(String, String)>) -> Seq<(Seq<char>, Seq<char>)> {
    v.map_values(|p: (String, String)| (p.0@, p.1@))
}

/// The partner of entry `2 i` on a level: the next entry, or itself when the
/// level ends there.
pub open spec fn partner(level: Seq<Seq<char>>, i: int) -> Seq<char> {
    if 2 * i + 1 < level.len() {
        level[2 * i + 1]
    } else {
        level[2 * i]
    }
}

/// The level above `level`: entry `i` combines entries `2 i` and `2 i + 1`
/// (an odd last entry is combined with itself).
pub open spec fn next_level(level: Seq<Seq<char>>) -> Seq<Seq<char>> {
    Seq::new(((level.len() + 1) / 2) as nat, |i: int| combine_spec(level[2 * i], partner(level, i)))
}

/// The root digest of the tree whose lowest level is `level` (non-empty).
pub open spec fn merkle_root(level: Seq<Seq<char>>) -> Seq<char>
    decreases level.len(),
{
    if level.len() <= 1 {
        level[0]
    } else {
        merkle_root(next_level(level))
    }
}

/// The sibling of entry `idx` on `level`, with the side it stands on.
pub open spec fn sibling_of(level: Seq<Seq<char>>, idx: int) -> (Seq<char>, Seq<char>) {
    if idx % 2 == 0 {
        (right_word(), if idx + 1 < level.len() { level[idx + 1] } else { level[idx] })
    } else {
        (left_word(), level[idx - 1])
    }
}

/// The siblings met on the way from entry `idx` of `level` up to the root.
pub open spec fn merkle_path(level: Seq<Seq<char>>, idx: int) -> Seq<(Seq<char>, Seq<char>)>
    decreases level.len(),
{
    if level.len() <= 1 {
        seq![]
    } else {
        seq![sibling_of(level, idx)] + merkle_path(next_level(level), idx / 2)
    }
}

/// Folds `siblings` into `running`; `None` when a position is neither
/// "left" nor "right".
pub open spec fn fold_siblings(running: Seq<char>, siblings: Seq<(Seq<char>, Seq<char>)>) -> Option<Seq<char>>
    decreases siblings.len(),
{
    if siblings.len() == 0 {
        Some(running)
    } else {
        let (position, digest) = siblings[0];
        if position == left_word() {
            fold_siblings(combine_spec(digest, running), siblings.drop_first())
        } else if position == right_word() {
            fold_siblings(combine_spec(running, digest), siblings.drop_first())
        } else {
            None
        }
    }
}

/// Combines two digests: SHA-256 of `left|right`, in hexadecimal.
pub fn combine_hash(left: &str, right: &str) -> (digest: String)
    ensures
        digest@ == combine_spec(left@, right@),
{
    let joined = join3(left, "|", right);
    proof {
        reveal_strlit("|");
        assert(joined@ =~= left@ + seq!['|'] + right@);
    }
    sha256_hex_digest(joined.as_str().as_bytes())
}

/// 0 for "left", 1 for "right", 2 for any other position word.
fn side_of(position: &str) -> (side: u8)
    ensures
        side == 0 <==> position@ == left_word(),
        side == 1 <==> position@ == right_word(),
        side <= 2,
{
    proof {
        reveal_strlit("left");
        reveal_strlit("right");
        assert("left"@ =~= left_word());
        assert("right"@ =~= right_word());
        assert(left_word()[0] != right_word()[0]);
    }
    if text_eq(position, "left") {
        0
    } else if text_eq(position, "right") {
        1
    } else {
        2
    }
}

/// Folds a sibling path into `start`; `None` on a position that is neither
/// "left" nor "right".
pub fn fold_path(start: &str, siblings: &Vec<(String, String)>) -> (folded: Option<String>)
    ensures
        match folded {
            Some(r) => fold_siblings(start@, pairs_view(siblings@)) == Some(r@),
            None => fold_siblings(start@, pairs_view(siblings@)) is None,
        },
{
    let ghost all = pairs_view(siblings@);
    let mut running = String::from_str(start);
    assert(all.skip(0) =~= all);
    let mut i: usize = 0;
    while i < siblings.len()
        invariant
            0 <= i <= siblings@.len(),
            all == pairs_view(siblings@),
            fold_siblings(start@, all) == fold_siblings(running@, all.skip(i as int)),
        decreases siblings@.len() - i,
    {
        let position = &siblings[i].0;
        let digest = &siblings[i].1;
        let ghost rest = all.skip(i as int);
        assert(rest[0] == (position@, digest@));
        assert(rest.drop_first() =~= all.skip(i + 1));
        let side = side_of(position.as_str());
        if side == 0 {
            running = combine_hash(digest.as_str(), running.as_str());
        } else if side == 1 {
            running = combine_hash(running.as_str(), digest.as_str());
        } else {
            return None;
        }
        i = i + 1;
    }
    assert(all.skip(i as int).len() == 0);
    Some(running)
}

/// Law: the sibling path of any leaf folds up to the tree's root.
pub proof fn lemma_path_reaches_root(level: Seq<Seq<char>>, idx: int)
    requires
        0 <= idx < level.len(),
    ensures
        fold_siblings(level[idx], merkle_path(level, idx)) == Some(merkle_root(level)),
    decreases level.len(),
{
    if level.len() <= 1 {
    } else {
        let up = next_level(level);
        let path = merkle_path(level, idx);
        let rest = merkle_path(up, idx / 2);
        assert(path[0] == sibling_of(level, idx));
        assert(path.drop_first() =~= rest);
        let q = idx / 2;
        if idx % 2 == 0 {
            assert(2 * q == idx);
            assert(combine_spec(level[idx], sibling_of(level, idx).1) == up[q]);
        } else {
            assert(2 * q == idx - 1);
            assert(combine_spec(level[idx - 1], level[idx]) == up[q]);
        }
        assert(left_word() != right_word()) by {
            assert(left_word()[0] != right_word()[0]);
        }
        lemma_path_reaches_root(up, q);
    }
}

/// The levels of a tree, lowest first, as character sequences.
pub open spec fn tree_view(tree: Seq<Vec<String>>) -> Seq<Seq<Seq<char>>> {
    tree.map_values(|level: Vec<String>| strings_view(level@))
}

/// `levels` are the levels of the tree over `levels[0]`, up to the root.
pub open spec fn is_tree(levels: Seq<Seq<Seq<char>>>) -> bool {
    &&& levels.len() >= 1
    &&& levels[levels.len() - 1].len() == 1
    &&& forall|j: int|
        0 <= j < levels.len() - 1 ==> #[trigger] levels[j].len() > 1 && levels[j + 1] == next_level(levels[j])
}

proof fn lemma_tree_root(levels: Seq<Seq<Seq<char>>>, j: int)
    requires
        is_tree(levels),
        0 <= j < levels.len(),
    ensures
        merkle_root(levels[j]) == levels[levels.len() - 1][0],
    decreases levels.len() - j,
{
    if j < levels.len() - 1 {
        assert(levels[j].len() > 1);
        lemma_tree_root(levels, j + 1);
    }
}

proof fn lemma_next_level_len(level: Seq<Seq<char>>)
    requires
        level.len() > 1,
    ensures
        next_level(level).len() < level.len(),
        next_level(level).len() >= 1,
{
}

/// A copy of a list of strings.
pub fn copy_strings(v: &Vec<String>) -> (c: Vec<String>)
    ensures
        c@ == v@,
{
    let mut c: Vec<String> = Vec::new();
    let mut i: usize = 0;
    while i < v.len()
        invariant
            0 <= i <= v@.len(),
            c@ == v@.subrange(0, i as int),
        decreases v@.len() - i,
    {
        c.push(v[i].clone());
        assert(c@ =~= v@.subrange(0, i + 1));
        i = i + 1;
    }
    assert(c@ =~= v@);
    c
}

/// The level above `level`, computed.
fn compute_next_level(level: &Vec<String>) -> (next: Vec<String>)
    requires
        level@.len() > 1,
    ensures
        strings_view(next@) == next_level(strings_view(level@)),
{
    let ghost lv = strings_view(level@);
    let n = level.len();
    let mut next: Vec<String> = Vec::new();
    let half = n / 2 + n % 2;
    let mut q: usize = 0;
    while q < half
        invariant
            n == level@.len() > 1,
            half == (n + 1) / 2,
            lv == strings_view(level@),
            q <= half,
            next@.len() == q,
            forall|t: int| 0 <= t < q ==> #[trigger] next@[t]@ == next_level(lv)[t],
        decreases half - q,
    {
        let i = 2 * q;
        let left = &level[i];
        let digest = if i + 1 < n {
            combine_hash(left.as_str(), level[i + 1].as_str())
        } else {
            combine_hash(left.as_str(), left.as_str())
        };
        assert(digest@ == next_level(lv)[q as int]);
        next.push(digest);
        q = q + 1;
    }
    assert(strings_view(next@) =~= next_level(lv));
    next
}

/// All levels of the hash tree over non-empty `leaves`, lowest first.
pub fn build_levels(leaves: &Vec<String>) -> (tree: Vec<Vec<String>>)
    requires
        leaves@.len() >= 1,
    ensures
        is_tree(tree_view(tree@)),
        tree_view(tree@)[0] == strings_view(leaves@),
{
    let mut tree: Vec<Vec<String>> = Vec::new();
    tree.push(copy_strings(leaves));
    while tree[tree.len() - 1].len() > 1
        invariant
            tree@.len() >= 1,
            tree_view(tree@)[0] == strings_view(leaves@),
            tree@[tree@.len() - 1]@.len() >= 1,
            forall|j: int|
                0 <= j < tree@.len() - 1 ==> #[trigger] tree_view(tree@)[j].len() > 1
                    && tree_view(tree@)[j + 1] == next_level(tree_view(tree@)[j]),
        decreases tree@[tree@.len() - 1]@.len(),
    {
        let ghost before = tree@;
        let next = compute_next_level(&tree[tree.len() - 1]);
        proof {
            lemma_next_level_len(strings_view(before[before.len() - 1]@));
        }
        tree.push(next);
        proof {
            assert forall|j: int| 0 <= j < tree@.len() - 1 implies #[trigger] tree_view(tree@)[j].len() > 1
                && tree_view(tree@)[j + 1] == next_level(tree_view(tree@)[j]) by {
                if j < before.len() - 1 {
                    assert(tree@[j] == before[j]);
                    assert(tree@[j + 1] == before[j + 1]);
                    assert(tree_view(before)[j + 1] == next_level(tree_view(before)[j]));
                } else {
                    assert(tree@[j] == before[j]);
                }
            }
            assert(tree@[0] == before[0]);
        }
    }
    tree
}

/// The sibling path of leaf `position` in a built tree.
pub fn path_in_tree(tree: &Vec<Vec<String>>, position: usize) -> (siblings: Vec<(String, String)>)
    requires
        is_tree(tree_view(tree@)),
        position < tree@[0]@.len(),
    ensures
        pairs_view(siblings@) == merkle_path(tree_view(tree@)[0], position as int),
{
    let ghost tv = tree_view(tree@);
    let mut siblings: Vec<(String, String)> = Vec::new();
    let mut index = position;
    let mut j: usize = 0;
    let top = tree.len() - 1;
    while j < top
        invariant
            tv == tree_view(tree@),
            is_tree(tv),
            top == tv.len() - 1,
            0 <= j <= top,
            index < tv[j as int].len(),
            pairs_view(siblings@) + merkle_path(tv[j as int], index as int) == merkle_path(tv[0], position as int),
        decreases top - j,
    {
        let level = &tree[j];
        let ghost lv = tv[j as int];
        assert(lv.len() > 1);
        let ghost before = siblings@;
        if index % 2 == 0 {
            let sib = if index + 1 < level.len() { index + 1 } else { index };
            siblings.push((String::from_str("right"), level[sib].clone()));
            proof {
                reveal_strlit("right");
                assert("right"@ =~= right_word());
            }
        } else {
            siblings.push((String::from_str("left"), level[index - 1].clone()));
            proof {
                reveal_strlit("left");
                assert("left"@ =~= left_word());
            }
        }
        proof {
            assert(pairs_view(siblings@) =~= pairs_view(before).push(sibling_of(lv, index as int)));
            assert(merkle_path(lv, index as int) == seq![sibling_of(lv, index as int)] + merkle_path(
                tv[j + 1],
                (index / 2) as int,
            ));
            assert(pairs_view(siblings@) + merkle_path(tv[j + 1], (index / 2) as int) =~= pairs_view(before)
                + merkle_path(lv, index as int));
        }
        index = index / 2;
        j = j + 1;
    }
    assert(merkle_path(tv[top as int], index as int) =~= seq![]);
    assert(pairs_view(siblings@) =~= pairs_view(siblings@) + merkle_path(tv[top as int], index as int));
    siblings
}

/// The root of a built tree is the root of its lowest level.
pub proof fn lemma_built_root(tree: Seq<Vec<String>>)
    requires
        is_tree(tree_view(tree)),
    ensures
        merkle_root(tree_view(tree)[0]) == tree_view(tree)[tree.len() - 1][0],
{
    lemma_tree_root(tree_view(tree), 0);
}


/// Law: the Merkle root of one digest is that digest; of more, it is the
/// root of the level above, whose entry `i` is the hex SHA-256 of entry
/// `2 i`, '|', and entry `2 i + 1` (entry `2 i` again when the level ends
/// there).
pub proof fn lemma_merkle_root_levels(level: Seq<Seq<char>>)
    requires
        level.len() >= 1,
    ensures
        level.len() == 1 ==> merkle_root(level) == level[0],
        level.len() >= 2 ==> merkle_root(level) == merkle_root(
            Seq::new(
                ((level.len() + 1) / 2) as nat,
                |i: int|
                    crate::hashing::sha256_hex(
                        vstd::utf8::encode_utf8(
                            level[2 * i] + "|"@ + (if 2 * i + 1 < level.len() {
                                level[2 * i + 1]
                            } else {
                                level[2 * i]
                            }),
                        ),
                    ),
            ),
        ),
        level.len() == 2 ==> merkle_root(level) == crate::hashing::sha256_hex(
            vstd::utf8::encode_utf8(level[0] + "|"@ + level[1]),
        ),
{
    reveal_strlit("|");
    if level.len() >= 2 {
        let up = Seq::new(
            ((level.len() + 1) / 2) as nat,
            |i: int|
                crate::hashing::sha256_hex(
                    vstd::utf8::encode_utf8(
                        level[2 * i] + "|"@ + (if 2 * i + 1 < level.len() {
                            level[2 * i + 1]
                        } else {
                            level[2 * i]
                        }),
                    ),
                ),
        );
        assert forall|i: int| 0 <= i < up.len() implies #[trigger] next_level(level)[i] == up[i] by {
            assert(level[2 * i] + seq!['|'] + partner(level, i) =~= level[2 * i] + "|"@ + (if 2 * i + 1 < level.len() {
                level[2 * i + 1]
            } else {
                level[2 * i]
            }));
        }
        assert(next_level(level) =~= up);
        if level.len() == 2 {
            assert(up.len() == 1);
            assert(merkle_root(up) == up[0]);
        }
    }
}

/// Law: checking a path takes one sibling at a time: a sibling marked
/// `left` goes before the running digest, one marked `right` after it
/// (hex SHA-256 of `left|right`), and any other mark fails the check.
pub proof fn lemma_fold_siblings_step(running: Seq<char>, siblings: Seq<(Seq<char>, Seq<char>)>)
    requires
        siblings.len() > 0,
    ensures
        siblings[0].0 == "left"@ ==> fold_siblings(running, siblings) == fold_siblings(
            crate::hashing::sha256_hex(vstd::utf8::encode_utf8(siblings[0].1 + "|"@ + running)),
            siblings.drop_first(),
        ),
        siblings[0].0 == "right"@ ==> fold_siblings(running, siblings) == fold_siblings(
            crate::hashing::sha256_hex(vstd::utf8::encode_utf8(running + "|"@ + siblings[0].1)),
            siblings.drop_first(),
        ),
        siblings[0].0 != "left"@ && siblings[0].0 != "right"@ ==> fold_siblings(running, siblings) is None,
{
    reveal_strlit("|");
    reveal_strlit("left");
    reveal_strlit("right");
    assert(left_word() =~= "left"@);
    assert(right_word() =~= "right"@);
    assert(siblings[0].1 + seq!['|'] + running =~= siblings[0].1 + "|"@ + running);
    assert(running + seq!['|'] + siblings[0].1 =~= running + "|"@ + siblings[0].1);
}

} // verus!
