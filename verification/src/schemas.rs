//! Core schema types: proof-of-resonance status, operator slots, the
//! validation of S7 route permutations, and knowledge context links.

use vstd::prelude::*;

use crate::text::push_decimal;

verus! {

/// Proof-of-resonance status of a memory item.
#[derive(Clone, Copy, Debug, PartialEq, Eq, Structural)]
pub enum PorStatus {
    /// Validation passed.
    Valid,
    /// Validation failed.
    Invalid,
    /// Not computed yet.
    Pending,
}

/// The seven operator slots of an S7 route.
#[derive(Clone, Copy, Debug, PartialEq, Eq, Structural)]
pub enum OperatorSlot {
    DK,
    SW,
    PI,
    WT,
    RES1,
    ADAPTER,
    RES2,
}

/// Schema validation failures.
pub enum SchemaError {
    InvalidRoute(String),
    InvalidDimension { expected: usize, got: usize },
    InvalidSpectral(String),
    Serialization(serde_json::Error),
}

/// The first defect met when a permutation is read from the front: an
/// index out of `0..7` (`(true, index)`) or an index seen before
/// (`(false, index)`); `None` when there is none.
pub open spec fn permutation_defect(perm: Seq<usize>) -> Option<(bool, usize)>
    decreases perm.len(),
{
    if perm.len() == 0 {
        None
    } else {
        match permutation_defect(perm.drop_last()) {
            Some(d) => Some(d),
            None => {
                let x = perm[perm.len() - 1];
                if x >= 7 {
                    Some((true, x))
                } else if perm.drop_last().contains(x) {
                    Some((false, x))
                } else {
                    None
                }
            },
        }
    }
}

/// The message of a route permutation that is not valid, if any.
pub open spec fn permutation_error(perm: Seq<usize>) -> Option<Seq<char>> {
    if perm.len() != 7 {
        Some("Permutation must have exactly 7 elements, got "@ + crate::text::decimal(perm.len()))
    } else {
        match permutation_defect(perm) {
            Some((true, x)) => Some("Invalid permutation index: "@ + crate::text::decimal(x as nat)),
            Some((false, x)) => Some("Duplicate permutation index: "@ + crate::text::decimal(x as nat)),
            None => None,
        }
    }
}

/// Law: a sequence has no defect exactly when its entries are below 7 and
/// pairwise distinct.
pub proof fn lemma_defect_free(perm: Seq<usize>)
    ensures
        permutation_defect(perm) is None <==> (perm.no_duplicates() && forall|i: int|
            0 <= i < perm.len() ==> #[trigger] perm[i] < 7),
    decreases perm.len(),
{
    if perm.len() > 0 {
        let front = perm.drop_last();
        lemma_defect_free(front);
        let x = perm[perm.len() - 1];
        if permutation_defect(perm) is None {
            assert forall|i: int, j: int| 0 <= i < perm.len() && 0 <= j < perm.len() && i != j implies perm[i]
                != perm[j] by {
                if i == perm.len() - 1 {
                    assert(front[j] == perm[j]);
                } else if j == perm.len() - 1 {
                    assert(front[i] == perm[i]);
                } else {
                    assert(front[i] == perm[i] && front[j] == perm[j]);
                }
            }
            assert forall|i: int| 0 <= i < perm.len() implies #[trigger] perm[i] < 7 by {
                if i < perm.len() - 1 {
                    assert(front[i] == perm[i]);
                }
            }
        }
        if perm.no_duplicates() && forall|i: int| 0 <= i < perm.len() ==> #[trigger] perm[i] < 7 {
            assert forall|i: int, j: int| 0 <= i < front.len() && 0 <= j < front.len() && i != j implies front[i]
                != front[j] by {
                assert(front[i] == perm[i] && front[j] == perm[j]);
            }
            assert forall|i: int| 0 <= i < front.len() implies #[trigger] front[i] < 7 by {
                assert(front[i] == perm[i]);
            }
            assert(x < 7);
            if front.contains(x) {
                let k = choose|k: int| 0 <= k < front.len() && front[k] == x;
                assert(perm[k] == perm[perm.len() - 1]);
            }
        }
    }
}

/// Law: a route permutation is accepted exactly when it is a permutation of
/// `0..7`.
pub proof fn lemma_route_permutation_valid(perm: Seq<usize>)
    ensures
        permutation_error(perm) is None <==> crate::permutation::is_permutation_of_range(perm, 7),
{
    lemma_defect_free(perm);
}

/// A defect met in a prefix is the first defect of the whole sequence.
proof fn lemma_defect_prefix(s: Seq<usize>, k: int)
    requires
        0 <= k <= s.len(),
        permutation_defect(s.subrange(0, k)) is Some,
    ensures
        permutation_defect(s) == permutation_defect(s.subrange(0, k)),
    decreases s.len() - k,
{
    if k < s.len() {
        let t = s.subrange(0, k + 1);
        assert(t.drop_last() =~= s.subrange(0, k));
        lemma_defect_prefix(s, k + 1);
    } else {
        assert(s.subrange(0, k) =~= s);
    }
}

/// The message text `head` followed by `n` in decimal.
fn numbered_message(head: &str, n: u64) -> (s: String)
    ensures
        s@ == head@ + crate::text::decimal(n as nat),
{
    let mut s = String::from_str(head);
    push_decimal(&mut s, n);
    s
}

/// Checks a route permutation: seven entries, each in `0..7`, none
/// repeated; the error names the first defect met from the front.
pub fn validate_permutation(permutation: &Vec<usize>) -> (r: Result<(), SchemaError>)
    ensures
        match permutation_error(permutation@) {
            None => r is Ok,
            Some(m) => r matches Err(SchemaError::InvalidRoute(s)) && s@ == m,
        },
{
    if permutation.len() != 7 {
        return Err(
            SchemaError::InvalidRoute(
                numbered_message("Permutation must have exactly 7 elements, got ", permutation.len() as u64),
            ),
        );
    }
    let mut seen: Vec<bool> = vec![false, false, false, false, false, false, false];
    let mut i: usize = 0;
    while i < 7
        invariant
            permutation@.len() == 7,
            seen@.len() == 7,
            0 <= i <= 7,
            permutation_defect(permutation@.subrange(0, i as int)) is None,
            forall|v: int| 0 <= v < 7 ==> (#[trigger] seen@[v] <==> permutation@.subrange(0, i as int).contains(v as usize)),
        decreases 7 - i,
    {
        let idx = permutation[i];
        let ghost front = permutation@.subrange(0, i as int);
        let ghost next = permutation@.subrange(0, i + 1);
        proof {
            assert(next.drop_last() =~= front);
            assert(next[next.len() - 1] == idx);
        }
        if idx >= 7 {
            proof {
                lemma_defect_prefix(permutation@, i + 1);
            }
            return Err(
                SchemaError::InvalidRoute(numbered_message("Invalid permutation index: ", idx as u64)),
            );
        }
        if seen[idx] {
            proof {
                assert(front.contains(idx));
                lemma_defect_prefix(permutation@, i + 1);
            }
            return Err(
                SchemaError::InvalidRoute(numbered_message("Duplicate permutation index: ", idx as u64)),
            );
        }
        seen.set(idx, true);
        proof {
            assert(!front.contains(idx));
            assert forall|v: int| 0 <= v < 7 implies (#[trigger] seen@[v] <==> next.contains(v as usize)) by {
                if next.contains(v as usize) {
                    let k = choose|k: int| 0 <= k < next.len() && next[k] == v as usize;
                    if k < i {
                        assert(front[k] == v as usize);
                    }
                }
                if front.contains(v as usize) {
                    let k = choose|k: int| 0 <= k < front.len() && front[k] == v as usize;
                    assert(next[k] == v as usize);
                }
            }
        }
        i = i + 1;
    }
    assert(permutation@.subrange(0, 7) =~= permutation@);
    Ok(())
}

/// The first sigma value outside `1..=7`, if any.
pub open spec fn first_bad_sigma(sigma: Seq<u8>) -> Option<u8>
    decreases sigma.len(),
{
    if sigma.len() == 0 {
        None
    } else {
        match first_bad_sigma(sigma.drop_last()) {
            Some(v) => Some(v),
            None => {
                let x = sigma[sigma.len() - 1];
                if x < 1 || x > 7 {
                    Some(x)
                } else {
                    None
                }
            },
        }
    }
}

/// The message of a route whose fields do not fit, if any: the
/// permutation must have seven entries; the sigma, when present, seven
/// values in `1..=7`; the slot list, when present, seven slots.
pub open spec fn route_fields_error(perm_len: nat, sigma: Option<Seq<u8>>, slots_len: Option<nat>) -> Option<Seq<char>> {
    if perm_len != 7 {
        Some("Permutation must have exactly 7 elements, got "@ + crate::text::decimal(perm_len))
    } else if sigma is Some && sigma->0.len() != 7 {
        Some("Sigma must have exactly 7 elements, got "@ + crate::text::decimal(sigma->0.len()))
    } else if sigma is Some && first_bad_sigma(sigma->0) is Some {
        Some("Sigma values must be in [1..8), got "@ + crate::text::decimal(first_bad_sigma(sigma->0)->0 as nat))
    } else if slots_len is Some && slots_len->0 != 7 {
        Some("Permutation slots must have exactly 7 elements, got "@ + crate::text::decimal(slots_len->0))
    } else {
        None
    }
}

/// The first sigma value outside `1..=7`.
fn find_bad_sigma(sigma: &Vec<u8>) -> (bad: Option<u8>)
    ensures
        bad == first_bad_sigma(sigma@),
{
    let mut i: usize = 0;
    while i < sigma.len()
        invariant
            0 <= i <= sigma@.len(),
            first_bad_sigma(sigma@.subrange(0, i as int)) is None,
        decreases sigma@.len() - i,
    {
        let v = sigma[i];
        let ghost next = sigma@.subrange(0, i + 1);
        proof {
            assert(next.drop_last() =~= sigma@.subrange(0, i as int));
        }
        if v < 1 || v > 7 {
            proof {
                lemma_bad_sigma_prefix(sigma@, i + 1);
            }
            return Some(v);
        }
        i = i + 1;
    }
    assert(sigma@.subrange(0, sigma@.len() as int) =~= sigma@);
    None
}

proof fn lemma_bad_sigma_prefix(s: Seq<u8>, k: int)
    requires
        0 <= k <= s.len(),
        first_bad_sigma(s.subrange(0, k)) is Some,
    ensures
        first_bad_sigma(s) == first_bad_sigma(s.subrange(0, k)),
    decreases s.len() - k,
{
    if k < s.len() {
        let t = s.subrange(0, k + 1);
        assert(t.drop_last() =~= s.subrange(0, k));
        lemma_bad_sigma_prefix(s, k + 1);
    } else {
        assert(s.subrange(0, k) =~= s);
    }
}

/// Checks the fields of a route specification (see `route_fields_error`).
pub fn validate_route_fields(
    permutation: &Vec<usize>,
    sigma: Option<&Vec<u8>>,
    permutation_slots: Option<&Vec<OperatorSlot>>,
) -> (r: Result<(), SchemaError>)
    ensures
        match route_fields_error(
            permutation@.len(),
            match sigma {
                Some(v) => Some(v@),
                None => None,
            },
            match permutation_slots {
                Some(v) => Some(v@.len()),
                None => None,
            },
        ) {
            None => r is Ok,
            Some(m) => r matches Err(SchemaError::InvalidRoute(s)) && s@ == m,
        },
{
    if permutation.len() != 7 {
        return Err(
            SchemaError::InvalidRoute(
                numbered_message("Permutation must have exactly 7 elements, got ", permutation.len() as u64),
            ),
        );
    }
    if let Some(sig) = sigma {
        if sig.len() != 7 {
            return Err(
                SchemaError::InvalidRoute(numbered_message("Sigma must have exactly 7 elements, got ", sig.len() as u64)),
            );
        }
        if let Some(v) = find_bad_sigma(sig) {
            return Err(SchemaError::InvalidRoute(numbered_message("Sigma values must be in [1..8), got ", v as u64)));
        }
    }
    if let Some(slots) = permutation_slots {
        if slots.len() != 7 {
            return Err(
                SchemaError::InvalidRoute(
                    numbered_message("Permutation slots must have exactly 7 elements, got ", slots.len() as u64),
                ),
            );
        }
    }
    Ok(())
}

/// The 0-based permutation of a 1-based sigma.
pub fn sigma_to_permutation(sigma: &Vec<u8>) -> (permutation: Vec<usize>)
    requires
        forall|i: int| 0 <= i < sigma@.len() ==> #[trigger] sigma@[i] >= 1,
    ensures
        permutation@.len() == sigma@.len(),
        forall|i: int| 0 <= i < sigma@.len() ==> #[trigger] permutation@[i] == sigma@[i] - 1,
{
    let mut permutation: Vec<usize> = Vec::new();
    let mut i: usize = 0;
    while i < sigma.len()
        invariant
            0 <= i <= sigma@.len(),
            forall|t: int| 0 <= t < sigma@.len() ==> #[trigger] sigma@[t] >= 1,
            permutation@.len() == i,
            forall|t: int| 0 <= t < i ==> #[trigger] permutation@[t] == sigma@[t] - 1,
        decreases sigma@.len() - i,
    {
        let x = sigma[i];
        permutation.push((x - 1) as usize);
        i = i + 1;
    }
    permutation
}

/// Links of a knowledge object to HDAG nodes, parents and children.
pub struct KnowledgeContext {
    pub hdag_refs: Vec<String>,
    pub parents: Vec<String>,
    pub children: Vec<String>,
}

impl KnowledgeContext {
    /// A context without links.
    pub fn new() -> (context: KnowledgeContext)
        ensures
            context.hdag_refs@.len() == 0,
            context.parents@.len() == 0,
            context.children@.len() == 0,
    {
        KnowledgeContext { hdag_refs: Vec::new(), parents: Vec::new(), children: Vec::new() }
    }

    /// Adds a link to an HDAG node.
    pub fn add_hdag_ref(&mut self, node_id: String)
        ensures
            final(self).hdag_refs@ == old(self).hdag_refs@.push(node_id),
            final(self).parents@ == old(self).parents@,
            final(self).children@ == old(self).children@,
    {
        self.hdag_refs.push(node_id);
    }

    /// Adds a parent link.
    pub fn add_parent(&mut self, parent_id: String)
        ensures
            final(self).parents@ == old(self).parents@.push(parent_id),
            final(self).hdag_refs@ == old(self).hdag_refs@,
            final(self).children@ == old(self).children@,
    {
        self.parents.push(parent_id);
    }

    /// Adds a child link.
    pub fn add_child(&mut self, child_id: String)
        ensures
            final(self).children@ == old(self).children@.push(child_id),
            final(self).hdag_refs@ == old(self).hdag_refs@,
            final(self).parents@ == old(self).parents@,
    {
        self.children.push(child_id);
    }
}


/// The number of components of a memory vector.
pub const MEMORY_DIMENSION: usize = 8;

/// Checks that a memory vector has `len` == 8 components; otherwise the
/// error gives the expected and the actual count.
pub fn check_memory_dimension(len: usize) -> (r: Result<(), SchemaError>)
    ensures
        r is Ok <==> len == 8,
        len != 8 ==> (r matches Err(SchemaError::InvalidDimension { expected, got }) && expected == 8 && got == len),
{
    if len != MEMORY_DIMENSION {
        return Err(SchemaError::InvalidDimension { expected: MEMORY_DIMENSION, got: len });
    }
    Ok(())
}

} // verus!
