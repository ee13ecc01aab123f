//! Operator routing through the Metatron topology: operator names, the
//! operator order a permutation selects, the extension of seven-slot
//! permutations to the thirteen nodes, and the symmetry group a route
//! belongs to.

use vstd::prelude::*;

verus! {

/// Operators that can be routed through the topology.
#[derive(Clone, Copy, Debug, PartialEq, Eq, Structural)]
pub enum OperatorType {
    /// Double impulse.
    DK,
    /// Threshold sweep.
    SW,
    /// Path-invariance projection.
    PI,
    /// Scale weight transfer.
    WT,
}

/// The display name of an operator.
pub open spec fn operator_name(op: OperatorType) -> Seq<char> {
    match op {
        OperatorType::DK => "DoubleKick"@,
        OperatorType::SW => "Sweep"@,
        OperatorType::PI => "PathInvariance"@,
        OperatorType::WT => "WeightTransfer"@,
    }
}

impl OperatorType {
    /// The display name of the operator.
    pub fn value(&self) -> (name: &'static str)
        ensures
            name@ == operator_name(*self),
    {
        match self {
            OperatorType::DK => "DoubleKick",
            OperatorType::SW => "Sweep",
            OperatorType::PI => "PathInvariance",
            OperatorType::WT => "WeightTransfer",
        }
    }
}

/// The sum of a sequence of indices.
pub open spec fn index_sum(s: Seq<usize>) -> nat
    decreases s.len(),
{
    if s.len() == 0 {
        0
    } else {
        index_sum(s.drop_last()) + s[s.len() - 1] as nat
    }
}

/// The operator order selected by signature `sig` (the index sum mod 4).
pub open spec fn operator_order(sig: nat) -> Seq<OperatorType> {
    if sig == 0 {
        seq![OperatorType::DK, OperatorType::SW, OperatorType::PI, OperatorType::WT]
    } else if sig == 1 {
        seq![OperatorType::SW, OperatorType::DK, OperatorType::WT, OperatorType::PI]
    } else if sig == 2 {
        seq![OperatorType::PI, OperatorType::WT, OperatorType::DK, OperatorType::SW]
    } else {
        seq![OperatorType::WT, OperatorType::PI, OperatorType::SW, OperatorType::DK]
    }
}

/// The operator order for a permutation: chosen by the sum of its entries
/// modulo 4.  Every order holds each of the four operators exactly once.
pub fn generate_operator_sequence(permutation: &Vec<usize>) -> (sequence: Vec<OperatorType>)
    requires
        index_sum(permutation@) <= usize::MAX,
    ensures
        sequence@ == operator_order(index_sum(permutation@) % 4),
        sequence@.len() == 4,
        sequence@.no_duplicates(),
        forall|op: OperatorType| #[trigger] sequence@.contains(op),
{
    let mut sum: usize = 0;
    let mut i: usize = 0;
    while i < permutation.len()
        invariant
            0 <= i <= permutation@.len(),
            index_sum(permutation@) <= usize::MAX,
            sum == index_sum(permutation@.subrange(0, i as int)),
        decreases permutation@.len() - i,
    {
        proof {
            let next = permutation@.subrange(0, i + 1);
            assert(next.drop_last() =~= permutation@.subrange(0, i as int));
            lemma_index_sum_prefix(permutation@, i + 1);
        }
        sum = sum + permutation[i];
        i = i + 1;
    }
    assert(permutation@.subrange(0, permutation@.len() as int) =~= permutation@);
    let signature = sum % 4;
    let sequence = if signature == 0 {
        vec![OperatorType::DK, OperatorType::SW, OperatorType::PI, OperatorType::WT]
    } else if signature == 1 {
        vec![OperatorType::SW, OperatorType::DK, OperatorType::WT, OperatorType::PI]
    } else if signature == 2 {
        vec![OperatorType::PI, OperatorType::WT, OperatorType::DK, OperatorType::SW]
    } else {
        vec![OperatorType::WT, OperatorType::PI, OperatorType::SW, OperatorType::DK]
    };
    proof {
        assert(sequence@ =~= operator_order(index_sum(permutation@) % 4));
        let s = sequence@;
        assert forall|op: OperatorType| #[trigger] s.contains(op) by {
            match op {
                OperatorType::DK => {
                    if signature == 0 { assert(s[0] == op); } else if signature == 1 { assert(s[1] == op); } else if signature == 2 { assert(s[2] == op); } else { assert(s[3] == op); }
                },
                OperatorType::SW => {
                    if signature == 0 { assert(s[1] == op); } else if signature == 1 { assert(s[0] == op); } else if signature == 2 { assert(s[3] == op); } else { assert(s[2] == op); }
                },
                OperatorType::PI => {
                    if signature == 0 { assert(s[2] == op); } else if signature == 1 { assert(s[3] == op); } else if signature == 2 { assert(s[0] == op); } else { assert(s[1] == op); }
                },
                OperatorType::WT => {
                    if signature == 0 { assert(s[3] == op); } else if signature == 1 { assert(s[2] == op); } else if signature == 2 { assert(s[1] == op); } else { assert(s[0] == op); }
                },
            }
        }
    }
    sequence
}

/// Prefix sums never exceed the whole sum.
proof fn lemma_index_sum_prefix(s: Seq<usize>, k: int)
    requires
        0 <= k <= s.len(),
    ensures
        index_sum(s.subrange(0, k)) <= index_sum(s),
    decreases s.len() - k,
{
    if k < s.len() {
        lemma_index_sum_prefix(s, k + 1);
        let t = s.subrange(0, k + 1);
        assert(t.drop_last() =~= s.subrange(0, k));
    } else {
        assert(s.subrange(0, k) =~= s);
    }
}

/// The nodes 8 through 13 that extend a seven-slot permutation.
pub open spec fn upper_nodes() -> Seq<usize> {
    seq![8usize, 9, 10, 11, 12, 13]
}

/// The identity route over the thirteen nodes, numbered from 1.
pub open spec fn identity_route() -> Seq<usize> {
    Seq::new(13, |i: int| (i + 1) as usize)
}

/// A seven-slot permutation extended by the nodes 8 through 13.
pub fn extend_to_thirteen(permutation: &Vec<usize>) -> (extended: Vec<usize>)
    ensures
        extended@ == permutation@ + upper_nodes(),
{
    let mut extended = permutation.clone();
    let mut node: usize = 8;
    while node <= 13
        invariant
            8 <= node <= 14,
            extended@ == permutation@ + upper_nodes().subrange(0, node - 8),
        decreases 14 - node,
    {
        extended.push(node);
        assert(extended@ =~= permutation@ + upper_nodes().subrange(0, node - 7));
        node = node + 1;
    }
    assert(upper_nodes().subrange(0, 6) =~= upper_nodes());
    extended
}

/// Equality of two index sequences.
fn same_indices(a: &Vec<usize>, b: &Vec<usize>) -> (same: bool)
    ensures
        same == (a@ == b@),
{
    if a.len() != b.len() {
        return false;
    }
    let mut i: usize = 0;
    while i < a.len()
        invariant
            a@.len() == b@.len(),
            0 <= i <= a@.len(),
            forall|t: int| 0 <= t < i ==> a@[t] == b@[t],
        decreases a@.len() - i,
    {
        if a[i] != b[i] {
            return false;
        }
        i = i + 1;
    }
    assert(a@ =~= b@);
    true
}

/// Some member of `group`, extended to thirteen nodes, is `route`.
pub open spec fn extends_member(group: Seq<Vec<usize>>, route: Seq<usize>) -> bool {
    exists|g: int| 0 <= g < group.len() && #[trigger] group[g]@ + upper_nodes() == route
}

/// The name of the symmetry group of a route: `Identity`, then `C6` or
/// `D6` when it extends a member of that subgroup, and `S7` otherwise.
pub open spec fn symmetry_group_name(route: Seq<usize>, c6: Seq<Vec<usize>>, d6: Seq<Vec<usize>>) -> Seq<char> {
    if route == identity_route() {
        "Identity"@
    } else if extends_member(c6, route) {
        "C6"@
    } else if extends_member(d6, route) {
        "D6"@
    } else {
        "S7"@
    }
}

/// Whether some member of `group`, extended, is `route`.
fn find_extended_member(group: &Vec<Vec<usize>>, route: &Vec<usize>) -> (found: bool)
    ensures
        found == extends_member(group@, route@),
{
    let mut g: usize = 0;
    while g < group.len()
        invariant
            0 <= g <= group@.len(),
            forall|t: int| 0 <= t < g ==> #[trigger] group@[t]@ + upper_nodes() != route@,
        decreases group@.len() - g,
    {
        let extended = extend_to_thirteen(&group[g]);
        if same_indices(&extended, route) {
            return true;
        }
        g = g + 1;
    }
    false
}

/// The symmetry group of a route, given the members of the C6 and D6
/// subgroups as seven-slot permutations.
pub fn identify_symmetry_group(permutation: &Vec<usize>, c6: &Vec<Vec<usize>>, d6: &Vec<Vec<usize>>) -> (name: String)
    ensures
        name@ == symmetry_group_name(permutation@, c6@, d6@),
{
    let mut identity: Vec<usize> = Vec::new();
    let mut node: usize = 1;
    while node <= 13
        invariant
            1 <= node <= 14,
            identity@ == identity_route().subrange(0, node - 1),
        decreases 14 - node,
    {
        identity.push(node);
        assert(identity@ =~= identity_route().subrange(0, node as int));
        node = node + 1;
    }
    assert(identity_route().subrange(0, 13) =~= identity_route());
    if same_indices(permutation, &identity) {
        return String::from_str("Identity");
    }
    if find_extended_member(c6, permutation) {
        return String::from_str("C6");
    }
    if find_extended_member(d6, permutation) {
        return String::from_str("D6");
    }
    String::from_str("S7")
}

} // verus!
