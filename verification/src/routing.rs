//! Deterministic route selection in the S7 permutation space: the digest
//! of a seed and its metrics picks one of the 5040 routes, which gets a
//! content-addressed id and its operator slots.
//!
//! Mesh scores are floating point; their rendered text and the offset they
//! contribute come in from the caller.

use vstd::prelude::*;
use crate::hashing::{sha256_bytes, sha256_hex_digest};
use crate::order::sorted_order;
use crate::s7::generate_permutations;
use crate::schemas::OperatorSlot;
use crate::s7_space::generate_s7_permutations;
use crate::text::{join3, push_char, push_decimal, push_zero_padded};

verus! {

/// Failures of the router.
pub enum RouterError {
    InvalidMetrics(String),
    Selection(String),
    Adapter(String),
}

/// The number of routes in the S7 space.
pub open spec fn route_count() -> int {
    5040
}

/// The first eight bytes read as a little-endian integer.
pub open spec fn le_u64_value(b: Seq<u8>) -> int {
    b[0] + 256 * b[1] + 65536 * b[2] + 16777216 * b[3] + 4294967296 * b[4] + 1099511627776 * b[5]
        + 281474976710656 * b[6] + 72057594037927936 * b[7]
}

/// The first sixteen bytes read as a big-endian integer.
pub open spec fn be_u128_value(b: Seq<u8>) -> int {
    b[15] + 256 * b[14] + 65536 * b[13] + 16777216 * b[12] + 4294967296 * b[11] + 1099511627776 * b[10]
        + 281474976710656 * b[9] + 72057594037927936 * b[8] + 18446744073709551616 * b[7]
        + 4722366482869645213696 * b[6] + 1208925819614629174706176 * b[5]
        + 309485009821345068724781056 * b[4] + 79228162514264337593543950336 * b[3]
        + 20282409603651670423947251286016 * b[2] + 5192296858534827628530496329220096 * b[1]
        + 1329227995784915872903807060280344576 * b[0]
}

/// `u64::from_le_bytes` of the first eight bytes.
fn le_u64(b: &Vec<u8>) -> (v: u64)
    requires
        b@.len() >= 8,
    ensures
        v == le_u64_value(b@),
{
    let b0 = b[0] as u64;
    let b1 = b[1] as u64;
    let b2 = b[2] as u64;
    let b3 = b[3] as u64;
    let b4 = b[4] as u64;
    let b5 = b[5] as u64;
    let b6 = b[6] as u64;
    let b7 = b[7] as u64;
    b0 + 256 * b1 + 65536 * b2 + 16777216 * b3 + 4294967296 * b4 + 1099511627776 * b5 + 281474976710656 * b6
        + 72057594037927936 * b7
}

/// `u128::from_be_bytes` of the first sixteen bytes.
fn be_u128(b: &Vec<u8>) -> (v: u128)
    requires
        b@.len() >= 16,
    ensures
        v == be_u128_value(b@),
{
    let mut v: u128 = 0;
    let mut i: usize = 0;
    while i < 16
        invariant
            b@.len() >= 16,
            0 <= i <= 16,
            v == be_prefix(b@, i as int),
            v < pow256(i as int),
        decreases 16 - i,
    {
        proof {
            lemma_pow256_step(i as int);
            lemma_pow256_step(i + 1);
        }
        assert(v * 256 + b@[i as int] < pow256(i + 1) && pow256(i + 1) <= 340282366920938463463374607431768211456) by (nonlinear_arith)
            requires
                v < pow256(i as int),
                pow256(i + 1) == 256 * pow256(i as int),
                pow256(i + 1) <= 340282366920938463463374607431768211456,
                b@[i as int] < 256,
        ;
        v = v * 256 + b[i] as u128;
        i = i + 1;
    }
    proof {
        lemma_be_prefix_16(b@);
    }
    v
}

/// 256 to the power `k`.
pub open spec fn pow256(k: int) -> int
    decreases k,
{
    if k <= 0 {
        1
    } else {
        256 * pow256(k - 1)
    }
}

proof fn lemma_pow256_step(k: int)
    requires
        0 <= k <= 16,
    ensures
        pow256(k + 1) == 256 * pow256(k),
        pow256(k) <= pow256(16),
        pow256(16) == 340282366920938463463374607431768211456,
    decreases 16 - k,
{
    reveal_with_fuel(pow256, 17);
    if k < 16 {
        lemma_pow256_step(k + 1);
    }
}

/// The first `k` bytes read as a big-endian integer.
pub open spec fn be_prefix(b: Seq<u8>, k: int) -> int
    decreases k,
{
    if k <= 0 {
        0
    } else {
        be_prefix(b, k - 1) * 256 + b[k - 1]
    }
}

proof fn lemma_be_prefix_16(b: Seq<u8>)
    requires
        b.len() >= 16,
    ensures
        be_prefix(b, 16) == be_u128_value(b),
{
    reveal_with_fuel(be_prefix, 17);
}

/// The bytes of a text.
pub open spec fn utf8(s: Seq<char>) -> Seq<u8> {
    vstd::utf8::encode_utf8(s)
}

/// The position in the S7 space that a seed, a rendered mesh score and
/// the score's offset `k` select: the first eight digest bytes of `seed`
/// followed by the score text, read little-endian, plus `k`, modulo 5040.
pub open spec fn score_route_index(seed: Seq<char>, score_text: Seq<char>, k: int) -> int {
    let digest = crate::hashing::sha256_digest(utf8(seed + score_text));
    (le_u64_value(digest) + k) % route_count()
}

/// A route chosen from the S7 space.
pub struct RouteChoice {
    /// `route_` and the index, padded to four digits.
    pub route_id: String,
    /// The permutation of `0..7` at that index.
    pub permutation: Vec<usize>,
}

/// Selects a route from the S7 space for a seed, its rendered mesh score
/// (the score with six decimals) and the score's offset `k`.
pub fn select_scored_route(seed: &str, score_text: &str, k: usize) -> (choice: RouteChoice)
    ensures
        choice.route_id@ == "route_"@ + crate::text::zero_padded(score_route_index(seed@, score_text@, k as int) as nat, 4),
        choice.permutation@ == crate::s7_space::s7_sequence()[score_route_index(seed@, score_text@, k as int)],
        crate::permutation::is_permutation_of_range(choice.permutation@, 7),
{
    let perms = generate_s7_permutations();
    let material = join3(seed, "", score_text);
    proof {
        reveal_strlit("");
        assert(material@ =~= seed@ + score_text@);
    }
    let digest = sha256_bytes(material.as_str().as_bytes());
    let hash_value = le_u64(&digest);
    let n = perms.len();
    let index = (((hash_value % 5040) as usize) + k % n) % n;
    proof {
        vstd::arithmetic::div_mod::lemma_add_mod_noop(hash_value as int, k as int, 5040);
        assert(index == (le_u64_value(digest@) + k) % route_count());
    }
    let permutation = perms[index].clone();
    proof {
        assert(crate::s7_space::index_lists(perms@)[index as int] == perms@[index as int]@);
    }
    let mut route_id = String::from_str("route_");
    push_zero_padded(&mut route_id, index as u64, 4);
    RouteChoice { route_id, permutation }
}

} // verus!

verus! {

/// The operator slot numbered `i` (1 to 7).
pub open spec fn slot_of(i: u8) -> OperatorSlot {
    if i == 1 {
        OperatorSlot::DK
    } else if i == 2 {
        OperatorSlot::SW
    } else if i == 3 {
        OperatorSlot::PI
    } else if i == 4 {
        OperatorSlot::WT
    } else if i == 5 {
        OperatorSlot::RES1
    } else if i == 6 {
        OperatorSlot::ADAPTER
    } else {
        OperatorSlot::RES2
    }
}

/// The operator slots named by a slot ordering.
pub fn slots_for_sigma(sigma: &Vec<u8>) -> (slots: Vec<OperatorSlot>)
    requires
        forall|i: int| 0 <= i < sigma@.len() ==> 1 <= #[trigger] sigma@[i] <= 7,
    ensures
        slots@.len() == sigma@.len(),
        forall|i: int| 0 <= i < sigma@.len() ==> #[trigger] slots@[i] == slot_of(sigma@[i]),
{
    let table = [
        OperatorSlot::DK,
        OperatorSlot::SW,
        OperatorSlot::PI,
        OperatorSlot::WT,
        OperatorSlot::RES1,
        OperatorSlot::ADAPTER,
        OperatorSlot::RES2,
    ];
    let mut slots: Vec<OperatorSlot> = Vec::new();
    let mut i: usize = 0;
    while i < sigma.len()
        invariant
            0 <= i <= sigma@.len(),
            forall|t: int| 0 <= t < sigma@.len() ==> 1 <= #[trigger] sigma@[t] <= 7,
            table@ == seq![
                OperatorSlot::DK,
                OperatorSlot::SW,
                OperatorSlot::PI,
                OperatorSlot::WT,
                OperatorSlot::RES1,
                OperatorSlot::ADAPTER,
                OperatorSlot::RES2,
            ],
            slots@.len() == i,
            forall|t: int| 0 <= t < i ==> #[trigger] slots@[t] == slot_of(sigma@[t]),
        decreases sigma@.len() - i,
    {
        let v = sigma[i];
        slots.push(table[(v - 1) as usize]);
        i = i + 1;
    }
    slots
}

/// A slot ordering rendered as its numbers joined by ','.
pub open spec fn sigma_text(sigma: Seq<u8>) -> Seq<char> {
    crate::text::join_with(sigma.map_values(|x: u8| crate::text::decimal(x as nat)), ","@)
}

/// The id of a route: the first 16 hexadecimal digits of the SHA-256 of
/// `seed`, ':' and the rendered slot ordering.
pub open spec fn route_id_spec(seed: Seq<char>, sigma: Seq<u8>) -> Seq<char> {
    crate::hashing::sha256_hex(utf8(seed + seq![':'] + sigma_text(sigma))).subrange(0, 16)
}

/// The rendered slot ordering.
fn render_sigma(sigma: &Vec<u8>) -> (text: String)
    ensures
        text@ == sigma_text(sigma@),
{
    let ghost parts = sigma@.map_values(|x: u8| crate::text::decimal(x as nat));
    let mut text = String::new();
    let mut i: usize = 0;
    while i < sigma.len()
        invariant
            0 <= i <= sigma@.len(),
            parts == sigma@.map_values(|x: u8| crate::text::decimal(x as nat)),
            text@ == crate::text::join_with(parts.subrange(0, i as int), ","@),
        decreases sigma@.len() - i,
    {
        proof {
            let next = parts.subrange(0, i + 1);
            assert(next.drop_last() =~= parts.subrange(0, i as int));
            reveal_strlit(",");
        }
        if i > 0 {
            push_char(&mut text, ',');
        }
        push_decimal(&mut text, sigma[i] as u64);
        proof {
            let next = parts.subrange(0, i + 1);
            assert(text@ =~= crate::text::join_with(next, ","@));
        }
        i = i + 1;
    }
    assert(parts.subrange(0, sigma@.len() as int) =~= parts);
    text
}

/// The id of a route (see `route_id_spec`).
pub fn route_id_for(seed: &str, sigma: &Vec<u8>) -> (id: String)
    ensures
        id@ == route_id_spec(seed@, sigma@),
        id@.len() == 16,
{
    let rendered = render_sigma(sigma);
    let material = join3(seed, ":", rendered.as_str());
    proof {
        reveal_strlit(":");
        assert(material@ =~= seed@ + seq![':'] + sigma_text(sigma@));
    }
    let digest = sha256_hex_digest(material.as_str().as_bytes());
    let mut id = String::new();
    let mut i: usize = 0;
    while i < 16
        invariant
            digest@.len() == 64,
            0 <= i <= 16,
            id@ == digest@.subrange(0, i as int),
        decreases 16 - i,
    {
        push_char(&mut id, digest.as_str().get_char(i));
        assert(id@ =~= digest@.subrange(0, i + 1));
        i = i + 1;
    }
    id
}

/// The position a route digest and an offset `k` select: the first
/// sixteen digest bytes read big-endian, plus `k`, modulo 5040.
pub open spec fn slot_route_index(base: Seq<char>, k: int) -> int {
    (be_u128_value(crate::hashing::sha256_digest(utf8(base))) + k) % route_count()
}

/// A route of the operator slots.
pub struct SlotRoute {
    /// Content-addressed id (see `route_id_spec`).
    pub route_id: String,
    /// The slot ordering, numbered `1..=7`.
    pub sigma: Vec<u8>,
    /// The operator slots in that order.
    pub slots: Vec<OperatorSlot>,
}

/// Selects the slot route for `seed` from the digest of `base` (the seed,
/// ':' and the rendered metrics) and the offset `k` of the mesh score
/// (see `slot_route_index`).
pub fn select_slot_route(seed: &str, base: &str, k: usize) -> (r: SlotRoute)
    ensures
        r.sigma@ == crate::s7::slot_sequence()[slot_route_index(base@, k as int)],
        r.route_id@ == route_id_spec(seed@, r.sigma@),
        r.route_id@.len() == 16,
        r.slots@.len() == 7,
        forall|i: int| 0 <= i < 7 ==> #[trigger] r.slots@[i] == slot_of(r.sigma@[i]),
{
    let perms = generate_permutations();
    let digest = sha256_bytes(base.as_bytes());
    let hash_int = be_u128(&digest);
    let n = perms.len();
    let idx = (((hash_int % 5040) as usize) + k % n) % n;
    proof {
        vstd::arithmetic::div_mod::lemma_add_mod_noop(hash_int as int, k as int, 5040);
        assert(idx == slot_route_index(base@, k as int));
    }
    let sigma = perms[idx].clone();
    proof {
        assert(crate::s7::slot_lists(perms@)[idx as int] == perms@[idx as int]@);
        assert(crate::s7::is_slot_ordering(perms@[idx as int]@));
    }
    let slots = slots_for_sigma(&sigma);
    let route_id = route_id_for(seed, &sigma);
    SlotRoute { route_id, sigma, slots }
}

/// How the router reaches the route selection.
#[derive(Clone, Copy, Debug, PartialEq, Eq, Structural)]
pub enum AdapterMode {
    /// In the same process.
    InProcess,
    /// Through an external routing service.
    Service,
}

/// Routes selection requests in process or to a service.
pub struct MetatronAdapter {
    mode: AdapterMode,
}

impl MetatronAdapter {
    /// An adapter in the given mode.
    pub fn new(mode: AdapterMode) -> (adapter: MetatronAdapter)
        ensures
            adapter.mode_spec() == mode,
    {
        MetatronAdapter { mode }
    }

    /// The adapter's mode.
    pub closed spec fn mode_spec(&self) -> AdapterMode {
        self.mode
    }

    /// The adapter's mode.
    pub fn mode(&self) -> (mode: AdapterMode)
        ensures
            mode == self.mode_spec(),
    {
        self.mode
    }

    /// Selects a route for a seed and its rendered mesh score: in process,
    /// the route of `select_scored_route`; through the service, the error
    /// that the service mode is not implemented.
    pub fn select_route(&self, seed: &str, score_text: &str, k: usize) -> (r: Result<RouteChoice, RouterError>)
        ensures
            self.mode_spec() == AdapterMode::Service ==> (r matches Err(RouterError::Adapter(m)) && m@
                == "Service mode not yet implemented"@),
            self.mode_spec() == AdapterMode::InProcess ==> (r matches Ok(c) && c.route_id@ == "route_"@
                + crate::text::zero_padded(score_route_index(seed@, score_text@, k as int) as nat, 4)
                && c.permutation@ == crate::s7_space::s7_sequence()[score_route_index(seed@, score_text@, k as int)]),
    {
        match self.mode {
            AdapterMode::InProcess => Ok(select_scored_route(seed, score_text, k)),
            AdapterMode::Service => Err(RouterError::Adapter(String::from_str("Service mode not yet implemented"))),
        }
    }
}

impl Default for MetatronAdapter {
    fn default() -> (adapter: MetatronAdapter)
        ensures
            adapter.mode_spec() == AdapterMode::InProcess,
    {
        MetatronAdapter::new(AdapterMode::InProcess)
    }
}

} // verus!

verus! {

/// Metric names as character sequences.
pub open spec fn metric_names(entries: Seq<(String, String)>) -> Seq<Seq<char>> {
    entries.map_values(|e: (String, String)| e.0@)
}

/// `name:value` for the entries taken in `order`.
pub open spec fn metric_parts(entries: Seq<(String, String)>, order: Seq<usize>) -> Seq<Seq<char>> {
    order.map_values(|i: usize| entries[i as int].0@ + seq![':'] + entries[i as int].1@)
}

/// Renders metrics (each a name with its rendered value) as `name:value`
/// joined by ',', in increasing name order.
pub fn metrics_text(entries: &Vec<(String, String)>) -> (text: String)
    requires
        crate::order::distinct_keys(metric_names(entries@)),
    ensures
        exists|order: Seq<usize>|
            crate::permutation::is_permutation_of_range(order, entries@.len() as nat) && crate::order::increasing_under(
                metric_names(entries@),
                order,
            ) && text@ == crate::text::join_with(metric_parts(entries@, order), ","@),
{
    let mut names: Vec<String> = Vec::new();
    let mut i: usize = 0;
    while i < entries.len()
        invariant
            0 <= i <= entries@.len(),
            names@.len() == i,
            forall|t: int| 0 <= t < i ==> #[trigger] names@[t]@ == entries@[t].0@,
        decreases entries@.len() - i,
    {
        names.push(entries[i].0.clone());
        i = i + 1;
    }
    assert(names@.map_values(|s: String| s@) =~= metric_names(entries@));
    let order = sorted_order(&names);
    let ghost parts = metric_parts(entries@, order@);
    let mut text = String::new();
    let mut p: usize = 0;
    while p < order.len()
        invariant
            order@.len() == entries@.len(),
            crate::permutation::is_permutation_of_range(order@, entries@.len() as nat),
            parts == metric_parts(entries@, order@),
            0 <= p <= order@.len(),
            text@ == crate::text::join_with(parts.subrange(0, p as int), ","@),
        decreases order@.len() - p,
    {
        let e = order[p];
        proof {
            let next = parts.subrange(0, p + 1);
            assert(next.drop_last() =~= parts.subrange(0, p as int));
            reveal_strlit(",");
        }
        if p > 0 {
            push_char(&mut text, ',');
        }
        text.append(entries[e].0.as_str());
        push_char(&mut text, ':');
        text.append(entries[e].1.as_str());
        proof {
            let next = parts.subrange(0, p + 1);
            assert(text@ =~= crate::text::join_with(next, ","@));
        }
        p = p + 1;
    }
    assert(parts.subrange(0, order@.len() as int) =~= parts);
    text
}


/// The metrics a mesh score is made of, in the order they are looked up.
pub open spec fn mesh_metric_names() -> Seq<Seq<char>> {
    seq!["betti"@, "lambda_gap"@, "persistence"@]
}

/// The message for a missing metric `name`.
pub open spec fn missing_metric_message(name: Seq<char>) -> Seq<char> {
    "Missing '"@ + name + "' metric"@
}

/// Whether `name` is one of `present`.
fn has_name(present: &Vec<String>, name: &str) -> (found: bool)
    ensures
        found == crate::merkle::strings_view(present@).contains(name@),
{
    let ghost pv = crate::merkle::strings_view(present@);
    let mut i: usize = 0;
    while i < present.len()
        invariant
            0 <= i <= present@.len(),
            pv == crate::merkle::strings_view(present@),
            forall|t: int| 0 <= t < i ==> pv[t] != name@,
        decreases present@.len() - i,
    {
        if crate::text::text_eq(present[i].as_str(), name) {
            assert(pv[i as int] == name@);
            return true;
        }
        i = i + 1;
    }
    false
}

/// Checks that the metric names `present` hold all three mesh metrics;
/// otherwise the error names the first one missing, in the order betti,
/// lambda_gap, persistence.
pub fn check_mesh_metrics(present: &Vec<String>) -> (r: Result<(), RouterError>)
    ensures
        r is Ok <==> (forall|i: int|
            0 <= i < 3 ==> crate::merkle::strings_view(present@).contains(#[trigger] mesh_metric_names()[i])),
        r is Err ==> exists|i: int|
            0 <= i < 3 && !crate::merkle::strings_view(present@).contains(#[trigger] mesh_metric_names()[i])
                && (forall|j: int| 0 <= j < i ==> crate::merkle::strings_view(present@).contains(mesh_metric_names()[j]))
                && (r matches Err(RouterError::InvalidMetrics(m)) && m@ == missing_metric_message(
                mesh_metric_names()[i],
            )),
{
    let names: Vec<&str> = vec!["betti", "lambda_gap", "persistence"];
    let ghost nv = names@.map_values(|w: &str| w@);
    let ghost pv = crate::merkle::strings_view(present@);
    assert(nv =~= mesh_metric_names());
    let mut k: usize = 0;
    while k < 3
        invariant
            0 <= k <= 3,
            names@.len() == 3,
            nv == names@.map_values(|w: &str| w@),
            nv == mesh_metric_names(),
            pv == crate::merkle::strings_view(present@),
            forall|j: int| 0 <= j < k ==> pv.contains(#[trigger] nv[j]),
        decreases 3 - k,
    {
        if !has_name(present, names[k]) {
            let message = join3("Missing '", names[k], "' metric");
            let r = Err(RouterError::InvalidMetrics(message));
            proof {
                assert(nv[k as int] == names@[k as int]@);
                assert(!pv.contains(mesh_metric_names()[k as int]));
                assert(forall|j: int| 0 <= j < k ==> pv.contains(mesh_metric_names()[j]));
            }
            return r;
        }
        assert(nv[k as int] == names@[k as int]@);
        k = k + 1;
    }
    Ok(())
}

} // verus!
