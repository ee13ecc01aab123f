//! The registry of vector index providers and the decisions the index
//! manager makes about them: which providers exist, their default
//! configuration, which provider a collection uses, how switching provider
//! bumps the collection's proof version, and which metadata keys are
//! volatile when a collection's metadata is canonicalized.

use vstd::prelude::*;
use crate::order::sorted_order;
use crate::text::text_eq;

verus! {

/// The value of a decimal digit character.
pub open spec fn digit_value(c: char) -> int {
    c as int - 48
}

/// Every character is an ASCII decimal digit.
pub open spec fn all_digits(s: Seq<char>) -> bool {
    forall|i: int| 0 <= i < s.len() ==> '0' <= #[trigger] s[i] <= '9'
}

/// The number that a sequence of decimal digits denotes.
pub open spec fn digits_value(s: Seq<char>) -> int
    decreases s.len(),
{
    if s.len() == 0 {
        0
    } else {
        10 * digits_value(s.drop_last()) + digit_value(s.last())
    }
}

/// What `str::parse::<i64>` gives back: an optional sign, then one or more
/// ASCII digits, and a value in the range of `i64`; nothing otherwise.
pub open spec fn parsed_i64(s: Seq<char>) -> Option<int> {
    if s.len() == 0 {
        None
    } else {
        let negative = s[0] == '-';
        let body = if s[0] == '-' || s[0] == '+' {
            s.drop_first()
        } else {
            s
        };
        let v = if negative {
            -digits_value(body)
        } else {
            digits_value(body)
        };
        if body.len() == 0 || !all_digits(body) || v < i64::MIN || v > i64::MAX {
            None
        } else {
            Some(v)
        }
    }
}

proof fn lemma_digits_value_prefix(s: Seq<char>, k: int)
    requires
        0 <= k <= s.len(),
        all_digits(s),
    ensures
        0 <= digits_value(s.subrange(0, k)) <= digits_value(s),
    decreases s.len() - k,
{
    if k < s.len() {
        lemma_digits_value_prefix(s, k + 1);
        let t = s.subrange(0, k + 1);
        assert(t.drop_last() =~= s.subrange(0, k));
        assert('0' <= s[k] <= '9');
    } else {
        assert(s.subrange(0, k) =~= s);
        lemma_digits_value_nonneg(s);
    }
}

proof fn lemma_digits_value_nonneg(s: Seq<char>)
    requires
        all_digits(s),
    ensures
        digits_value(s) >= 0,
    decreases s.len(),
{
    if s.len() > 0 {
        assert(all_digits(s.drop_last()));
        lemma_digits_value_nonneg(s.drop_last());
        assert('0' <= s[s.len() - 1] <= '9');
    }
}

/// Parses a decimal integer as `str::parse::<i64>` does (see
/// `parsed_i64`).
pub fn parse_i64(s: &str) -> (r: Option<i64>)
    ensures
        r matches Some(v) ==> parsed_i64(s@) == Some(v as int),
        r is None ==> parsed_i64(s@) is None,
{
    let chars = crate::text::chars_of(s);
    let n = chars.len();
    if n == 0 {
        return None;
    }
    let negative = chars[0] == '-';
    let start: usize = if chars[0] == '-' || chars[0] == '+' {
        1
    } else {
        0
    };
    let ghost body = if s@[0] == '-' || s@[0] == '+' {
        s@.drop_first()
    } else {
        s@
    };
    assert(body =~= s@.subrange(start as int, n as int));
    if start == n {
        return None;
    }
    // The magnitude may reach 2^63 for the most negative value.
    let limit: u64 = 9223372036854775808;
    let mut acc: u64 = 0;
    assert(body.subrange(0, 0) =~= Seq::<char>::empty());
    let mut i: usize = start;
    while i < n
        invariant
            chars@ == s@,
            n == s@.len(),
            start <= i <= n,
            body == s@.subrange(start as int, n as int),
            s@.len() > 0,
            body == (if s@[0] == '-' || s@[0] == '+' {
                s@.drop_first()
            } else {
                s@
            }),
            body.len() > 0,
            all_digits(body.subrange(0, i - start)),
            acc == digits_value(body.subrange(0, i - start)),
            acc <= limit,
            limit == 9223372036854775808u64,
        decreases n - i,
    {
        let c = chars[i];
        if c < '0' || c > '9' {
            assert(body[i - start] == c);
            assert(!all_digits(body));
            return None;
        }
        let d = (c as u64) - 48;
        let ghost next = body.subrange(0, i - start + 1);
        assert(next.drop_last() =~= body.subrange(0, i - start));
        assert(next.last() == c);
        if acc > (limit - d) / 10 {
            proof {
                assert(acc * 10 + d > limit) by (nonlinear_arith)
                    requires
                        acc > (limit - d) / 10,
                        d <= 9,
                        limit == 9223372036854775808u64,
                ;
                assert(digits_value(next) > limit);
                if all_digits(body) {
                    lemma_digits_value_prefix(body, i - start + 1);
                }
            }
            return None;
        }
        assert(acc * 10 + d <= limit) by (nonlinear_arith)
            requires
                acc <= (limit - d) / 10,
                d <= 9,
        ;
        acc = acc * 10 + d;
        i = i + 1;
    }
    assert(body.subrange(0, n - start) =~= body);
    if negative {
        let v: i64 = if acc == limit {
            i64::MIN
        } else {
            -(acc as i64)
        };
        Some(v)
    } else {
        if acc > 9223372036854775807 {
            return None;
        }
        Some(acc as i64)
    }
}

/// The default configuration of the HNSW provider.
pub struct HnswConfig {
    pub m: i64,
    pub ef_construction: i64,
    pub ef_search: i64,
    pub metric: String,
}

/// A setting parsed as an integer, or the default when it is absent or
/// not an integer.
pub open spec fn int_setting(raw: Option<Seq<char>>, default: int) -> int {
    match raw {
        Some(t) => match parsed_i64(t) {
            Some(v) => v,
            None => default,
        },
        None => default,
    }
}

fn int_or(raw: Option<&str>, default: i64) -> (v: i64)
    ensures
        v == int_setting(
            match raw {
                Some(t) => Some(t@),
                None => None,
            },
            default as int,
        ),
{
    match raw {
        Some(t) => match parse_i64(t) {
            Some(v) => v,
            None => default,
        },
        None => default,
    }
}

/// The HNSW defaults, each overridable by a setting (read by the caller
/// from `HNSW_M`, `HNSW_EF_CONSTRUCTION`, `HNSW_EF_SEARCH` and
/// `HNSW_METRIC`): 16, 200, 64 and `cosine`.
pub fn default_hnsw_config(
    m: Option<&str>,
    ef_construction: Option<&str>,
    ef_search: Option<&str>,
    metric: Option<&str>,
) -> (config: HnswConfig)
    ensures
        config.m == int_setting(
            match m {
                Some(t) => Some(t@),
                None => None,
            },
            16,
        ),
        config.ef_construction == int_setting(
            match ef_construction {
                Some(t) => Some(t@),
                None => None,
            },
            200,
        ),
        config.ef_search == int_setting(
            match ef_search {
                Some(t) => Some(t@),
                None => None,
            },
            64,
        ),
        config.metric@ == (match metric {
            Some(t) => t@,
            None => "cosine"@,
        }),
{
    HnswConfig {
        m: int_or(m, 16),
        ef_construction: int_or(ef_construction, 200),
        ef_search: int_or(ef_search, 64),
        metric: match metric {
            Some(t) => String::from_str(t),
            None => String::from_str("cosine"),
        },
    }
}

/// The names of the registered providers, in increasing order.
pub open spec fn provider_names() -> Seq<Seq<char>> {
    seq!["hnsw"@, "ivf_pq"@]
}

/// The names of the registered providers, in increasing order.
pub fn list_provider_names() -> (names: Vec<&'static str>)
    ensures
        names@.map_values(|n: &str| n@) == provider_names(),
{
    let names = vec!["hnsw", "ivf_pq"];
    assert(names@.map_values(|n: &str| n@) =~= provider_names());
    names
}

/// Whether `name` is a registered provider.
pub fn is_known_provider(name: &str) -> (known: bool)
    ensures
        known == provider_names().contains(name@),
{
    proof {
        reveal_strlit("hnsw");
        reveal_strlit("ivf_pq");
    }
    let is_hnsw = text_eq(name, "hnsw");
    let is_ivf = text_eq(name, "ivf_pq");
    proof {
        if is_hnsw {
            assert(provider_names()[0] == name@);
        } else if is_ivf {
            assert(provider_names()[1] == name@);
        } else {
            assert forall|i: int| 0 <= i < provider_names().len() implies provider_names()[i] != name@ by {}
        }
    }
    is_hnsw || is_ivf
}

/// The kinds of index provider.
#[derive(Clone, Copy, Debug, PartialEq, Eq, Structural)]
pub enum ProviderKind {
    Hnsw,
    IvfPq,
}

impl ProviderKind {
    /// The registered name of the provider kind.
    pub fn name(&self) -> (name: &'static str)
        ensures
            kind_of(name@) == *self,
            provider_names().contains(name@),
    {
        proof {
            reveal_strlit("hnsw");
            reveal_strlit("ivf_pq");
            assert(provider_names()[0] == "hnsw"@);
            assert(provider_names()[1] == "ivf_pq"@);
        }
        match self {
            ProviderKind::Hnsw => "hnsw",
            ProviderKind::IvfPq => "ivf_pq",
        }
    }
}

/// The provider kind of a registered name.
pub open spec fn kind_of(name: Seq<char>) -> ProviderKind {
    if name == "hnsw"@ {
        ProviderKind::Hnsw
    } else {
        ProviderKind::IvfPq
    }
}

/// The provider to build for `name` (`hnsw` when none is named).  Only
/// registered names are accepted.
pub fn get_provider(name: Option<&str>) -> (kind: ProviderKind)
    requires
        name matches Some(n) ==> provider_names().contains(n@),
    ensures
        kind == kind_of(
            match name {
                Some(n) => n@,
                None => "hnsw"@,
            },
        ),
{
    match name {
        Some(n) => {
            if text_eq(n, "hnsw") {
                ProviderKind::Hnsw
            } else {
                ProviderKind::IvfPq
            }
        },
        None => ProviderKind::Hnsw,
    }
}

/// The provider a collection is served by: the one assigned to it, else
/// the one recorded in its index settings, else the first registered one.
pub fn resolve_provider_name(assigned: Option<&str>, recorded: Option<&str>) -> (name: String)
    ensures
        name@ == (match assigned {
            Some(a) => a@,
            None => match recorded {
                Some(r) => r@,
                None => provider_names()[0],
            },
        }),
{
    match assigned {
        Some(a) => String::from_str(a),
        None => match recorded {
            Some(r) => String::from_str(r),
            None => String::from_str("hnsw"),
        },
    }
}

/// The outcome of switching a collection's provider.
pub struct ProviderChange {
    pub provider: String,
    pub previous_provider: Option<String>,
    pub proof_version: i64,
}

/// The message for an unregistered provider.
pub open spec fn unknown_provider_message(name: Seq<char>) -> Seq<char> {
    "unknown provider: "@ + name
}

/// Switching a collection to `provider_name`: refused for unregistered
/// names; otherwise the previous provider is reported and the proof
/// version is one more than the recorded one (0 when none is recorded).
pub fn plan_provider_change(provider_name: &str, previous: Option<&str>, recorded_version: Option<i64>) -> (r:
    Result<ProviderChange, String>)
    requires
        provider_names().contains(provider_name@) ==> recorded_version != Some(i64::MAX),
    ensures
        r is Err <==> !provider_names().contains(provider_name@),
        r matches Err(m) ==> m@ == unknown_provider_message(provider_name@),
        r matches Ok(c) ==> {
            &&& c.provider@ == provider_name@
            &&& c.previous_provider.is_some() == previous.is_some()
            &&& (previous matches Some(p) ==> c.previous_provider.unwrap()@ == p@)
            &&& c.proof_version == (match recorded_version {
                Some(v) => v + 1,
                None => 1,
            })
        },
{
    if !is_known_provider(provider_name) {
        let mut m = String::from_str("unknown provider: ");
        m.append(provider_name);
        return Err(m);
    }
    let version = crate::index_book::next_proof_version(recorded_version);
    Ok(
        ProviderChange {
            provider: String::from_str(provider_name),
            previous_provider: match previous {
                Some(p) => Some(String::from_str(p)),
                None => None,
            },
            proof_version: version,
        },
    )
}

/// Key names that make metadata volatile for the index manager.
pub open spec fn index_volatile_names() -> Seq<Seq<char>> {
    seq![
        "timestamp"@,
        "created"@,
        "created_at"@,
        "updated"@,
        "updated_at"@,
        "stored_at"@,
        "ingested_at"@,
        "acquired_at"@,
        "activated_at"@,
        "generated_at"@,
        "refreshed_at"@,
        "expires_at"@,
        "expiration"@,
        "last_updated"@,
        "last_modified"@,
    ]
}

/// Key suffixes that make metadata volatile for the index manager.
pub open spec fn index_volatile_suffixes() -> Seq<Seq<char>> {
    seq!["_ts"@, "_timestamp"@]
}

/// A metadata key is dropped by the index manager when its lowercase form
/// is one of the volatile names or ends with a volatile suffix.
pub open spec fn index_key_is_volatile(key: Seq<char>) -> bool {
    let lower = crate::metadata::text_to_lowercase(key);
    index_volatile_names().contains(lower) || exists|i: int|
        0 <= i < index_volatile_suffixes().len() && crate::metadata::ends_with(
            lower,
            #[trigger] index_volatile_suffixes()[i],
        )
}

/// Whether the index manager drops a metadata key (see
/// `index_key_is_volatile`).
pub fn is_volatile_metadata_key(key: &str) -> (volatile: bool)
    ensures
        volatile == index_key_is_volatile(key@),
{
    let lower = crate::metadata::lowercase_text(key);
    let names: Vec<&str> = vec![
        "timestamp",
        "created",
        "created_at",
        "updated",
        "updated_at",
        "stored_at",
        "ingested_at",
        "acquired_at",
        "activated_at",
        "generated_at",
        "refreshed_at",
        "expires_at",
        "expiration",
        "last_updated",
        "last_modified",
    ];
    let ghost nv = names@.map_values(|w: &str| w@);
    assert(nv =~= index_volatile_names());
    let mut i: usize = 0;
    while i < names.len()
        invariant
            0 <= i <= names@.len(),
            nv == names@.map_values(|w: &str| w@),
            nv == index_volatile_names(),
            lower@ == crate::metadata::text_to_lowercase(key@),
            forall|t: int| 0 <= t < i ==> nv[t] != lower@,
        decreases names@.len() - i,
    {
        if text_eq(lower.as_str(), names[i]) {
            assert(nv[i as int] == lower@);
            assert(index_volatile_names()[i as int] == lower@);
            return true;
        }
        i = i + 1;
    }
    assert(!index_volatile_names().contains(lower@));
    let suffixes: Vec<&str> = vec!["_ts", "_timestamp"];
    let ghost sv = suffixes@.map_values(|w: &str| w@);
    assert(sv =~= index_volatile_suffixes());
    let mut j: usize = 0;
    while j < suffixes.len()
        invariant
            0 <= j <= suffixes@.len(),
            sv == suffixes@.map_values(|w: &str| w@),
            sv == index_volatile_suffixes(),
            lower@ == crate::metadata::text_to_lowercase(key@),
            forall|t: int| 0 <= t < j ==> !crate::metadata::ends_with(lower@, #[trigger] sv[t]),
        decreases suffixes@.len() - j,
    {
        if crate::metadata::text_ends_with(lower.as_str(), suffixes[j]) {
            assert(crate::metadata::ends_with(lower@, sv[j as int]));
            assert(crate::metadata::ends_with(lower@, index_volatile_suffixes()[j as int]));
            return true;
        }
        j = j + 1;
    }
    false
}

/// The dotted path of a nested metadata key.
pub open spec fn qualified_key(prefix: Seq<char>, key: Seq<char>) -> Seq<char> {
    if prefix.len() == 0 {
        key
    } else {
        prefix + "."@ + key
    }
}

/// The dotted path of `key` below `prefix` (the key itself at the top).
pub fn qualify_key(prefix: &str, key: &str) -> (full: String)
    ensures
        full@ == qualified_key(prefix@, key@),
{
    if prefix.is_empty() {
        return String::from_str(key);
    }
    let mut full = String::from_str(prefix);
    full.append(".");
    full.append(key);
    full
}

/// How an HNSW search proceeds: the effective beam width, how many
/// candidates are scored exactly, and whether that covers every vector.
pub struct SearchPlan {
    pub effective_ef: usize,
    pub candidate_count: usize,
    pub exact: bool,
}

/// The beam width of a search: the request's `ef_search` (at least 1)
/// when given, else the provider's.
pub open spec fn effective_ef_spec(ef_override: Option<i64>, ef_search: i32) -> usize {
    match ef_override {
        Some(v) => (if v < 1 {
            1
        } else {
            v
        }) as usize,
        None => ef_search as usize,
    }
}

/// Plans an HNSW search over `total_vectors` vectors for `top_k` results:
/// the candidates are the larger of twice `top_k` and the beam width, but
/// no more than there are vectors; the plan is exact when they are all
/// of them.
pub fn hnsw_search_plan(total_vectors: usize, top_k: usize, ef_override: Option<i64>, ef_search: i32) -> (plan:
    SearchPlan)
    requires
        top_k * 2 <= usize::MAX,
    ensures
        plan.effective_ef == effective_ef_spec(ef_override, ef_search),
        plan.candidate_count == (if top_k * 2 >= plan.effective_ef {
            if total_vectors <= top_k * 2 {
                total_vectors as int
            } else {
                top_k * 2
            }
        } else {
            if total_vectors <= plan.effective_ef {
                total_vectors as int
            } else {
                plan.effective_ef as int
            }
        }),
        plan.exact == (plan.candidate_count >= total_vectors),
{
    let effective_ef: usize = match ef_override {
        Some(v) => {
            let w: i64 = if v < 1 {
                1
            } else {
                v
            };
            w as usize
        },
        None => ef_search as usize,
    };
    let doubled = top_k * 2;
    let wanted = if doubled >= effective_ef {
        doubled
    } else {
        effective_ef
    };
    let candidate_count = if total_vectors <= wanted {
        total_vectors
    } else {
        wanted
    };
    SearchPlan { effective_ef, candidate_count, exact: candidate_count >= total_vectors }
}

/// The positions of distinct ids in increasing order of id (the one such
/// order, see `order::lemma_sorted_order_unique`).
pub open spec fn id_order(ids: Seq<Seq<char>>) -> Seq<usize> {
    choose|o: Seq<usize>|
        crate::permutation::is_permutation_of_range(o, ids.len()) && crate::order::increasing_under(ids, o)
}

/// The positions, taken in `order`, whose bucket is `b`.
pub open spec fn positions_in_bucket(order: Seq<usize>, buckets: Seq<i64>, b: i64) -> Seq<usize>
    decreases order.len(),
{
    if order.len() == 0 {
        Seq::empty()
    } else {
        let rest = positions_in_bucket(order.drop_last(), buckets, b);
        if buckets[order.last() as int] == b {
            rest.push(order.last())
        } else {
            rest
        }
    }
}

/// The positions in the probed buckets, bucket after bucket.
pub open spec fn gathered(order: Seq<usize>, buckets: Seq<i64>, probed: Seq<i64>) -> Seq<usize>
    decreases probed.len(),
{
    if probed.len() == 0 {
        Seq::empty()
    } else {
        gathered(order, buckets, probed.drop_last()) + positions_in_bucket(order, buckets, probed.last())
    }
}

/// The candidates of an IVF-PQ search: the records of the `probes` nearest
/// centroids (given in order of nearness), each bucket in increasing order
/// of id; all records in that order when those buckets are empty.
pub open spec fn ivf_candidates_spec(ids: Seq<Seq<char>>, buckets: Seq<i64>, assignments: Seq<i64>, probes: int) -> Seq<
    usize,
> {
    let order = id_order(ids);
    let probed = assignments.take(if probes < assignments.len() {
        probes
    } else {
        assignments.len() as int
    });
    let g = gathered(order, buckets, probed);
    if g.len() == 0 {
        order
    } else {
        g
    }
}

/// The candidate positions of an IVF-PQ search (see
/// `ivf_candidates_spec`); `buckets[i]` is the bucket of the record
/// `ids[i]`.
pub fn ivf_candidates(ids: &Vec<String>, buckets: &Vec<i64>, assignments: &Vec<i64>, probes: usize) -> (c: Vec<usize>)
    requires
        ids@.len() == buckets@.len(),
        crate::order::distinct_keys(ids@.map_values(|s: String| s@)),
    ensures
        c@ == ivf_candidates_spec(ids@.map_values(|s: String| s@), buckets@, assignments@, probes as int),
{
    let ghost keys = ids@.map_values(|s: String| s@);
    let order = sorted_order(ids);
    proof {
        let o = id_order(keys);
        assert(crate::permutation::is_permutation_of_range(order@, keys.len())
            && crate::order::increasing_under(keys, order@));
        assert(crate::permutation::is_permutation_of_range(o, keys.len()) && crate::order::increasing_under(keys, o));
        crate::order::lemma_sorted_order_unique(keys, order@, o);
    }
    let k: usize = if probes < assignments.len() {
        probes
    } else {
        assignments.len()
    };
    let ghost probed = assignments@.take(k as int);
    let mut c: Vec<usize> = Vec::new();
    let mut j: usize = 0;
    while j < k
        invariant
            k <= assignments@.len(),
            0 <= j <= k,
            probed == assignments@.take(k as int),
            order@.len() == buckets@.len(),
            forall|t: int| 0 <= t < order@.len() ==> #[trigger] order@[t] < buckets@.len(),
            c@ == gathered(order@, buckets@, probed.take(j as int)),
        decreases k - j,
    {
        let b = assignments[j];
        let ghost start = c@;
        let mut t: usize = 0;
        while t < order.len()
            invariant
                0 <= t <= order@.len(),
                order@.len() == buckets@.len(),
                forall|x: int| 0 <= x < order@.len() ==> #[trigger] order@[x] < buckets@.len(),
                c@ == start + positions_in_bucket(order@.take(t as int), buckets@, b),
            decreases order@.len() - t,
        {
            let p = order[t];
            let ghost front = order@.take(t + 1);
            assert(front.drop_last() =~= order@.take(t as int));
            if buckets[p] == b {
                c.push(p);
            }
            proof {
                assert(c@ =~= start + positions_in_bucket(front, buckets@, b));
            }
            t = t + 1;
        }
        assert(order@.take(order@.len() as int) =~= order@);
        proof {
            let next = probed.take(j + 1);
            assert(next.drop_last() =~= probed.take(j as int));
            assert(next.last() == b);
        }
        j = j + 1;
    }
    assert(probed.take(k as int) =~= probed);
    if c.len() == 0 {
        return order;
    }
    c
}

} // verus!
