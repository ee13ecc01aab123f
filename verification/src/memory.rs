//! Memory index configuration and the rules around it: when an index can
//! be created, which requests it refuses, how queries are routed to a
//! search strategy, and the counters of the stability filter.
//!
//! Vectors are floating point; the rules below read only their lengths.

use vstd::prelude::*;
use crate::text::{push_decimal, text_eq};

verus! {

/// Failures of the memory index.
pub enum IndexError {
    Disabled,
    PathNotConfigured,
    BackendError(String),
    InvalidDimension { expected: usize, actual: usize },
    InvalidSignature(String),
}

/// The message of an index error.
pub open spec fn index_error_message(e: IndexError) -> Seq<char> {
    match e {
        IndexError::Disabled => "Memory index is disabled (memory.enabled=false)"@,
        IndexError::PathNotConfigured => "Index path not configured"@,
        IndexError::BackendError(m) => "Backend error: "@ + m@,
        IndexError::InvalidDimension { expected, actual } => "Invalid vector dimension: expected "@ + crate::text::decimal(
            expected as nat,
        ) + ", got "@ + crate::text::decimal(actual as nat),
        IndexError::InvalidSignature(m) => "Invalid spectral signature: "@ + m@,
    }
}

impl IndexError {
    /// The error's message.
    pub fn message(&self) -> (m: String)
        ensures
            m@ == index_error_message(*self),
    {
        match self {
            IndexError::Disabled => String::from_str("Memory index is disabled (memory.enabled=false)"),
            IndexError::PathNotConfigured => String::from_str("Index path not configured"),
            IndexError::BackendError(m) => {
                let mut s = String::from_str("Backend error: ");
                s.append(m.as_str());
                s
            },
            IndexError::InvalidDimension { expected, actual } => {
                let mut s = String::from_str("Invalid vector dimension: expected ");
                push_decimal(&mut s, *expected as u64);
                s.append(", got ");
                push_decimal(&mut s, *actual as u64);
                s
            },
            IndexError::InvalidSignature(m) => {
                let mut s = String::from_str("Invalid spectral signature: ");
                s.append(m.as_str());
                s
            },
        }
    }
}

/// Failures of a memory store.
pub enum MemoryError {
    Backend(String),
    NotFound(String),
    InvalidQuery(String),
}

/// The message of a memory store error.
pub open spec fn memory_error_message(e: MemoryError) -> Seq<char> {
    match e {
        MemoryError::Backend(m) => "Backend error: "@ + m@,
        MemoryError::NotFound(m) => "Item not found: "@ + m@,
        MemoryError::InvalidQuery(m) => "Invalid query: "@ + m@,
    }
}

impl MemoryError {
    /// The error's message.
    pub fn message(&self) -> (m: String)
        ensures
            m@ == memory_error_message(*self),
    {
        let (head, detail) = match self {
            MemoryError::Backend(m) => ("Backend error: ", m),
            MemoryError::NotFound(m) => ("Item not found: ", m),
            MemoryError::InvalidQuery(m) => ("Invalid query: ", m),
        };
        let mut s = String::from_str(head);
        s.append(detail.as_str());
        s
    }
}

/// Memory index configuration.
pub struct MemoryConfig {
    /// Whether indexing is enabled.
    pub enabled: bool,
    /// Where the index is stored.
    pub path: Option<String>,
    /// Vector dimension.
    pub dimension: usize,
    /// Distance metric (cosine, l2, or inner_product).
    pub metric: String,
    /// Backend kind (in-memory, faiss, hnswlib, ...).
    pub backend: String,
}

impl Default for MemoryConfig {
    fn default() -> (config: MemoryConfig)
        ensures
            !config.enabled,
            config.path is None,
            config.dimension == 8,
            config.metric@ == "cosine"@,
            config.backend@ == "in-memory"@,
    {
        MemoryConfig {
            enabled: false,
            path: None,
            dimension: 8,
            metric: String::from_str("cosine"),
            backend: String::from_str("in-memory"),
        }
    }
}

/// Counts reported by an index.
pub struct IndexStats {
    pub enabled: bool,
    pub count: usize,
    pub note: Option<String>,
}

/// A memory index; while disabled every operation does nothing.
pub struct MemoryIndex {
    config: MemoryConfig,
}

impl MemoryIndex {
    /// The index's configuration.
    pub closed spec fn config_spec(&self) -> MemoryConfig {
        self.config
    }

    /// Creates an index; an enabled index needs a storage path.
    pub fn new(config: MemoryConfig) -> (index: Result<MemoryIndex, IndexError>)
        ensures
            config.enabled && config.path is None ==> index matches Err(IndexError::PathNotConfigured),
            !(config.enabled && config.path is None) ==> (index matches Ok(i) && i.config_spec() == config),
    {
        if config.enabled && config.path.is_none() {
            return Err(IndexError::PathNotConfigured);
        }
        Ok(MemoryIndex { config })
    }

    /// Accepts an item whose vector has `vector_len` components: nothing to
    /// do while disabled; refused when the length is not the configured
    /// dimension.
    pub fn upsert(&mut self, vector_len: usize) -> (r: Result<(), IndexError>)
        ensures
            final(self).config_spec() == old(self).config_spec(),
            !old(self).config_spec().enabled ==> r is Ok,
            old(self).config_spec().enabled && vector_len != old(self).config_spec().dimension ==> (r matches Err(
                IndexError::InvalidDimension { expected, actual },
            ) && expected == old(self).config_spec().dimension && actual == vector_len),
            old(self).config_spec().enabled && vector_len == old(self).config_spec().dimension ==> r is Ok,
    {
        if !self.config.enabled {
            return Ok(());
        }
        if vector_len != self.config.dimension {
            return Err(IndexError::InvalidDimension { expected: self.config.dimension, actual: vector_len });
        }
        Ok(())
    }

    /// Searches with a query of `query_len` components for `top_k`
    /// matches, returning their ids: none while disabled, a dimension error
    /// for a query of the wrong length, and otherwise the ids the backend
    /// finds (this index keeps no vectors yet, so none).
    pub fn search(&self, query_len: usize, top_k: usize) -> (r: Result<Vec<String>, IndexError>)
        ensures
            !self.config_spec().enabled ==> (r matches Ok(v) && v@.len() == 0),
            self.config_spec().enabled && query_len != self.config_spec().dimension ==> (r matches Err(
                IndexError::InvalidDimension { expected, actual },
            ) && expected == self.config_spec().dimension && actual == query_len),
            self.config_spec().enabled && query_len == self.config_spec().dimension ==> (r matches Ok(v)
                && v@.len() == 0),
    {
        if !self.config.enabled {
            return Ok(Vec::new());
        }
        if query_len != self.config.dimension {
            return Err(IndexError::InvalidDimension { expected: self.config.dimension, actual: query_len });
        }
        Ok(Vec::new())
    }

    /// The index's counts: disabled indexes report nothing; enabled ones
    /// carry a note that the backend is not wired up yet.
    pub fn stats(&self) -> (s: IndexStats)
        ensures
            s.enabled == self.config_spec().enabled,
            s.count == 0,
            !s.enabled ==> s.note is None,
            s.enabled ==> (s.note matches Some(n) && n@ == "TODO: implement backend stats"@),
    {
        if !self.config.enabled {
            return IndexStats { enabled: false, count: 0, note: None };
        }
        IndexStats { enabled: true, count: 0, note: Some(String::from_str("TODO: implement backend stats")) }
    }
}

/// The number of results a search request asks for when it names none.
pub fn default_top_k() -> (k: usize)
    ensures
        k == 10,
{
    10
}

/// Search strategies of the adaptive router.
#[derive(Clone, Copy, Debug, PartialEq, Eq, Structural)]
pub enum SearchStrategy {
    /// Brute force.
    Exact,
    /// Approximate nearest neighbours.
    Approximate,
    /// Exact for the first results, approximate for the rest.
    Hybrid,
}

/// Thresholds of the adaptive router.
pub struct RouterConfig {
    /// `k` below this: exact search.
    pub small_k_threshold: usize,
    /// `k` above this: approximate search.
    pub large_k_threshold: usize,
    /// Dimension above this: approximate search.
    pub high_dim_threshold: usize,
}

impl Default for RouterConfig {
    fn default() -> (config: RouterConfig)
        ensures
            config.small_k_threshold == 10,
            config.large_k_threshold == 100,
            config.high_dim_threshold == 128,
    {
        RouterConfig { small_k_threshold: 10, large_k_threshold: 100, high_dim_threshold: 128 }
    }
}

/// The strategy for a query of dimension `dim` asking for `k` results.
pub open spec fn strategy_for(config: RouterConfig, dim: nat, k: nat) -> SearchStrategy {
    if k < config.small_k_threshold {
        SearchStrategy::Exact
    } else if k > config.large_k_threshold || dim > config.high_dim_threshold {
        SearchStrategy::Approximate
    } else {
        SearchStrategy::Hybrid
    }
}

impl RouterConfig {
    /// Chooses the strategy for a query of dimension `dim` asking for `k`
    /// results: small `k` is searched exactly, large `k` or high dimension
    /// approximately, and the rest in the hybrid way.
    pub fn select_strategy(&self, dim: usize, k: usize) -> (s: SearchStrategy)
        ensures
            s == strategy_for(*self, dim as nat, k as nat),
    {
        if k < self.small_k_threshold {
            SearchStrategy::Exact
        } else if k > self.large_k_threshold || dim > self.high_dim_threshold {
            SearchStrategy::Approximate
        } else {
            SearchStrategy::Hybrid
        }
    }
}

/// Whether `id` is among `ids`.
pub open spec fn contains_id(ids: Seq<Seq<char>>, id: Seq<char>) -> bool {
    exists|i: int| 0 <= i < ids.len() && ids[i] == id
}

/// The positions of the approximate results that a hybrid search appends
/// to `exact_len` exact results: in order, those whose id is not among the
/// exact results, while fewer than `k` results are held.
pub open spec fn hybrid_additions_spec(
    exact: Seq<Seq<char>>,
    approx: Seq<Seq<char>>,
    k: nat,
) -> Seq<usize>
    decreases approx.len(),
{
    if approx.len() == 0 {
        Seq::empty()
    } else {
        let earlier = hybrid_additions_spec(exact, approx.drop_last(), k);
        let last = (approx.len() - 1) as usize;
        if !contains_id(exact, approx[approx.len() - 1]) && exact.len() + earlier.len() < k {
            earlier.push(last)
        } else {
            earlier
        }
    }
}

/// Ids of a list of strings.
pub open spec fn ids_view(v: Seq<String>) -> Seq<Seq<char>> {
    v.map_values(|s: String| s@)
}

/// Which approximate results a hybrid search adds to the exact ones (see
/// `hybrid_additions_spec`); the caller then orders all by distance and
/// keeps the first `k`.
pub fn hybrid_additions(exact_ids: &Vec<String>, approx_ids: &Vec<String>, k: usize) -> (picked: Vec<usize>)
    ensures
        picked@ == hybrid_additions_spec(ids_view(exact_ids@), ids_view(approx_ids@), k as nat),
{
    let ghost ev = ids_view(exact_ids@);
    let ghost av = ids_view(approx_ids@);
    let mut picked: Vec<usize> = Vec::new();
    let mut i: usize = 0;
    while i < approx_ids.len()
        invariant
            0 <= i <= approx_ids@.len(),
            ev == ids_view(exact_ids@),
            av == ids_view(approx_ids@),
            picked@ == hybrid_additions_spec(ev, av.subrange(0, i as int), k as nat),
            picked@.len() <= i,
        decreases approx_ids@.len() - i,
    {
        let mut seen = false;
        let mut j: usize = 0;
        while j < exact_ids.len()
            invariant
                0 <= j <= exact_ids@.len(),
                i < approx_ids@.len(),
                ev == ids_view(exact_ids@),
                av == ids_view(approx_ids@),
                seen == exists|t: int| 0 <= t < j && ev[t] == av[i as int],
            decreases exact_ids@.len() - j,
        {
            if text_eq(exact_ids[j].as_str(), approx_ids[i].as_str()) {
                seen = true;
            }
            proof {
                if ev[j as int] == av[i as int] {
                    assert(0 <= j < j + 1 && ev[j as int] == av[i as int]);
                }
                if exists|t: int| 0 <= t < j + 1 && ev[t] == av[i as int] {
                    let t = choose|t: int| 0 <= t < j + 1 && ev[t] == av[i as int];
                    if t < j {
                        assert(0 <= t < j && ev[t] == av[i as int]);
                    }
                }
            }
            j = j + 1;
        }
        proof {
            let prefix = av.subrange(0, i + 1);
            assert(prefix.drop_last() =~= av.subrange(0, i as int));
            assert(prefix[prefix.len() - 1] == av[i as int]);
            assert(seen == contains_id(ev, av[i as int]));
        }
        let held = exact_ids.len() as u128 + picked.len() as u128;
        if !seen && held < k as u128 {
            picked.push(i);
        }
        i = i + 1;
    }
    assert(av.subrange(0, approx_ids@.len() as int) =~= av);
    picked
}

/// Counters of the stability filter.
pub struct FilterStats {
    pub total_attempted: usize,
    pub total_accepted: usize,
    pub total_rejected: usize,
}

impl Default for FilterStats {
    fn default() -> (stats: FilterStats)
        ensures
            stats.total_attempted == 0,
            stats.total_accepted == 0,
            stats.total_rejected == 0,
    {
        FilterStats { total_attempted: 0, total_accepted: 0, total_rejected: 0 }
    }
}

impl FilterStats {
    /// Counts a store attempt that the filter accepted or rejected.  Every
    /// attempt is counted as exactly one of the two.
    pub fn record(&mut self, accepted: bool)
        requires
            old(self).total_attempted < usize::MAX,
            old(self).total_accepted < usize::MAX,
            old(self).total_rejected < usize::MAX,
        ensures
            final(self).total_attempted == old(self).total_attempted + 1,
            accepted ==> final(self).total_accepted == old(self).total_accepted + 1
                && final(self).total_rejected == old(self).total_rejected,
            !accepted ==> final(self).total_rejected == old(self).total_rejected + 1
                && final(self).total_accepted == old(self).total_accepted,
    {
        self.total_attempted = self.total_attempted + 1;
        if accepted {
            self.total_accepted = self.total_accepted + 1;
        } else {
            self.total_rejected = self.total_rejected + 1;
        }
    }
}

/// Law: recording keeps every attempt counted as accepted or rejected.
pub proof fn lemma_filter_stats_balance(before: FilterStats, after: FilterStats, accepted: bool)
    requires
        before.total_attempted == before.total_accepted + before.total_rejected,
        after.total_attempted == before.total_attempted + 1,
        accepted ==> after.total_accepted == before.total_accepted + 1 && after.total_rejected
            == before.total_rejected,
        !accepted ==> after.total_rejected == before.total_rejected + 1 && after.total_accepted
            == before.total_accepted,
    ensures
        after.total_attempted == after.total_accepted + after.total_rejected,
{
}

} // verus!
