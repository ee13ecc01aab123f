//! The status document of a collection's index: the one recorded when the
//! index is built, and the one reported on request, which refreshes the
//! point count and proof version of a recorded status or describes an
//! index that was never built.

use vstd::prelude::*;
use crate::blueprint::{distinct_entry_keys, json_lookup, put_entry};
use crate::providers::{HnswConfig, ProviderChange};
use crate::metadata_tree::{copy_entries, copy_json, entry_models, JsonModel, JsonValue};
use crate::text::{decimal, push_decimal, push_signed_decimal, signed_decimal};

verus! {

/// The status of an index that was never built.
pub open spec fn unbuilt_status(
    collection: Seq<char>,
    points_indexed: nat,
    provider: Option<Seq<char>>,
    proof_version: int,
) -> Seq<(Seq<char>, JsonModel)> {
    seq![
        ("collection"@, JsonModel::Text(collection)),
        ("ready"@, JsonModel::Bool(false)),
        ("points_indexed"@, JsonModel::Number(decimal(points_indexed))),
        ("provider"@, match provider {
            Some(p) => JsonModel::Text(p),
            None => JsonModel::Null,
        }),
        ("params"@, JsonModel::Object(Seq::empty())),
        ("updated_at"@, JsonModel::Null),
        ("proof_version"@, JsonModel::Number(signed_decimal(proof_version))),
    ]
}

/// The status recorded when an index is built.
pub open spec fn built_status(
    collection: Seq<char>,
    points_indexed: nat,
    provider: Seq<char>,
    metric: JsonModel,
    duration_ms: Seq<char>,
    updated_at: Seq<char>,
    proof_version: JsonModel,
) -> Seq<(Seq<char>, JsonModel)> {
    seq![
        ("collection"@, JsonModel::Text(collection)),
        ("ready"@, JsonModel::Bool(true)),
        ("points_indexed"@, JsonModel::Number(decimal(points_indexed))),
        ("provider"@, JsonModel::Text(provider)),
        ("params"@, JsonModel::Object(seq![("metric"@, metric), ("provider"@, JsonModel::Text(provider))])),
        ("duration_ms"@, JsonModel::Number(duration_ms)),
        ("updated_at"@, JsonModel::Text(updated_at)),
        ("proof_version"@, proof_version),
    ]
}

/// The status recorded when a collection is switched to another provider:
/// the index is not ready until it is built again.
pub open spec fn switched_status(
    collection: Seq<char>,
    provider: Seq<char>,
    previous_provider: Option<Seq<char>>,
    proof_version: int,
    updated_at: Seq<char>,
) -> Seq<(Seq<char>, JsonModel)> {
    seq![
        ("collection"@, JsonModel::Text(collection)),
        ("provider"@, JsonModel::Text(provider)),
        ("previous_provider"@, match previous_provider {
            Some(p) => JsonModel::Text(p),
            None => JsonModel::Null,
        }),
        ("proof_version"@, JsonModel::Number(signed_decimal(proof_version))),
        ("ready"@, JsonModel::Bool(false)),
        ("updated_at"@, JsonModel::Text(updated_at)),
    ]
}

/// The provider a build names: the collection's assigned one, else "hnsw".
pub open spec fn assigned_or_hnsw(provider: Option<&str>) -> Seq<char> {
    match provider {
        Some(p) => p@,
        None => "hnsw"@,
    }
}

/// The metric a build names: the collection's recorded one, else "cosine".
pub open spec fn metric_or_default(metric: Option<&JsonValue>) -> JsonModel {
    match metric {
        Some(m) => crate::metadata_tree::json_model(*m),
        None => JsonModel::Text("cosine"@),
    }
}

/// The proof version a build names: the collection's recorded one, else 0.
pub open spec fn version_or_zero(proof_version: Option<&JsonValue>) -> JsonModel {
    match proof_version {
        Some(v) => crate::metadata_tree::json_model(*v),
        None => JsonModel::Number("0"@),
    }
}

/// `status` is the recorded status with its point count and proof version
/// replaced and every other entry as it was.
pub open spec fn refreshed_status(
    recorded: Seq<(Seq<char>, JsonModel)>,
    points_indexed: nat,
    proof_version: int,
    status: Seq<(Seq<char>, JsonModel)>,
) -> bool {
    &&& distinct_entry_keys(status)
    &&& forall|k: Seq<char>|
        #[trigger] json_lookup(status, k) == if k == "points_indexed"@ {
            Some(JsonModel::Number(decimal(points_indexed)))
        } else if k == "proof_version"@ {
            Some(JsonModel::Number(signed_decimal(proof_version)))
        } else {
            json_lookup(recorded, k)
        }
}

proof fn lemma_status_keys()
    ensures
        "collection"@ != "ready"@,
        "collection"@ != "points_indexed"@,
        "collection"@ != "provider"@,
        "collection"@ != "params"@,
        "collection"@ != "duration_ms"@,
        "collection"@ != "updated_at"@,
        "collection"@ != "proof_version"@,
        "ready"@ != "points_indexed"@,
        "ready"@ != "provider"@,
        "ready"@ != "params"@,
        "ready"@ != "duration_ms"@,
        "ready"@ != "updated_at"@,
        "ready"@ != "proof_version"@,
        "points_indexed"@ != "provider"@,
        "points_indexed"@ != "params"@,
        "points_indexed"@ != "duration_ms"@,
        "points_indexed"@ != "updated_at"@,
        "points_indexed"@ != "proof_version"@,
        "provider"@ != "params"@,
        "provider"@ != "duration_ms"@,
        "provider"@ != "updated_at"@,
        "provider"@ != "proof_version"@,
        "params"@ != "duration_ms"@,
        "params"@ != "updated_at"@,
        "params"@ != "proof_version"@,
        "duration_ms"@ != "updated_at"@,
        "duration_ms"@ != "proof_version"@,
        "updated_at"@ != "proof_version"@,
        "previous_provider"@ != "collection"@,
        "previous_provider"@ != "ready"@,
        "previous_provider"@ != "points_indexed"@,
        "previous_provider"@ != "provider"@,
        "previous_provider"@ != "updated_at"@,
        "previous_provider"@ != "proof_version"@,
{
    reveal_strlit("collection");
    reveal_strlit("ready");
    reveal_strlit("points_indexed");
    reveal_strlit("provider");
    reveal_strlit("params");
    reveal_strlit("duration_ms");
    reveal_strlit("updated_at");
    reveal_strlit("proof_version");
    reveal_strlit("previous_provider");
    assert("previous_provider"@.len() == 17);
    assert("collection"@[0] != "ready"@[0]);
    assert("collection"@[0] != "points_indexed"@[0]);
    assert("collection"@[0] != "provider"@[0]);
    assert("collection"@[0] != "params"@[0]);
    assert("collection"@[0] != "duration_ms"@[0]);
    assert("collection"@[0] != "updated_at"@[0]);
    assert("collection"@[0] != "proof_version"@[0]);
    assert("ready"@[0] != "points_indexed"@[0]);
    assert("ready"@[0] != "provider"@[0]);
    assert("ready"@[0] != "params"@[0]);
    assert("ready"@[0] != "duration_ms"@[0]);
    assert("ready"@[0] != "updated_at"@[0]);
    assert("ready"@[0] != "proof_version"@[0]);
    assert("points_indexed"@.len() != "provider"@.len());
    assert("points_indexed"@.len() != "params"@.len());
    assert("points_indexed"@[0] != "duration_ms"@[0]);
    assert("points_indexed"@[0] != "updated_at"@[0]);
    assert("points_indexed"@.len() != "proof_version"@.len());
    assert("provider"@.len() != "params"@.len());
    assert("provider"@[0] != "duration_ms"@[0]);
    assert("provider"@[0] != "updated_at"@[0]);
    assert("provider"@.len() != "proof_version"@.len());
    assert("params"@[0] != "duration_ms"@[0]);
    assert("params"@[0] != "updated_at"@[0]);
    assert("params"@.len() != "proof_version"@.len());
    assert("duration_ms"@[0] != "updated_at"@[0]);
    assert("duration_ms"@[0] != "proof_version"@[0]);
    assert("updated_at"@[0] != "proof_version"@[0]);
}

fn text_json(s: &str) -> (v: JsonValue)
    ensures
        crate::metadata_tree::json_model(v) == JsonModel::Text(s@),
{
    JsonValue::Text(String::from_str(s))
}

fn count_json(n: usize) -> (v: JsonValue)
    ensures
        crate::metadata_tree::json_model(v) == JsonModel::Number(decimal(n as nat)),
{
    let mut digits = String::new();
    push_decimal(&mut digits, n as u64);
    assert(digits@ =~= decimal(n as nat));
    JsonValue::Number(digits)
}

fn version_json(v: i64) -> (j: JsonValue)
    ensures
        crate::metadata_tree::json_model(j) == JsonModel::Number(signed_decimal(v as int)),
{
    let mut digits = String::new();
    push_signed_decimal(&mut digits, v);
    assert(digits@ =~= signed_decimal(v as int));
    JsonValue::Number(digits)
}

/// The status recorded for `collection` when its index is built over
/// `points_indexed` points (see `built_status`); the build's duration and
/// time are handed in as rendered text.
pub fn build_status(
    collection: &str,
    points_indexed: usize,
    provider: Option<&str>,
    metric: Option<&JsonValue>,
    proof_version: Option<&JsonValue>,
    duration_ms: String,
    updated_at: String,
) -> (status: Vec<(String, JsonValue)>)
    ensures
        entry_models(status@) == built_status(
            collection@,
            points_indexed as nat,
            assigned_or_hnsw(provider),
            metric_or_default(metric),
            duration_ms@,
            updated_at@,
            version_or_zero(proof_version),
        ),
{
    let provider_name = match provider {
        Some(p) => p,
        None => "hnsw",
    };
    let metric_value = match metric {
        Some(m) => copy_json(m),
        None => text_json("cosine"),
    };
    let version_value = match proof_version {
        Some(v) => copy_json(v),
        None => JsonValue::Number(String::from_str("0")),
    };
    let mut params: Vec<(String, JsonValue)> = Vec::new();
    params.push((String::from_str("metric"), metric_value));
    params.push((String::from_str("provider"), text_json(provider_name)));
    proof {
        crate::metadata_tree::lemma_entry_models_index(params@);
        assert(entry_models(params@) =~= seq![
            ("metric"@, metric_or_default(metric)),
            ("provider"@, JsonModel::Text(assigned_or_hnsw(provider))),
        ]);
    }
    let mut status: Vec<(String, JsonValue)> = Vec::new();
    status.push((String::from_str("collection"), text_json(collection)));
    status.push((String::from_str("ready"), JsonValue::Bool(true)));
    status.push((String::from_str("points_indexed"), count_json(points_indexed)));
    status.push((String::from_str("provider"), text_json(provider_name)));
    status.push((String::from_str("params"), JsonValue::Object(params)));
    status.push((String::from_str("duration_ms"), JsonValue::Number(duration_ms)));
    status.push((String::from_str("updated_at"), JsonValue::Text(updated_at)));
    status.push((String::from_str("proof_version"), version_value));
    proof {
        crate::metadata_tree::lemma_entry_models_index(status@);
        assert(entry_models(status@) =~= built_status(
            collection@,
            points_indexed as nat,
            assigned_or_hnsw(provider),
            metric_or_default(metric),
            duration_ms@,
            updated_at@,
            version_or_zero(proof_version),
        ));
    }
    status
}

/// The status recorded for `collection` when it is switched to the
/// provider of `change` at time `updated_at` (see `switched_status`).
pub fn switch_status(collection: &str, change: &ProviderChange, updated_at: String) -> (status: Vec<
    (String, JsonValue),
>)
    ensures
        entry_models(status@) == switched_status(
            collection@,
            change.provider@,
            match change.previous_provider {
                Some(p) => Some(p@),
                None => None,
            },
            change.proof_version as int,
            updated_at@,
        ),
{
    let previous = match &change.previous_provider {
        Some(p) => JsonValue::Text(p.clone()),
        None => JsonValue::Null,
    };
    let mut status: Vec<(String, JsonValue)> = Vec::new();
    status.push((String::from_str("collection"), text_json(collection)));
    status.push((String::from_str("provider"), JsonValue::Text(change.provider.clone())));
    status.push((String::from_str("previous_provider"), previous));
    status.push((String::from_str("proof_version"), version_json(change.proof_version)));
    status.push((String::from_str("ready"), JsonValue::Bool(false)));
    status.push((String::from_str("updated_at"), JsonValue::Text(updated_at)));
    proof {
        crate::metadata_tree::lemma_entry_models_index(status@);
        assert(entry_models(status@) =~= switched_status(
            collection@,
            change.provider@,
            match change.previous_provider {
                Some(p) => Some(p@),
                None => None,
            },
            change.proof_version as int,
            updated_at@,
        ));
    }
    status
}

/// The status reported for `collection`: its recorded status with the
/// current point count and proof version, or, when no status was
/// recorded, that of an index never built (see `unbuilt_status`).
pub fn index_status(
    collection: &str,
    recorded: Option<&Vec<(String, JsonValue)>>,
    points_indexed: usize,
    proof_version: i64,
    provider: Option<&str>,
) -> (status: Vec<(String, JsonValue)>)
    requires
        recorded matches Some(r) ==> distinct_entry_keys(entry_models(r@)),
    ensures
        match recorded {
            Some(r) => refreshed_status(
                entry_models(r@),
                points_indexed as nat,
                proof_version as int,
                entry_models(status@),
            ),
            None => entry_models(status@) == unbuilt_status(
                collection@,
                points_indexed as nat,
                match provider {
                    Some(p) => Some(p@),
                    None => None,
                },
                proof_version as int,
            ),
        },
{
    match recorded {
        Some(r) => {
            let mut status = copy_entries(r);
            put_entry(&mut status, "points_indexed", count_json(points_indexed));
            put_entry(&mut status, "proof_version", version_json(proof_version));
            proof {
                lemma_status_keys();
            }
            status
        },
        None => {
            let provider_value = match provider {
                Some(p) => text_json(p),
                None => JsonValue::Null,
            };
            let mut status: Vec<(String, JsonValue)> = Vec::new();
            status.push((String::from_str("collection"), text_json(collection)));
            status.push((String::from_str("ready"), JsonValue::Bool(false)));
            status.push((String::from_str("points_indexed"), count_json(points_indexed)));
            status.push((String::from_str("provider"), provider_value));
            status.push((String::from_str("params"), JsonValue::Object(Vec::new())));
            status.push((String::from_str("updated_at"), JsonValue::Null));
            status.push((String::from_str("proof_version"), version_json(proof_version)));
            proof {
                crate::metadata_tree::lemma_entry_models_index(status@);
                assert(entry_models(status@) =~= unbuilt_status(
                    collection@,
                    points_indexed as nat,
                    match provider {
                        Some(p) => Some(p@),
                        None => None,
                    },
                    proof_version as int,
                ));
            }
            status
        },
    }
}

/// The registered providers with their default configurations, as the
/// index manager lists them: HNSW with its settings, IVF-PQ with its seed.
pub open spec fn catalogue(hnsw: HnswConfig) -> Seq<(Seq<char>, JsonModel)> {
    seq![
        ("hnsw"@, JsonModel::Object(seq![("default_config"@, JsonModel::Object(seq![
            ("m"@, JsonModel::Number(signed_decimal(hnsw.m as int))),
            ("ef_construction"@, JsonModel::Number(signed_decimal(hnsw.ef_construction as int))),
            ("ef_search"@, JsonModel::Number(signed_decimal(hnsw.ef_search as int))),
            ("metric"@, JsonModel::Text(hnsw.metric@)),
        ]))])),
        ("ivf_pq"@, JsonModel::Object(seq![("default_config"@, JsonModel::Object(seq![
            ("seed"@, JsonModel::Number("17"@)),
        ]))])),
    ]
}

fn default_config_entry(config: Vec<(String, JsonValue)>) -> (v: JsonValue)
    ensures
        crate::metadata_tree::json_model(v) == JsonModel::Object(seq![
            ("default_config"@, JsonModel::Object(entry_models(config@))),
        ]),
{
    let mut info: Vec<(String, JsonValue)> = Vec::new();
    info.push((String::from_str("default_config"), JsonValue::Object(config)));
    proof {
        crate::metadata_tree::lemma_entry_models_index(info@);
        assert(entry_models(info@) =~= seq![
            ("default_config"@, JsonModel::Object(entry_models(info@[0].1->Object_0@))),
        ]);
    }
    JsonValue::Object(info)
}

/// The provider catalogue for the given HNSW defaults (see `catalogue`).
pub fn provider_catalogue(hnsw: &HnswConfig) -> (entries: Vec<(String, JsonValue)>)
    ensures
        entry_models(entries@) == catalogue(*hnsw),
{
    let mut hnsw_config: Vec<(String, JsonValue)> = Vec::new();
    hnsw_config.push((String::from_str("m"), version_json(hnsw.m)));
    hnsw_config.push((String::from_str("ef_construction"), version_json(hnsw.ef_construction)));
    hnsw_config.push((String::from_str("ef_search"), version_json(hnsw.ef_search)));
    hnsw_config.push((String::from_str("metric"), JsonValue::Text(hnsw.metric.clone())));
    proof {
        crate::metadata_tree::lemma_entry_models_index(hnsw_config@);
    }
    let mut ivf_config: Vec<(String, JsonValue)> = Vec::new();
    ivf_config.push((String::from_str("seed"), JsonValue::Number(String::from_str("17"))));
    proof {
        crate::metadata_tree::lemma_entry_models_index(ivf_config@);
    }
    let ghost hnsw_models = entry_models(hnsw_config@);
    let ghost ivf_models = entry_models(ivf_config@);
    let mut entries: Vec<(String, JsonValue)> = Vec::new();
    entries.push((String::from_str("hnsw"), default_config_entry(hnsw_config)));
    entries.push((String::from_str("ivf_pq"), default_config_entry(ivf_config)));
    proof {
        crate::metadata_tree::lemma_entry_models_index(entries@);
        assert(hnsw_models =~= seq![
            ("m"@, JsonModel::Number(signed_decimal(hnsw.m as int))),
            ("ef_construction"@, JsonModel::Number(signed_decimal(hnsw.ef_construction as int))),
            ("ef_search"@, JsonModel::Number(signed_decimal(hnsw.ef_search as int))),
            ("metric"@, JsonModel::Text(hnsw.metric@)),
        ]);
        assert(ivf_models =~= seq![("seed"@, JsonModel::Number("17"@))]);
        assert(entry_models(entries@) =~= catalogue(*hnsw));
    }
    entries
}

/// Once an index is built, the status reported for it says it is ready,
/// names the collection and provider it was built for, and carries the
/// collection's current point count and proof version.
pub proof fn lemma_built_index_reports_ready(
    collection: Seq<char>,
    points_at_build: nat,
    provider: Seq<char>,
    metric: JsonModel,
    duration_ms: Seq<char>,
    updated_at: Seq<char>,
    version_at_build: JsonModel,
    points_now: nat,
    version_now: int,
    status: Seq<(Seq<char>, JsonModel)>,
)
    requires
        refreshed_status(
            built_status(collection, points_at_build, provider, metric, duration_ms, updated_at, version_at_build),
            points_now,
            version_now,
            status,
        ),
    ensures
        distinct_entry_keys(
            built_status(collection, points_at_build, provider, metric, duration_ms, updated_at, version_at_build),
        ),
        json_lookup(status, "ready"@) == Some(JsonModel::Bool(true)),
        json_lookup(status, "collection"@) == Some(JsonModel::Text(collection)),
        json_lookup(status, "provider"@) == Some(JsonModel::Text(provider)),
        json_lookup(status, "points_indexed"@) == Some(JsonModel::Number(decimal(points_now))),
        json_lookup(status, "proof_version"@) == Some(JsonModel::Number(signed_decimal(version_now))),
{
    lemma_status_keys();
    let b = built_status(collection, points_at_build, provider, metric, duration_ms, updated_at, version_at_build);
    assert(json_lookup(status, "ready"@) == json_lookup(b, "ready"@));
    assert(json_lookup(status, "collection"@) == json_lookup(b, "collection"@));
    assert(json_lookup(status, "provider"@) == json_lookup(b, "provider"@));
    assert(json_lookup(b, "collection"@) == Some(JsonModel::Text(collection)));
    let b1 = b.drop_first();
    let b2 = b1.drop_first();
    let b3 = b2.drop_first();
    assert(b1[0] == ("ready"@, JsonModel::Bool(true)));
    assert(json_lookup(b, "ready"@) == json_lookup(b1, "ready"@));
    assert(json_lookup(b1, "ready"@) == Some(JsonModel::Bool(true)));
    assert(b3[0] == ("provider"@, JsonModel::Text(provider)));
    assert(json_lookup(b, "provider"@) == json_lookup(b1, "provider"@));
    assert(json_lookup(b1, "provider"@) == json_lookup(b2, "provider"@));
    assert(json_lookup(b2, "provider"@) == json_lookup(b3, "provider"@));
    assert(json_lookup(b3, "provider"@) == Some(JsonModel::Text(provider)));
}

/// After a collection is switched to another provider, the status
/// reported for it says the index is not ready and names the new
/// provider, until the index is built again.
pub proof fn lemma_switched_index_reports_not_ready(
    collection: Seq<char>,
    provider: Seq<char>,
    previous_provider: Option<Seq<char>>,
    version_at_switch: int,
    updated_at: Seq<char>,
    points_now: nat,
    version_now: int,
    status: Seq<(Seq<char>, JsonModel)>,
)
    requires
        refreshed_status(
            switched_status(collection, provider, previous_provider, version_at_switch, updated_at),
            points_now,
            version_now,
            status,
        ),
    ensures
        distinct_entry_keys(switched_status(collection, provider, previous_provider, version_at_switch, updated_at)),
        json_lookup(status, "ready"@) == Some(JsonModel::Bool(false)),
        json_lookup(status, "provider"@) == Some(JsonModel::Text(provider)),
        json_lookup(status, "points_indexed"@) == Some(JsonModel::Number(decimal(points_now))),
{
    lemma_status_keys();
    let w = switched_status(collection, provider, previous_provider, version_at_switch, updated_at);
    let w1 = w.drop_first();
    let w2 = w1.drop_first();
    let w3 = w2.drop_first();
    let w4 = w3.drop_first();
    assert(w1[0] == ("provider"@, JsonModel::Text(provider)));
    assert(json_lookup(w, "provider"@) == json_lookup(w1, "provider"@));
    assert(json_lookup(w1, "provider"@) == Some(JsonModel::Text(provider)));
    assert(w4[0] == ("ready"@, JsonModel::Bool(false)));
    assert(json_lookup(w, "ready"@) == json_lookup(w1, "ready"@));
    assert(json_lookup(w1, "ready"@) == json_lookup(w2, "ready"@));
    assert(json_lookup(w2, "ready"@) == json_lookup(w3, "ready"@));
    assert(json_lookup(w3, "ready"@) == json_lookup(w4, "ready"@));
    assert(json_lookup(w4, "ready"@) == Some(JsonModel::Bool(false)));
    assert(json_lookup(status, "ready"@) == json_lookup(w, "ready"@));
    assert(json_lookup(status, "provider"@) == json_lookup(w, "provider"@));
}

} // verus!
