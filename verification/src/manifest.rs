//! Manifest rules of the vector index store: where artifacts are
//! persisted, how versioned directories are named, and when files are
//! synchronized to the object store.

use vstd::prelude::*;
use crate::blueprint::{find_entry, keys_distinct, put_entry};
use crate::metadata_tree::{copy_entries, JsonModel, JsonValue};
use crate::text::{push_signed_decimal, text_eq};

verus! {

/// A field of a JSON object as the manifest reads it.
pub enum JsonField {
    /// The key is absent.
    Absent,
    /// The value is a string.
    Text(String),
    /// The value is something else.
    Other,
}

/// Where artifacts are persisted.
pub struct PersistenceConfig {
    /// Provider type (e.g. `s3`).
    pub provider: Option<String>,
    /// Bucket name.
    pub bucket: Option<String>,
    /// Key prefix.
    pub prefix: Option<String>,
}

impl Default for PersistenceConfig {
    fn default() -> (config: PersistenceConfig)
        ensures
            config.provider is None,
            config.bucket is None,
            config.prefix is None,
    {
        PersistenceConfig { provider: None, bucket: None, prefix: None }
    }
}

/// The text of a field, when it is a string.
pub open spec fn field_text(f: JsonField) -> Option<Seq<char>> {
    match f {
        JsonField::Text(s) => Some(s@),
        _ => None,
    }
}

/// The provider field: `provider` when present, else the `type` alias.
pub open spec fn provider_field(provider: JsonField, type_alias: JsonField) -> Option<Seq<char>> {
    match provider {
        JsonField::Absent => field_text(type_alias),
        _ => field_text(provider),
    }
}

/// An optional text as a character sequence.
pub open spec fn opt_text(t: Option<String>) -> Option<Seq<char>> {
    match t {
        Some(s) => Some(s@),
        None => None,
    }
}

fn read_field(f: &JsonField) -> (t: Option<String>)
    ensures
        opt_text(t) == field_text(*f),
{
    match f {
        JsonField::Text(s) => Some(s.clone()),
        _ => None,
    }
}

impl PersistenceConfig {
    /// Reads the configuration from a JSON payload: nothing unless it is
    /// an object; the provider from `provider`, or from `type` when
    /// `provider` is absent; each field only when it is a string.
    pub fn from_fields(
        is_object: bool,
        provider: &JsonField,
        type_alias: &JsonField,
        bucket: &JsonField,
        prefix: &JsonField,
    ) -> (config: PersistenceConfig)
        ensures
            !is_object ==> config.provider is None && config.bucket is None && config.prefix is None,
            is_object ==> opt_text(config.provider) == provider_field(*provider, *type_alias) && opt_text(
                config.bucket,
            ) == field_text(*bucket) && opt_text(config.prefix) == field_text(*prefix),
    {
        if !is_object {
            return PersistenceConfig { provider: None, bucket: None, prefix: None };
        }
        let chosen = match provider {
            JsonField::Absent => read_field(type_alias),
            _ => read_field(provider),
        };
        PersistenceConfig { provider: chosen, bucket: read_field(bucket), prefix: read_field(prefix) }
    }

    /// Whether artifacts go to S3: the provider, lowercased, is `s3` and a
    /// bucket is set.
    pub fn is_s3(&self) -> (s3: bool)
        ensures
            s3 == (self.provider matches Some(p) && crate::metadata::text_to_lowercase(p@) == "s3"@
                && self.bucket is Some),
    {
        match &self.provider {
            Some(p) => {
                let lowered = crate::metadata::lowercase_text(p.as_str());
                text_eq(lowered.as_str(), "s3") && self.bucket.is_some()
            },
            None => false,
        }
    }
}

/// The directory name of an epoch: `v` and the epoch.
pub fn version_dir_name(epoch: i64) -> (name: String)
    ensures
        name@ == seq!['v'] + crate::text::signed_decimal(epoch as int),
{
    let mut name = String::from_str("v");
    proof {
        reveal_strlit("v");
    }
    push_signed_decimal(&mut name, epoch);
    name
}

/// Whether files are synchronized to the object store: some files were
/// written and the persistence is S3.
pub fn should_sync(file_count: usize, config: &PersistenceConfig) -> (sync: bool)
    ensures
        sync == (file_count > 0 && (config.provider matches Some(p) && crate::metadata::text_to_lowercase(p@)
            == "s3"@ && config.bucket is Some)),
{
    if file_count == 0 {
        return false;
    }
    config.is_s3()
}

/// The text under `key`, when there is one.
pub open spec fn json_opt_text(entries: Seq<(Seq<char>, JsonModel)>, key: Seq<char>) -> Option<Seq<char>> {
    match crate::blueprint::json_lookup(entries, key) {
        Some(JsonModel::Text(t)) => Some(t),
        _ => None,
    }
}

/// The provider of a persistence object: under `provider` when that key is
/// present, else under its alias `type`.
pub open spec fn json_provider(entries: Seq<(Seq<char>, JsonModel)>) -> Option<Seq<char>> {
    match crate::blueprint::json_lookup(entries, "provider"@) {
        Some(_) => json_opt_text(entries, "provider"@),
        None => json_opt_text(entries, "type"@),
    }
}

/// The persistence configuration a payload describes (nothing unless it
/// is an object).
pub open spec fn persistence_holds(config: PersistenceConfig, payload: Option<JsonModel>) -> bool {
    match payload {
        Some(JsonModel::Object(e)) => {
            &&& opt_text(config.provider) == json_provider(e)
            &&& opt_text(config.bucket) == json_opt_text(e, "bucket"@)
            &&& opt_text(config.prefix) == json_opt_text(e, "prefix"@)
        },
        _ => config.provider is None && config.bucket is None && config.prefix is None,
    }
}

fn json_field(entries: &Vec<(String, JsonValue)>, key: &str) -> (f: JsonField)
    ensures
        field_text(f) == json_opt_text(crate::metadata_tree::entry_models(entries@), key@),
        (f is Absent) == (crate::blueprint::json_lookup(crate::metadata_tree::entry_models(entries@), key@) is None),
{
    match find_entry(entries, key) {
        Some(i) => match &entries[i].1 {
            JsonValue::Text(t) => JsonField::Text(t.clone()),
            _ => JsonField::Other,
        },
        None => JsonField::Absent,
    }
}

impl PersistenceConfig {
    /// Reads the configuration from a JSON payload (see
    /// `persistence_holds`).
    pub fn from_dict(payload: Option<&JsonValue>) -> (config: PersistenceConfig)
        ensures
            persistence_holds(
                config,
                match payload {
                    Some(v) => Some(crate::metadata_tree::json_model(*v)),
                    None => None,
                },
            ),
    {
        match payload {
            Some(JsonValue::Object(entries)) => {
                let provider = json_field(entries, "provider");
                let type_alias = json_field(entries, "type");
                let bucket = json_field(entries, "bucket");
                let prefix = json_field(entries, "prefix");
                PersistenceConfig::from_fields(true, &provider, &type_alias, &bucket, &prefix)
            },
            _ => PersistenceConfig { provider: None, bucket: None, prefix: None },
        }
    }
}

/// The manifest of a vector index store: an entry per collection and the
/// persistence configuration.
pub struct Manifest {
    pub collections: Vec<(String, JsonValue)>,
    pub persistence: PersistenceConfig,
}

/// The entries of an object value (none for any other value).
pub open spec fn object_entries(v: Option<JsonModel>) -> Seq<(Seq<char>, JsonModel)> {
    match v {
        Some(JsonModel::Object(e)) => e,
        _ => Seq::empty(),
    }
}

impl Manifest {
    /// No two collections share a name, and each collection's entry, when
    /// it is an object, has distinct keys.
    pub open spec fn wf(&self) -> bool {
        let models = crate::metadata_tree::entry_models(self.collections@);
        &&& crate::blueprint::distinct_entry_keys(models)
        &&& forall|k: Seq<char>|
            (#[trigger] crate::blueprint::json_lookup(models, k) matches Some(JsonModel::Object(o))
                ==> crate::blueprint::distinct_entry_keys(o))
    }

    /// Reads a manifest from a JSON payload: its `collections` object (none
    /// when absent or not an object) and its `persistence` configuration
    /// (none configured when absent).
    pub fn from_dict(payload: Option<&JsonValue>) -> (manifest: Manifest)
        ensures
            crate::metadata_tree::entry_models(manifest.collections@) == crate::blueprint::json_object(
                object_entries(
                    match payload {
                        Some(v) => Some(crate::metadata_tree::json_model(*v)),
                        None => None,
                    },
                ),
                "collections"@,
            ),
            persistence_holds(
                manifest.persistence,
                crate::blueprint::json_lookup(
                    object_entries(
                        match payload {
                            Some(v) => Some(crate::metadata_tree::json_model(*v)),
                            None => None,
                        },
                    ),
                    "persistence"@,
                ),
            ),
    {
        match payload {
            Some(JsonValue::Object(entries)) => {
                let persistence = match find_entry(entries, "persistence") {
                    Some(i) => PersistenceConfig::from_dict(Some(&entries[i].1)),
                    None => PersistenceConfig { provider: None, bucket: None, prefix: None },
                };
                Manifest { collections: crate::blueprint::object_field(entries, "collections"), persistence }
            },
            _ => {
                proof {
                    assert(crate::blueprint::json_lookup(Seq::<(Seq<char>, JsonModel)>::empty(), "persistence"@) is None);
                }
                Manifest {
                    collections: Vec::new(),
                    persistence: PersistenceConfig { provider: None, bucket: None, prefix: None },
                }
            },
        }
    }
}

/// A text as a JSON value, or `null`.
pub open spec fn opt_json(t: Option<Seq<char>>) -> JsonModel {
    match t {
        Some(s) => JsonModel::Text(s),
        None => JsonModel::Null,
    }
}

/// The JSON form of a manifest.
pub open spec fn manifest_json(collections: Seq<(Seq<char>, JsonModel)>, p: PersistenceConfig) -> JsonModel {
    JsonModel::Object(
        seq![
            ("collections"@, JsonModel::Object(collections)),
            (
                "persistence"@,
                JsonModel::Object(
                    seq![
                        ("provider"@, opt_json(opt_text(p.provider))),
                        ("bucket"@, opt_json(opt_text(p.bucket))),
                        ("prefix"@, opt_json(opt_text(p.prefix))),
                    ],
                ),
            ),
        ],
    )
}

/// The manifest entry of a persisted version.
pub open spec fn version_entry(epoch: i64, updated_at: Seq<char>, path: Seq<char>) -> JsonModel {
    JsonModel::Object(
        seq![
            ("latest_epoch"@, JsonModel::Number(crate::text::signed_decimal(epoch as int))),
            ("updated_at"@, JsonModel::Text(updated_at)),
            ("path"@, JsonModel::Text(path)),
        ],
    )
}

/// `after` is the collection entry `before` (none when absent) with its
/// active epoch and activation time set.
pub open spec fn activation_holds(
    after: Seq<(Seq<char>, JsonModel)>,
    before: Seq<(Seq<char>, JsonModel)>,
    epoch: i64,
    activated_at: Seq<char>,
) -> bool {
    forall|k: Seq<char>|
        #[trigger] crate::blueprint::json_lookup(after, k) == if k == "active_epoch"@ {
            Some(JsonModel::Number(crate::text::signed_decimal(epoch as int)))
        } else if k == "activated_at"@ {
            Some(JsonModel::Text(activated_at))
        } else {
            crate::blueprint::json_lookup(before, k)
        }
}

fn text_value(t: Option<&String>) -> (v: JsonValue)
    ensures
        crate::metadata_tree::json_model(v) == opt_json(
            match t {
                Some(s) => Some(s@),
                None => None,
            },
        ),
{
    match t {
        Some(s) => JsonValue::Text(s.clone()),
        None => JsonValue::Null,
    }
}

fn epoch_number(epoch: i64) -> (v: JsonValue)
    ensures
        crate::metadata_tree::json_model(v) == JsonModel::Number(crate::text::signed_decimal(epoch as int)),
{
    let mut digits = String::new();
    push_signed_decimal(&mut digits, epoch);
    assert(digits@ =~= crate::text::signed_decimal(epoch as int));
    JsonValue::Number(digits)
}

proof fn lemma_models_of_three(e: Seq<(String, JsonValue)>)
    requires
        e.len() == 3,
    ensures
        crate::metadata_tree::entry_models(e) =~= seq![
            (e[0].0@, crate::metadata_tree::json_model(e[0].1)),
            (e[1].0@, crate::metadata_tree::json_model(e[1].1)),
            (e[2].0@, crate::metadata_tree::json_model(e[2].1)),
        ],
{
    crate::metadata_tree::lemma_entry_models_index(e);
}

proof fn lemma_models_of_two(e: Seq<(String, JsonValue)>)
    requires
        e.len() == 2,
    ensures
        crate::metadata_tree::entry_models(e) =~= seq![
            (e[0].0@, crate::metadata_tree::json_model(e[0].1)),
            (e[1].0@, crate::metadata_tree::json_model(e[1].1)),
        ],
{
    crate::metadata_tree::lemma_entry_models_index(e);
}

impl Manifest {
    /// The manifest as a JSON value (see `manifest_json`).
    pub fn to_dict(&self) -> (v: JsonValue)
        ensures
            crate::metadata_tree::json_model(v) == manifest_json(
                crate::metadata_tree::entry_models(self.collections@),
                self.persistence,
            ),
    {
        let mut persistence: Vec<(String, JsonValue)> = Vec::new();
        persistence.push((String::from_str("provider"), text_value(self.persistence.provider.as_ref())));
        persistence.push((String::from_str("bucket"), text_value(self.persistence.bucket.as_ref())));
        persistence.push((String::from_str("prefix"), text_value(self.persistence.prefix.as_ref())));
        proof {
            lemma_models_of_three(persistence@);
        }
        let mut top: Vec<(String, JsonValue)> = Vec::new();
        top.push((String::from_str("collections"), JsonValue::Object(copy_entries(&self.collections))));
        top.push((String::from_str("persistence"), JsonValue::Object(persistence)));
        proof {
            lemma_models_of_two(top@);
        }
        JsonValue::Object(top)
    }

    /// Records that `collection` was persisted at `epoch` under `path` at
    /// time `updated_at`, replacing its previous entry.
    pub fn record_version(&mut self, collection: &str, epoch: i64, updated_at: String, path: String)
        requires
            old(self).wf(),
        ensures
            final(self).wf(),
            final(self).persistence == old(self).persistence,
            forall|k: Seq<char>|
                #[trigger] crate::blueprint::json_lookup(crate::metadata_tree::entry_models(final(self).collections@), k)
                    == if k == collection@ {
                    Some(version_entry(epoch, updated_at@, path@))
                } else {
                    crate::blueprint::json_lookup(crate::metadata_tree::entry_models(old(self).collections@), k)
                },
    {
        let mut entry: Vec<(String, JsonValue)> = Vec::new();
        entry.push((String::from_str("latest_epoch"), epoch_number(epoch)));
        entry.push((String::from_str("updated_at"), JsonValue::Text(updated_at)));
        entry.push((String::from_str("path"), JsonValue::Text(path)));
        proof {
            lemma_models_of_three(entry@);
        }
        let ghost entry_model = crate::metadata_tree::entry_models(entry@);
        put_entry(&mut self.collections, collection, JsonValue::Object(entry));
        proof {
            reveal_strlit("latest_epoch");
            reveal_strlit("updated_at");
            reveal_strlit("path");
            assert(entry_model[0].0[0] == 'l' && entry_model[1].0[0] == 'u' && entry_model[2].0[0] == 'p');
            assert(crate::blueprint::distinct_entry_keys(entry_model));
        }
    }

    /// Marks `epoch` as the active epoch of `collection`, activated at
    /// `activated_at`: the collection's entry (a new one when there was
    /// none) gets both fields; an entry that is not an object is left as
    /// it is.
    pub fn set_active_epoch(&mut self, collection: &str, epoch: i64, activated_at: String)
        requires
            old(self).wf(),
        ensures
            final(self).wf(),
            final(self).persistence == old(self).persistence,
            forall|k: Seq<char>|
                k != collection@ ==> #[trigger] crate::blueprint::json_lookup(
                    crate::metadata_tree::entry_models(final(self).collections@),
                    k,
                ) == crate::blueprint::json_lookup(crate::metadata_tree::entry_models(old(self).collections@), k),
            match crate::blueprint::json_lookup(crate::metadata_tree::entry_models(old(self).collections@), collection@) {
                None => crate::blueprint::json_lookup(
                    crate::metadata_tree::entry_models(final(self).collections@),
                    collection@,
                ) matches Some(JsonModel::Object(o)) && activation_holds(o, Seq::empty(), epoch, activated_at@),
                Some(JsonModel::Object(before)) => crate::blueprint::json_lookup(
                    crate::metadata_tree::entry_models(final(self).collections@),
                    collection@,
                ) matches Some(JsonModel::Object(o)) && activation_holds(o, before, epoch, activated_at@),
                Some(other) => crate::blueprint::json_lookup(
                    crate::metadata_tree::entry_models(final(self).collections@),
                    collection@,
                ) == Some(other),
            },
    {
        let ghost old_models = crate::metadata_tree::entry_models(self.collections@);
        let found = find_entry(&self.collections, collection);
        let mut inner: Vec<(String, JsonValue)> = match found {
            Some(i) => match &self.collections[i].1 {
                JsonValue::Object(o) => copy_entries(o),
                _ => {
                    return;
                },
            },
            None => Vec::new(),
        };
        let ghost before_inner = crate::metadata_tree::entry_models(inner@);
        proof {
            if found is None {
                assert(before_inner =~= Seq::<(Seq<char>, JsonModel)>::empty());
            }
            assert(crate::blueprint::distinct_entry_keys(before_inner));
        }
        put_entry(&mut inner, "active_epoch", epoch_number(epoch));
        put_entry(&mut inner, "activated_at", JsonValue::Text(activated_at));
        let ghost after_inner = crate::metadata_tree::entry_models(inner@);
        proof {
            reveal_strlit("active_epoch");
            reveal_strlit("activated_at");
            assert("active_epoch"@ != "activated_at"@) by {
                assert("active_epoch"@[5] != "activated_at"@[5]);
            }
            if found is None {
                assert forall|k: Seq<char>| #[trigger] crate::blueprint::json_lookup(Seq::<(Seq<char>, JsonModel)>::empty(), k) is None by {}
            }
        }
        put_entry(&mut self.collections, collection, JsonValue::Object(inner));
    }
}

impl Manifest {
    /// Whether the manifest is well formed (see `wf`).
    pub fn is_well_formed(&self) -> (ok: bool)
        ensures
            ok == self.wf(),
    {
        let ghost models = crate::metadata_tree::entry_models(self.collections@);
        if !keys_distinct(&self.collections) {
            return false;
        }
        proof {
            crate::metadata_tree::lemma_entry_models_index(self.collections@);
        }
        let mut i: usize = 0;
        while i < self.collections.len()
            invariant
                0 <= i <= self.collections@.len(),
                models == crate::metadata_tree::entry_models(self.collections@),
                models.len() == self.collections@.len(),
                crate::blueprint::distinct_entry_keys(models),
                forall|t: int|
                    0 <= t < self.collections@.len() ==> #[trigger] models[t] == (
                        self.collections@[t].0@,
                        crate::metadata_tree::json_model(self.collections@[t].1),
                    ),
                forall|t: int|
                    0 <= t < i ==> ((#[trigger] models[t]).1 matches JsonModel::Object(o)
                        ==> crate::blueprint::distinct_entry_keys(o)),
            decreases self.collections@.len() - i,
        {
            match &self.collections[i].1 {
                JsonValue::Object(o) => {
                    if !keys_distinct(o) {
                        proof {
                            crate::blueprint::lemma_lookup_distinct(models, models[i as int].0);
                            assert(crate::blueprint::json_lookup(models, models[i as int].0) == Some(models[i as int].1));
                        }
                        return false;
                    }
                },
                _ => {},
            }
            i = i + 1;
        }
        proof {
            assert forall|k: Seq<char>|
                (#[trigger] crate::blueprint::json_lookup(models, k) matches Some(JsonModel::Object(o))
                    ==> crate::blueprint::distinct_entry_keys(o)) by {
                crate::blueprint::lemma_lookup_distinct(models, k);
                if exists|t: int| 0 <= t < models.len() && models[t].0 == k {
                    let t = choose|t: int| 0 <= t < models.len() && models[t].0 == k;
                    assert(crate::blueprint::json_lookup(models, k) == Some(models[t].1));
                }
            }
        }
        true
    }
}

} // verus!
