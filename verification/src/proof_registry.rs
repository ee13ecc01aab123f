//! Deterministic membership proofs for vector collections.
//!
//! Each collection is committed to by a binary hash tree whose leaves are
//! the digests of its entries, taken in increasing order of entry id.  The
//! collection roots are folded, in increasing order of collection name, into
//! a single commit root, which is signed with HMAC-SHA-256.

use vstd::prelude::*;
use crate::hashing::{hmac_sha256_hex_digest, sha256_hex_digest};
use crate::merkle::{build_levels, copy_strings, fold_path, path_in_tree};
use crate::order::sorted_order;

use crate::text::{join3, text_eq};

verus! {

/// Failures reported about membership proofs.
pub enum ProofError {
    VerificationFailed,
    InvalidProof(String),
}

/// A sparse-Merkle-style proof that a vector entry belongs to a collection.
pub struct MembershipProof {
    /// Collection name.
    pub collection: String,
    /// Vector id.
    pub vector_id: String,
    /// Leaf digest of the entry.
    pub leaf: String,
    /// Sibling digests with the side ("left" or "right") they stand on,
    /// lowest level first.
    pub siblings: Vec<(String, String)>,
    /// Root digest of the collection.
    pub collection_root: String,
    /// Commit root of all collections when the proof was issued.
    pub commit_root: String,
}

/// The model of a membership proof: its texts as character sequences.
pub struct ProofView {
    pub collection: Seq<char>,
    pub vector_id: Seq<char>,
    pub leaf: Seq<char>,
    pub siblings: Seq<(Seq<char>, Seq<char>)>,
    pub collection_root: Seq<char>,
    pub commit_root: Seq<char>,
}

impl View for MembershipProof {
    type V = ProofView;

    open spec fn view(&self) -> ProofView {
        ProofView {
            collection: self.collection@,
            vector_id: self.vector_id@,
            leaf: self.leaf@,
            siblings: crate::merkle::pairs_view(self.siblings@),
            collection_root: self.collection_root@,
            commit_root: self.commit_root@,
        }
    }
}

/// An entry of a collection as the registry sees it: its id and the
/// canonical bytes from which its leaf digest is computed.
pub struct VectorLeaf {
    pub id: String,
    pub material: Vec<u8>,
}

/// The state of a collection handed to the registry: its entries and the
/// proof version recorded in its index metadata (0 when absent).
pub struct CollectionState {
    pub vectors: Vec<VectorLeaf>,
    pub proof_version: i64,
}

/// What `verify` checks: the path folds from the leaf (or the given leaf
/// digest) up to the collection root, and the given commit root, if any, is
/// the proof's commit root.
pub open spec fn proof_verifies(
    proof: ProofView,
    leaf_hash: Option<Seq<char>>,
    commit_root: Option<Seq<char>>,
) -> bool {
    let start = match leaf_hash {
        Some(l) => l,
        None => proof.leaf,
    };
    &&& crate::merkle::fold_siblings(start, proof.siblings) == Some(proof.collection_root)
    &&& match commit_root {
        Some(c) => c == proof.commit_root,
        None => true,
    }
}

impl MembershipProof {
    /// Verifies the proof against an optional externally supplied leaf
    /// digest and commit root.
    pub fn verify(&self, leaf_hash: Option<&str>, commit_root: Option<&str>) -> (valid: bool)
        ensures
            valid == proof_verifies(
                self@,
                match leaf_hash {
                    Some(l) => Some(l@),
                    None => None,
                },
                match commit_root {
                    Some(c) => Some(c@),
                    None => None,
                },
            ),
    {
        let start: &str = match leaf_hash {
            Some(l) => l,
            None => self.leaf.as_str(),
        };
        match fold_path(start, &self.siblings) {
            None => false,
            Some(running) => {
                if running != self.collection_root {
                    false
                } else {
                    match commit_root {
                        Some(c) => text_eq(c, self.commit_root.as_str()),
                        None => true,
                    }
                }
            },
        }
    }

    /// A field-by-field copy.
    pub fn duplicate(&self) -> (copy: MembershipProof)
        ensures
            copy@ == self@,
    {
        let mut siblings: Vec<(String, String)> = Vec::new();
        let mut i: usize = 0;
        while i < self.siblings.len()
            invariant
                0 <= i <= self.siblings@.len(),
                siblings@ == self.siblings@.subrange(0, i as int),
            decreases self.siblings@.len() - i,
        {
            let pair = (self.siblings[i].0.clone(), self.siblings[i].1.clone());
            assert(pair == self.siblings@[i as int]);
            siblings.push(pair);
            assert(siblings@ =~= self.siblings@.subrange(0, i + 1));
            i = i + 1;
        }
        assert(siblings@ =~= self.siblings@);
        assert(crate::merkle::pairs_view(siblings@) =~= crate::merkle::pairs_view(self.siblings@));
        MembershipProof {
            collection: self.collection.clone(),
            vector_id: self.vector_id.clone(),
            leaf: self.leaf.clone(),
            siblings,
            collection_root: self.collection_root.clone(),
            commit_root: self.commit_root.clone(),
        }
    }
}

/// The leaf digest of an entry: SHA-256 of its canonical bytes.
pub open spec fn leaf_spec(material: Seq<u8>) -> Seq<char> {
    crate::hashing::sha256_hex(material)
}

/// The root of a collection without entries: SHA-256 of `name|empty`.
pub open spec fn empty_root_spec(name: Seq<char>) -> Seq<char> {
    crate::hashing::sha256_hex(vstd::utf8::encode_utf8(name + seq!['|', 'e', 'm', 'p', 't', 'y']))
}

/// Ids of entries, as character sequences.
pub open spec fn entry_ids(vectors: Seq<VectorLeaf>) -> Seq<Seq<char>> {
    vectors.map_values(|v: VectorLeaf| v.id@)
}

/// Leaf digests carried by proofs, in order.
pub open spec fn view_leaves(proofs: Seq<ProofView>) -> Seq<Seq<char>> {
    proofs.map_values(|p: ProofView| p.leaf)
}

/// `proof` is about one of `vectors` and carries that entry's leaf digest.
pub open spec fn proves_some_entry(proof: ProofView, vectors: Seq<VectorLeaf>) -> bool {
    exists|e: int|
        0 <= e < vectors.len() && vectors[e].id@ == proof.vector_id && proof.leaf == leaf_spec(
            vectors[e].material@,
        )
}

/// Some proof in `proofs` is about `entry`.
pub open spec fn has_proof(entry: VectorLeaf, proofs: Seq<ProofView>) -> bool {
    exists|k: int| 0 <= k < proofs.len() && entry.id@ == proofs[k].vector_id
}

/// `root` and `proofs` are the commitment to a collection named `name` with
/// entries `vectors`: one proof per entry, in increasing id order, each with
/// its entry's leaf digest and its path in the tree over those leaves.
/// Commit roots are not part of it.
pub open spec fn commits_collection(
    name: Seq<char>,
    vectors: Seq<VectorLeaf>,
    root: Seq<char>,
    proofs: Seq<ProofView>,
) -> bool {
    &&& proofs.len() == vectors.len()
    &&& forall|x: int, y: int|
        0 <= x < y < proofs.len() ==> crate::order::text_lt(proofs[x].vector_id, proofs[y].vector_id)
    &&& forall|k: int| 0 <= k < proofs.len() ==> proves_some_entry(#[trigger] proofs[k], vectors)
    &&& forall|e: int| 0 <= e < vectors.len() ==> has_proof(#[trigger] vectors[e], proofs)
    &&& root == (if vectors.len() == 0 {
        empty_root_spec(name)
    } else {
        crate::merkle::merkle_root(view_leaves(proofs))
    })
    &&& forall|k: int|
        0 <= k < proofs.len() ==> {
            &&& (#[trigger] proofs[k]).collection == name
            &&& proofs[k].collection_root == root
            &&& proofs[k].siblings == crate::merkle::merkle_path(view_leaves(proofs), k)
        }
}

/// Models of a sequence of proofs.
pub open spec fn proof_views(proofs: Seq<MembershipProof>) -> Seq<ProofView> {
    proofs.map_values(|p: MembershipProof| p@)
}

proof fn lemma_proofs_commit(
    name: Seq<char>,
    vectors: Seq<VectorLeaf>,
    order: Seq<usize>,
    lv: Seq<Seq<char>>,
    root: Seq<char>,
    proofs: Seq<MembershipProof>,
)
    requires
        0 < vectors.len() <= usize::MAX,
        order.len() == vectors.len(),
        crate::permutation::is_permutation_of_range(order, vectors.len() as nat),
        forall|e: int| 0 <= e < vectors.len() ==> #[trigger] order.contains(e as usize),
        crate::order::increasing_under(entry_ids(vectors), order),
        lv.len() == vectors.len(),
        forall|t: int| 0 <= t < lv.len() ==> #[trigger] lv[t] == leaf_spec(vectors[order[t] as int].material@),
        root == crate::merkle::merkle_root(lv),
        proofs.len() == vectors.len(),
        forall|k: int| 0 <= k < proofs.len() ==> {
            &&& (#[trigger] proofs[k]).collection@ == name
            &&& proofs[k].vector_id@ == vectors[order[k] as int].id@
            &&& proofs[k].leaf@ == lv[k]
            &&& proofs[k].collection_root@ == root
            &&& crate::merkle::pairs_view(proofs[k].siblings@) == crate::merkle::merkle_path(lv, k)
        },
    ensures
        commits_collection(name, vectors, root, proof_views(proofs)),
{
    let pv = proof_views(proofs);
    assert(view_leaves(pv) =~= lv);
    assert forall|x: int, y: int| 0 <= x < y < pv.len() implies crate::order::text_lt(pv[x].vector_id, pv[y].vector_id) by {
        assert(entry_ids(vectors)[order[x] as int] == vectors[order[x] as int].id@);
        assert(entry_ids(vectors)[order[y] as int] == vectors[order[y] as int].id@);
    }
    assert forall|k: int| 0 <= k < pv.len() implies proves_some_entry(#[trigger] pv[k], vectors) by {
        let e = order[k] as int;
        assert(pv[k] == proofs[k]@);
        assert(0 <= e < vectors.len() && vectors[e].id@ == pv[k].vector_id && pv[k].leaf == leaf_spec(
            vectors[e].material@,
        ));
    }
    assert forall|e: int| 0 <= e < vectors.len() implies has_proof(#[trigger] vectors[e], pv) by {
        assert(order.contains(e as usize));
        let k = choose|k: int| 0 <= k < order.len() && order[k] == e as usize;
        assert(pv[k] == proofs[k]@);
        assert(0 <= k < pv.len() && vectors[e].id@ == pv[k].vector_id);
    }
    assert forall|k: int| 0 <= k < pv.len() implies {
        &&& (#[trigger] pv[k]).collection == name
        &&& pv[k].collection_root == root
        &&& pv[k].siblings == crate::merkle::merkle_path(view_leaves(pv), k)
    } by {
        assert(pv[k] == proofs[k]@);
    }
}

/// Computes the leaf digest of an entry.
pub fn leaf_hash(material: &[u8]) -> (digest: String)
    ensures
        digest@ == leaf_spec(material@),
{
    sha256_hex_digest(material)
}

/// Builds the tree of a collection: its root and one proof per entry (with
/// an empty commit root, filled in later).
pub fn build_collection_root(collection: &str, vectors: &Vec<VectorLeaf>) -> (built: (String, Vec<MembershipProof>))
    requires
        crate::order::distinct_keys(entry_ids(vectors@)),
    ensures
        commits_collection(collection@, vectors@, built.0@, proof_views(built.1@)),
        forall|k: int| 0 <= k < built.1@.len() ==> (#[trigger] built.1@[k]).commit_root@ == Seq::<char>::empty(),
{
    let n = vectors.len();
    if n == 0 {
        let joined = join3(collection, "|", "empty");
        proof {
            reveal_strlit("|");
            reveal_strlit("empty");
            assert(joined@ =~= collection@ + seq!['|', 'e', 'm', 'p', 't', 'y']);
        }
        let root = sha256_hex_digest(joined.as_str().as_bytes());
        let proofs: Vec<MembershipProof> = Vec::new();
        assert(root@ == empty_root_spec(collection@));
        assert(proof_views(proofs@) =~= Seq::<ProofView>::empty());
        return (root, proofs);
    }
    let mut ids: Vec<String> = Vec::new();
    let mut i: usize = 0;
    while i < n
        invariant
            n == vectors@.len(),
            0 <= i <= n,
            ids@.len() == i,
            forall|t: int| 0 <= t < i ==> #[trigger] ids@[t]@ == vectors@[t].id@,
        decreases n - i,
    {
        ids.push(vectors[i].id.clone());
        i = i + 1;
    }
    assert(ids@.map_values(|s: String| s@) =~= entry_ids(vectors@));
    let order = sorted_order(&ids);
    let mut leaves: Vec<String> = Vec::new();
    let mut p: usize = 0;
    while p < n
        invariant
            n == vectors@.len() == order@.len(),
            crate::permutation::is_permutation_of_range(order@, n as nat),
            0 <= p <= n,
            leaves@.len() == p,
            forall|t: int| 0 <= t < p ==> #[trigger] leaves@[t]@ == leaf_spec(vectors@[order@[t] as int].material@),
        decreases n - p,
    {
        let e = order[p];
        leaves.push(leaf_hash(vectors[e].material.as_slice()));
        p = p + 1;
    }
    let tree = build_levels(&leaves);
    let top = tree.len() - 1;
    let root = tree[top][0].clone();
    proof {
        crate::merkle::lemma_built_root(tree@);
        assert(root@ == crate::merkle::tree_view(tree@)[top as int][0]);
    }
    let ghost lv = crate::merkle::strings_view(leaves@);
    let mut proofs: Vec<MembershipProof> = Vec::new();
    let mut q: usize = 0;
    while q < n
        invariant
            n == vectors@.len() == order@.len() == leaves@.len(),
            crate::permutation::is_permutation_of_range(order@, n as nat),
            forall|e: int| 0 <= e < n ==> #[trigger] order@.contains(e as usize),
            crate::order::increasing_under(entry_ids(vectors@), order@),
            forall|t: int| 0 <= t < n ==> #[trigger] leaves@[t]@ == leaf_spec(vectors@[order@[t] as int].material@),
            forall|t: int| 0 <= t < n ==> #[trigger] ids@[t]@ == vectors@[t].id@,
            ids@.len() == n,
            crate::merkle::is_tree(crate::merkle::tree_view(tree@)),
            crate::merkle::tree_view(tree@)[0] == lv,
            lv == crate::merkle::strings_view(leaves@),
            root@ == crate::merkle::merkle_root(lv),
            0 <= q <= n,
            proofs@.len() == q,
            forall|k: int| 0 <= k < q ==> {
                &&& (#[trigger] proofs@[k]).collection@ == collection@
                &&& proofs@[k].vector_id@ == vectors@[order@[k] as int].id@
                &&& proofs@[k].leaf@ == lv[k]
                &&& proofs@[k].collection_root@ == root@
                &&& proofs@[k].commit_root@ == Seq::<char>::empty()
                &&& crate::merkle::pairs_view(proofs@[k].siblings@) == crate::merkle::merkle_path(lv, k)
            },
        decreases n - q,
    {
        let siblings = path_in_tree(&tree, q);
        let e = order[q];
        let proof_q = MembershipProof {
            collection: String::from_str(collection),
            vector_id: ids[e].clone(),
            leaf: leaves[q].clone(),
            siblings,
            collection_root: root.clone(),
            commit_root: String::new(),
        };
        proofs.push(proof_q);
        q = q + 1;
    }
    proof {
        lemma_proofs_commit(collection@, vectors@, order@, lv, root@, proofs@);
    }
    (root, proofs)
}

/// A committed collection: its name, the proof version it was built at,
/// its root and its proofs (in increasing id order).
pub struct CollectionRecord {
    pub name: String,
    pub version: i64,
    pub root: String,
    pub proofs: Vec<MembershipProof>,
}

/// The model of a committed collection.
pub struct CollectionModel {
    pub name: Seq<char>,
    pub version: i64,
    pub root: Seq<char>,
    pub proofs: Seq<ProofView>,
}

impl View for CollectionRecord {
    type V = CollectionModel;

    open spec fn view(&self) -> CollectionModel {
        CollectionModel {
            name: self.name@,
            version: self.version,
            root: self.root@,
            proofs: proof_views(self.proofs@),
        }
    }
}

/// Models of a sequence of committed collections.
pub open spec fn record_views(records: Seq<CollectionRecord>) -> Seq<CollectionModel> {
    records.map_values(|r: CollectionRecord| r@)
}

/// The commit root, key id and signature of a registry.
pub struct CommitSnapshot {
    pub commit_root: String,
    pub kid: String,
    pub signature: String,
}

/// Constructs and caches membership proofs for vector collections.
pub struct ProofRegistry {
    kid: String,
    secret: Vec<u8>,
    records: Vec<CollectionRecord>,
    commit_root: String,
    signature: String,
}

/// The model of a proof registry.
pub struct RegistryView {
    pub kid: Seq<char>,
    pub secret: Seq<u8>,
    pub collections: Seq<CollectionModel>,
    pub commit_root: Seq<char>,
    pub signature: Seq<char>,
}

impl View for ProofRegistry {
    type V = RegistryView;

    closed spec fn view(&self) -> RegistryView {
        RegistryView {
            kid: self.kid@,
            secret: self.secret@,
            collections: record_views(self.records@),
            commit_root: self.commit_root@,
            signature: self.signature@,
        }
    }
}

/// The HMAC signature of a commit root under `secret`.
pub open spec fn signature_spec(secret: Seq<u8>, commit_root: Seq<char>) -> Seq<char> {
    crate::hashing::hmac_sha256_hex(secret, vstd::utf8::encode_utf8(commit_root))
}

/// Folds `(name, root)` pairs into a digest: starting from the empty text,
/// each pair turns `d` into SHA-256 of `d|name|root`.
pub open spec fn commit_fold(pairs: Seq<(Seq<char>, Seq<char>)>) -> Seq<char>
    decreases pairs.len(),
{
    if pairs.len() == 0 {
        Seq::empty()
    } else {
        let last = pairs[pairs.len() - 1];
        crate::hashing::sha256_hex(
            vstd::utf8::encode_utf8(
                commit_fold(pairs.drop_last()) + seq!['|'] + last.0 + seq!['|'] + last.1,
            ),
        )
    }
}

/// The text hashed for a registry without collections.
pub open spec fn empty_commit_word() -> Seq<char> {
    seq!['e', 'm', 'p', 't', 'y', '-', 'c', 'o', 'm', 'm', 'i', 't']
}

/// The commit root over collections listed in increasing name order.
pub open spec fn commit_root_spec(collections: Seq<CollectionModel>) -> Seq<char> {
    if collections.len() == 0 {
        crate::hashing::sha256_hex(vstd::utf8::encode_utf8(empty_commit_word()))
    } else {
        commit_fold(collections.map_values(|c: CollectionModel| (c.name, c.root)))
    }
}

/// The commit root of a fresh registry: 64 zeros.
pub open spec fn zero_root() -> Seq<char> {
    Seq::new(64, |i: int| '0')
}

/// Everything a registry keeps true: collections in strictly increasing
/// name order, proofs in strictly increasing id order, every stored proof
/// folds up to its collection's root and carries the current commit root,
/// and the signature signs the current commit root.
pub open spec fn registry_wf(v: RegistryView) -> bool {
    &&& forall|a: int, b: int|
        0 <= a < b < v.collections.len() ==> crate::order::text_lt(v.collections[a].name, v.collections[b].name)
    &&& v.signature == signature_spec(v.secret, v.commit_root)
    &&& v.signature.len() == 64
    &&& forall|c: int| 0 <= c < v.collections.len() ==> collection_wf(#[trigger] v.collections[c], v.commit_root)
}

/// A committed collection whose proofs are in strictly increasing id
/// order, name the collection and its root, and fold up to that root.
pub open spec fn collection_sound(c: CollectionModel) -> bool {
    &&& forall|a: int, b: int|
        0 <= a < b < c.proofs.len() ==> crate::order::text_lt(c.proofs[a].vector_id, c.proofs[b].vector_id)
    &&& forall|k: int|
        0 <= k < c.proofs.len() ==> {
            &&& (#[trigger] c.proofs[k]).collection == c.name
            &&& c.proofs[k].collection_root == c.root
            &&& crate::merkle::fold_siblings(c.proofs[k].leaf, c.proofs[k].siblings) == Some(c.root)
        }
}

/// A sound committed collection whose proofs all carry `commit_root`.
pub open spec fn collection_wf(c: CollectionModel, commit_root: Seq<char>) -> bool {
    &&& collection_sound(c)
    &&& forall|k: int| 0 <= k < c.proofs.len() ==> (#[trigger] c.proofs[k]).commit_root == commit_root
}

/// A proof with its commit root left blank.
pub open spec fn unstamped(p: ProofView) -> ProofView {
    ProofView { commit_root: Seq::empty(), ..p }
}

/// Proofs with their commit roots left blank.
pub open spec fn unstamped_all(proofs: Seq<ProofView>) -> Seq<ProofView> {
    proofs.map_values(|p: ProofView| unstamped(p))
}

/// Some collection in `cols` is named `name`.
pub open spec fn has_collection(cols: Seq<CollectionModel>, name: Seq<char>) -> bool {
    exists|i: int| 0 <= i < cols.len() && cols[i].name == name
}

/// The registry holds, for `(name, version)`, a collection that a refresh
/// keeps as it is.
pub open spec fn keeps_collection(cols: Seq<CollectionModel>, name: Seq<char>, version: i64) -> bool {
    exists|i: int| 0 <= i < cols.len() && cols[i].name == name && cols[i].version == version
}

/// Names of the collections handed to a refresh, as character sequences.
pub open spec fn input_names(collections: Seq<(String, CollectionState)>) -> Seq<Seq<char>> {
    collections.map_values(|c: (String, CollectionState)| c.0@)
}

/// What a refresh makes of the collection `name` handed in with `state`:
/// it is named and versioned as handed in; when the registry already held
/// `name` at that version, its root and proofs stay (up to commit roots),
/// and otherwise root and proofs are the commitment to the entries handed in.
pub open spec fn refreshed_from(
    old_cols: Seq<CollectionModel>,
    name: Seq<char>,
    state: CollectionState,
    c: CollectionModel,
) -> bool {
    &&& c.name == name
    &&& c.version == state.proof_version
    &&& if keeps_collection(old_cols, name, state.proof_version) {
        exists|j: int|
            0 <= j < old_cols.len() && old_cols[j].name == name && old_cols[j].version == state.proof_version
                && old_cols[j].root == c.root && unstamped_all(old_cols[j].proofs) == unstamped_all(c.proofs)
    } else {
        commits_collection(name, state.vectors@, c.root, unstamped_all(c.proofs))
    }
}

/// Some collection of `cols` is what a refresh makes of `entry`.
pub open spec fn has_refreshed(
    cols: Seq<CollectionModel>,
    old_cols: Seq<CollectionModel>,
    entry: (String, CollectionState),
) -> bool {
    exists|i: int| 0 <= i < cols.len() && refreshed_from(old_cols, entry.0@, entry.1, cols[i])
}

/// Some collection handed to a refresh is not kept as the registry holds it.
pub open spec fn refresh_rebuilds(old_cols: Seq<CollectionModel>, collections: Seq<(String, CollectionState)>) -> bool {
    exists|c: int|
        0 <= c < collections.len() && !keeps_collection(
            old_cols,
            collections[c].0@,
            collections[c].1.proof_version,
        )
}

/// Whether a refresh is the same on two collection models depends only on
/// names, versions, roots and proofs up to commit roots.
proof fn lemma_refreshed_transfer(
    old_cols: Seq<CollectionModel>,
    name: Seq<char>,
    state: CollectionState,
    a: CollectionModel,
    b: CollectionModel,
)
    requires
        refreshed_from(old_cols, name, state, a),
        b.name == a.name,
        b.version == a.version,
        b.root == a.root,
        unstamped_all(b.proofs) == unstamped_all(a.proofs),
    ensures
        refreshed_from(old_cols, name, state, b),
{
}

/// Law: a proof stored in a well-formed registry verifies against the
/// registry's current commit root.
pub proof fn lemma_stored_proof_verifies(v: RegistryView, c: int, k: int)
    requires
        registry_wf(v),
        0 <= c < v.collections.len(),
        0 <= k < v.collections[c].proofs.len(),
    ensures
        proof_verifies(v.collections[c].proofs[k], None, Some(v.commit_root)),
{
    assert(collection_wf(v.collections[c], v.commit_root));
}

/// A collection committed to by `root` and `proofs` is sound.
proof fn lemma_committed_sound(name: Seq<char>, version: i64, vectors: Seq<VectorLeaf>, root: Seq<char>, proofs: Seq<ProofView>)
    requires
        commits_collection(name, vectors, root, proofs),
    ensures
        collection_sound(CollectionModel { name, version, root, proofs }),
{
    assert forall|k: int| 0 <= k < proofs.len() implies crate::merkle::fold_siblings(proofs[k].leaf, proofs[k].siblings) == Some(root) by {
        assert(view_leaves(proofs)[k] == proofs[k].leaf);
        crate::merkle::lemma_path_reaches_root(view_leaves(proofs), k);
    }
}

/// Ids carried by proofs, in order.
pub open spec fn proof_ids(proofs: Seq<ProofView>) -> Seq<Seq<char>> {
    proofs.map_values(|p: ProofView| p.vector_id)
}

/// Proofs that each prove an entry, one per entry, in strictly increasing
/// id order, carry the same ids.
proof fn lemma_same_ids(vectors: Seq<VectorLeaf>, p1: Seq<ProofView>, p2: Seq<ProofView>)
    requires
        p1.len() == vectors.len(),
        p2.len() == vectors.len(),
        crate::order::strictly_increasing(proof_ids(p1)),
        crate::order::strictly_increasing(proof_ids(p2)),
        forall|k: int| 0 <= k < p1.len() ==> proves_some_entry(#[trigger] p1[k], vectors),
        forall|k: int| 0 <= k < p2.len() ==> proves_some_entry(#[trigger] p2[k], vectors),
        forall|e: int| 0 <= e < vectors.len() ==> has_proof(#[trigger] vectors[e], p1),
        forall|e: int| 0 <= e < vectors.len() ==> has_proof(#[trigger] vectors[e], p2),
    ensures
        proof_ids(p1) == proof_ids(p2),
{
    let a = proof_ids(p1);
    let b = proof_ids(p2);
    assert forall|x: int| 0 <= x < a.len() implies b.contains(#[trigger] a[x]) by {
        assert(proves_some_entry(p1[x], vectors));
        let e = choose|e: int|
            0 <= e < vectors.len() && vectors[e].id@ == p1[x].vector_id && p1[x].leaf == leaf_spec(vectors[e].material@);
        assert(has_proof(vectors[e], p2));
        let k = choose|k: int| 0 <= k < p2.len() && vectors[e].id@ == p2[k].vector_id;
        assert(b[k] == a[x]);
    }
    assert forall|x: int| 0 <= x < b.len() implies a.contains(#[trigger] b[x]) by {
        assert(proves_some_entry(p2[x], vectors));
        let e = choose|e: int|
            0 <= e < vectors.len() && vectors[e].id@ == p2[x].vector_id && p2[x].leaf == leaf_spec(vectors[e].material@);
        assert(has_proof(vectors[e], p1));
        let k = choose|k: int| 0 <= k < p1.len() && vectors[e].id@ == p1[k].vector_id;
        assert(a[k] == b[x]);
    }
    crate::order::lemma_increasing_same_texts(a, b, a.len() as int);
    assert(a =~= b);
}

/// Proofs with the same ids, each proving an entry of entries with distinct
/// ids, carry the same leaves.
proof fn lemma_same_leaves(vectors: Seq<VectorLeaf>, p1: Seq<ProofView>, p2: Seq<ProofView>)
    requires
        crate::order::distinct_keys(entry_ids(vectors)),
        proof_ids(p1) == proof_ids(p2),
        forall|k: int| 0 <= k < p1.len() ==> proves_some_entry(#[trigger] p1[k], vectors),
        forall|k: int| 0 <= k < p2.len() ==> proves_some_entry(#[trigger] p2[k], vectors),
    ensures
        view_leaves(p1) == view_leaves(p2),
{
    assert(p1.len() == proof_ids(p1).len());
    assert(p2.len() == proof_ids(p2).len());
    assert forall|k: int| 0 <= k < p1.len() implies #[trigger] view_leaves(p1)[k] == view_leaves(p2)[k] by {
        assert(proof_ids(p1)[k] == proof_ids(p2)[k]);
        assert(proves_some_entry(p1[k], vectors));
        assert(proves_some_entry(p2[k], vectors));
        let e1 = choose|e: int|
            0 <= e < vectors.len() && vectors[e].id@ == p1[k].vector_id && p1[k].leaf == leaf_spec(vectors[e].material@);
        let e2 = choose|e: int|
            0 <= e < vectors.len() && vectors[e].id@ == p2[k].vector_id && p2[k].leaf == leaf_spec(vectors[e].material@);
        assert(entry_ids(vectors)[e1] == entry_ids(vectors)[e2]);
    }
    assert(view_leaves(p1) =~= view_leaves(p2));
}

/// The commitment to a collection's entries is unique: its root is fixed
/// by the name and the entries.
proof fn lemma_commitment_unique(
    name: Seq<char>,
    vectors: Seq<VectorLeaf>,
    r1: Seq<char>,
    p1: Seq<ProofView>,
    r2: Seq<char>,
    p2: Seq<ProofView>,
)
    requires
        crate::order::distinct_keys(entry_ids(vectors)),
        commits_collection(name, vectors, r1, p1),
        commits_collection(name, vectors, r2, p2),
    ensures
        r1 == r2,
{
    lemma_increasing_ids(name, vectors, r1, p1);
    lemma_increasing_ids(name, vectors, r2, p2);
    lemma_same_ids(vectors, p1, p2);
    lemma_same_leaves(vectors, p1, p2);
}

/// The ids of a commitment's proofs increase strictly.
proof fn lemma_increasing_ids(name: Seq<char>, vectors: Seq<VectorLeaf>, r: Seq<char>, p: Seq<ProofView>)
    requires
        commits_collection(name, vectors, r, p),
    ensures
        crate::order::strictly_increasing(proof_ids(p)),
{
    assert forall|x: int, y: int| 0 <= x < y < proof_ids(p).len() implies crate::order::text_lt(
        proof_ids(p)[x],
        proof_ids(p)[y],
    ) by {
        assert(proof_ids(p)[x] == p[x].vector_id);
        assert(proof_ids(p)[y] == p[y].vector_id);
    }
}

/// Soundness ignores commit roots.
proof fn lemma_sound_unstamped(a: CollectionModel, b: CollectionModel)
    requires
        collection_sound(a),
        b.name == a.name,
        b.root == a.root,
        unstamped_all(b.proofs) == unstamped_all(a.proofs),
    ensures
        collection_sound(b),
{
    assert(b.proofs.len() == unstamped_all(b.proofs).len());
    assert(a.proofs.len() == unstamped_all(a.proofs).len());
    assert forall|k: int| 0 <= k < b.proofs.len() implies {
        &&& b.proofs[k].vector_id == a.proofs[k].vector_id
        &&& b.proofs[k].collection == a.proofs[k].collection
        &&& b.proofs[k].collection_root == a.proofs[k].collection_root
        &&& b.proofs[k].leaf == a.proofs[k].leaf
        &&& b.proofs[k].siblings == a.proofs[k].siblings
    } by {
        assert(unstamped_all(b.proofs)[k] == unstamped(b.proofs[k]));
        assert(unstamped_all(a.proofs)[k] == unstamped(a.proofs[k]));
    }
}

impl CollectionRecord {
    /// A copy of the record.
    pub fn duplicate(&self) -> (copy: CollectionRecord)
        ensures
            copy@ == self@,
    {
        let mut proofs: Vec<MembershipProof> = Vec::new();
        let mut k: usize = 0;
        while k < self.proofs.len()
            invariant
                0 <= k <= self.proofs@.len(),
                proofs@.len() == k,
                forall|t: int| 0 <= t < k ==> #[trigger] proofs@[t]@ == self.proofs@[t]@,
            decreases self.proofs@.len() - k,
        {
            proofs.push(self.proofs[k].duplicate());
            k = k + 1;
        }
        assert(proof_views(proofs@) =~= proof_views(self.proofs@));
        CollectionRecord { name: self.name.clone(), version: self.version, root: self.root.clone(), proofs }
    }

    /// The record with every proof's commit root set to `commit_root`.
    fn stamped(&self, commit_root: &String) -> (stamped: CollectionRecord)
        ensures
            stamped@.name == self@.name,
            stamped@.version == self@.version,
            stamped@.root == self@.root,
            stamped@.proofs.len() == self@.proofs.len(),
            forall|k: int|
                0 <= k < stamped@.proofs.len() ==> #[trigger] stamped@.proofs[k] == (ProofView {
                    commit_root: commit_root@,
                    ..self@.proofs[k]
                }),
            forall|k: int| 0 <= k < stamped@.proofs.len() ==> (#[trigger] stamped@.proofs[k]).commit_root == commit_root@,
            unstamped_all(stamped@.proofs) == unstamped_all(self@.proofs),
    {
        let mut proofs: Vec<MembershipProof> = Vec::new();
        let mut k: usize = 0;
        while k < self.proofs.len()
            invariant
                0 <= k <= self.proofs@.len(),
                proofs@.len() == k,
                forall|t: int|
                    0 <= t < k ==> #[trigger] proofs@[t]@ == (ProofView {
                        commit_root: commit_root@,
                        ..self.proofs@[t]@
                    }),
            decreases self.proofs@.len() - k,
        {
            let p = self.proofs[k].duplicate();
            let q = MembershipProof {
                collection: p.collection,
                vector_id: p.vector_id,
                leaf: p.leaf,
                siblings: p.siblings,
                collection_root: p.collection_root,
                commit_root: commit_root.clone(),
            };
            proofs.push(q);
            k = k + 1;
        }
        let out = CollectionRecord { name: self.name.clone(), version: self.version, root: self.root.clone(), proofs };
        assert(unstamped_all(out@.proofs) =~= unstamped_all(self@.proofs)) by {
            assert forall|t: int| 0 <= t < out@.proofs.len() implies #[trigger] unstamped_all(out@.proofs)[t]
                == unstamped_all(self@.proofs)[t] by {
                assert(out@.proofs[t] == proofs@[t]@);
                assert(self@.proofs[t] == self.proofs@[t]@);
            }
        }
        out
    }
}

/// The position of the record named `name`.
fn find_record(records: &Vec<CollectionRecord>, name: &str) -> (pos: Option<usize>)
    ensures
        match pos {
            Some(i) => i < records@.len() && records@[i as int].name@ == name@,
            None => forall|i: int| 0 <= i < records@.len() ==> #[trigger] records@[i].name@ != name@,
        },
{
    let mut i: usize = 0;
    while i < records.len()
        invariant
            0 <= i <= records@.len(),
            forall|t: int| 0 <= t < i ==> #[trigger] records@[t].name@ != name@,
        decreases records@.len() - i,
    {
        if text_eq(records[i].name.as_str(), name) {
            return Some(i);
        }
        i = i + 1;
    }
    None
}

/// The position of the proof about `vector_id`.
fn find_proof(proofs: &Vec<MembershipProof>, vector_id: &str) -> (pos: Option<usize>)
    ensures
        match pos {
            Some(i) => i < proofs@.len() && proofs@[i as int].vector_id@ == vector_id@,
            None => forall|i: int| 0 <= i < proofs@.len() ==> #[trigger] proofs@[i].vector_id@ != vector_id@,
        },
{
    let mut i: usize = 0;
    while i < proofs.len()
        invariant
            0 <= i <= proofs@.len(),
            forall|t: int| 0 <= t < i ==> #[trigger] proofs@[t].vector_id@ != vector_id@,
        decreases proofs@.len() - i,
    {
        if text_eq(proofs[i].vector_id.as_str(), vector_id) {
            return Some(i);
        }
        i = i + 1;
    }
    None
}

/// Signs a commit root with HMAC-SHA-256 under `secret`.
fn sign_commit(secret: &[u8], commit_root: &str) -> (signature: String)
    ensures
        signature@ == signature_spec(secret@, commit_root@),
        signature@.len() == 64,
{
    hmac_sha256_hex_digest(secret, commit_root.as_bytes())
}

/// Folds the roots of `records` (in their order) into the commit root.
fn combine_collection_roots(records: &Vec<CollectionRecord>) -> (digest: String)
    ensures
        digest@ == commit_root_spec(record_views(records@)),
{
    let ghost views = record_views(records@);
    let ghost pairs = views.map_values(|c: CollectionModel| (c.name, c.root));
    if records.len() == 0 {
        let word = "empty-commit";
        proof {
            reveal_strlit("empty-commit");
            assert(word@ =~= empty_commit_word());
        }
        return sha256_hex_digest(word.as_bytes());
    }
    let mut digest = String::new();
    let mut i: usize = 0;
    assert(pairs.subrange(0, 0) =~= Seq::<(Seq<char>, Seq<char>)>::empty());
    while i < records.len()
        invariant
            0 <= i <= records@.len(),
            views == record_views(records@),
            pairs == views.map_values(|c: CollectionModel| (c.name, c.root)),
            digest@ == commit_fold(pairs.subrange(0, i as int)),
        decreases records@.len() - i,
    {
        let head = join3(digest.as_str(), "|", records[i].name.as_str());
        let material = join3(head.as_str(), "|", records[i].root.as_str());
        proof {
            reveal_strlit("|");
            let prefix = pairs.subrange(0, i + 1);
            assert(prefix.drop_last() =~= pairs.subrange(0, i as int));
            assert(prefix[prefix.len() - 1] == (records@[i as int].name@, records@[i as int].root@));
            assert(material@ =~= commit_fold(pairs.subrange(0, i as int)) + seq!['|']
                + records@[i as int].name@ + seq!['|'] + records@[i as int].root@);
        }
        digest = sha256_hex_digest(material.as_str().as_bytes());
        i = i + 1;
    }
    assert(pairs.subrange(0, records@.len() as int) =~= pairs);
    digest
}

impl ProofRegistry {
    /// The registry's invariant (see `registry_wf`).
    pub closed spec fn wf(&self) -> bool {
        registry_wf(self@)
    }

    /// Creates a registry with key id `kid` (default "ledger-root") and
    /// signing secret `secret` (default "MEF-SEED-COMMIT"), no collections,
    /// a commit root of 64 zeros and its signature.
    pub fn new(kid: Option<String>, secret: Option<String>) -> (registry: ProofRegistry)
        ensures
            registry.wf(),
            registry@.kid == (match kid {
                Some(k) => k@,
                None => seq!['l', 'e', 'd', 'g', 'e', 'r', '-', 'r', 'o', 'o', 't'],
            }),
            registry@.secret == vstd::utf8::encode_utf8(match secret {
                Some(s) => s@,
                None => seq!['M', 'E', 'F', '-', 'S', 'E', 'E', 'D', '-', 'C', 'O', 'M', 'M', 'I', 'T'],
            }),
            registry@.collections.len() == 0,
            registry@.commit_root == zero_root(),
            registry@.signature == signature_spec(registry@.secret, zero_root()),
    {
        let kid = match kid {
            Some(k) => k,
            None => {
                let d = String::from_str("ledger-root");
                proof {
                    reveal_strlit("ledger-root");
                    assert(d@ =~= seq!['l', 'e', 'd', 'g', 'e', 'r', '-', 'r', 'o', 'o', 't']);
                }
                d
            },
        };
        let secret_text = match secret {
            Some(s) => s,
            None => {
                let d = String::from_str("MEF-SEED-COMMIT");
                proof {
                    reveal_strlit("MEF-SEED-COMMIT");
                    assert(d@ =~= seq!['M', 'E', 'F', '-', 'S', 'E', 'E', 'D', '-', 'C', 'O', 'M', 'M', 'I', 'T']);
                }
                d
            },
        };
        let secret_bytes = secret_text.as_str().as_bytes_vec();
        let mut commit_root = String::new();
        let mut i: usize = 0;
        while i < 64
            invariant
                0 <= i <= 64,
                commit_root@ == Seq::new(i as nat, |t: int| '0'),
            decreases 64 - i,
        {
            crate::text::push_char(&mut commit_root, '0');
            assert(commit_root@ =~= Seq::new((i + 1) as nat, |t: int| '0'));
            i = i + 1;
        }
        let signature = sign_commit(secret_bytes.as_slice(), commit_root.as_str());
        let registry = ProofRegistry {
            kid,
            secret: secret_bytes,
            records: Vec::new(),
            commit_root,
            signature,
        };
        assert(record_views(registry.records@) =~= Seq::<CollectionModel>::empty());
        registry
    }

    /// The key id.
    pub fn kid(&self) -> (kid: String)
        ensures
            kid@ == self@.kid,
    {
        self.kid.clone()
    }

    /// The current commit root.
    pub fn commit_root(&self) -> (root: String)
        ensures
            root@ == self@.commit_root,
    {
        self.commit_root.clone()
    }

    /// The current signature: the HMAC of the commit root under the secret.
    pub fn signature(&self) -> (signature: String)
        requires
            self.wf(),
        ensures
            signature@ == self@.signature,
            signature@ == signature_spec(self@.secret, self@.commit_root),
            signature@.len() == 64,
    {
        self.signature.clone()
    }

    /// The root of the named collection, if the registry holds it.
    pub fn get_collection_root(&self, collection: &str) -> (root: Option<String>)
        ensures
            match root {
                Some(r) => exists|i: int|
                    0 <= i < self@.collections.len() && self@.collections[i].name == collection@
                        && self@.collections[i].root == r@,
                None => !has_collection(self@.collections, collection@),
            },
    {
        match find_record(&self.records, collection) {
            Some(i) => {
                let r = self.records[i].root.clone();
                assert(self@.collections[i as int] == self.records@[i as int]@);
                Some(r)
            },
            None => {
                assert forall|i: int| 0 <= i < self@.collections.len() implies self@.collections[i].name
                    != collection@ by {
                    assert(self@.collections[i] == self.records@[i]@);
                }
                None
            },
        }
    }

    /// The stored proof for `vector_id` in the named collection, if any.
    /// Such a proof verifies against the current commit root.
    pub fn get_membership_proof(&self, collection: &str, vector_id: &str) -> (found: Option<MembershipProof>)
        requires
            self.wf(),
        ensures
            match found {
                Some(p) => {
                    &&& exists|i: int, k: int|
                        0 <= i < self@.collections.len() && self@.collections[i].name == collection@
                            && 0 <= k < self@.collections[i].proofs.len()
                            && self@.collections[i].proofs[k] == p@
                            && p@.collection_root == self@.collections[i].root
                    &&& p@.collection == collection@
                    &&& p@.vector_id == vector_id@
                    &&& proof_verifies(p@, None, Some(self@.commit_root))
                },
                None => forall|i: int, k: int|
                    0 <= i < self@.collections.len() && self@.collections[i].name == collection@
                        && 0 <= k < self@.collections[i].proofs.len() ==> self@.collections[i].proofs[k].vector_id
                        != vector_id@,
            },
    {
        match find_record(&self.records, collection) {
            Some(i) => {
                let rec = &self.records[i];
                assert(self@.collections[i as int] == rec@);
                match find_proof(&rec.proofs, vector_id) {
                    Some(k) => {
                        let p = rec.proofs[k].duplicate();
                        proof {
                            assert(rec@.proofs[k as int] == rec.proofs@[k as int]@);
                            lemma_stored_proof_verifies(self@, i as int, k as int);
                        }
                        Some(p)
                    },
                    None => {
                        proof {
                            assert forall|j: int, k: int|
                                0 <= j < self@.collections.len() && self@.collections[j].name == collection@
                                    && 0 <= k < self@.collections[j].proofs.len() implies self@.collections[j].proofs[k].vector_id
                                != vector_id@ by {
                                if j != i {
                                    if j < i {
                                        assert(crate::order::text_lt(self@.collections[j].name, self@.collections[i as int].name));
                                    } else {
                                        assert(crate::order::text_lt(self@.collections[i as int].name, self@.collections[j].name));
                                    }
                                    crate::order::lemma_text_lt_irreflexive(collection@);
                                }
                                assert(rec@.proofs[k] == rec.proofs@[k]@);
                            }
                        }
                        None
                    },
                }
            },
            None => {
                assert forall|j: int, k: int|
                    0 <= j < self@.collections.len() && self@.collections[j].name == collection@
                        && 0 <= k < self@.collections[j].proofs.len() implies self@.collections[j].proofs[k].vector_id
                    != vector_id@ by {
                    assert(self@.collections[j] == self.records@[j]@);
                }
                None
            },
        }
    }

    /// The commit root, key id and signature.
    pub fn get_commit_snapshot(&self) -> (snapshot: CommitSnapshot)
        requires
            self.wf(),
        ensures
            snapshot.commit_root@ == self@.commit_root,
            snapshot.kid@ == self@.kid,
            snapshot.signature@ == self@.signature,
            snapshot.signature@ == signature_spec(self@.secret, self@.commit_root),
    {
        CommitSnapshot {
            commit_root: self.commit_root.clone(),
            kid: self.kid.clone(),
            signature: self.signature.clone(),
        }
    }

    /// Replaces the key id and/or the secret (each when given) and signs the
    /// unchanged commit root anew; returns the resulting snapshot.
    pub fn rotate_secret(&mut self, kid: Option<String>, secret: Option<String>) -> (snapshot: CommitSnapshot)
        requires
            old(self).wf(),
        ensures
            final(self).wf(),
            final(self)@.kid == (match kid {
                Some(k) => k@,
                None => old(self)@.kid,
            }),
            final(self)@.secret == (match secret {
                Some(s) => vstd::utf8::encode_utf8(s@),
                None => old(self)@.secret,
            }),
            final(self)@.collections == old(self)@.collections,
            final(self)@.commit_root == old(self)@.commit_root,
            final(self)@.signature == signature_spec(final(self)@.secret, final(self)@.commit_root),
            snapshot.commit_root@ == final(self)@.commit_root,
            snapshot.kid@ == final(self)@.kid,
            snapshot.signature@ == final(self)@.signature,
    {
        let ghost before = self@;
        if let Some(new_kid) = kid {
            self.kid = new_kid;
        }
        if let Some(new_secret) = secret {
            self.secret = new_secret.as_str().as_bytes_vec();
        }
        self.signature = sign_commit(self.secret.as_slice(), self.commit_root.as_str());
        assert(self@.collections == before.collections);
        assert(self@.commit_root == before.commit_root);
        CommitSnapshot {
            commit_root: self.commit_root.clone(),
            kid: self.kid.clone(),
            signature: self.signature.clone(),
        }
    }
}

/// The names of the collections handed to a refresh.
fn input_name_list(collections: &Vec<(String, CollectionState)>) -> (names: Vec<String>)
    ensures
        names@.map_values(|s: String| s@) == input_names(collections@),
{
    let mut names: Vec<String> = Vec::new();
    let mut i: usize = 0;
    while i < collections.len()
        invariant
            0 <= i <= collections@.len(),
            names@.len() == i,
            forall|t: int| 0 <= t < i ==> #[trigger] names@[t]@ == collections@[t].0@,
        decreases collections@.len() - i,
    {
        names.push(collections[i].0.clone());
        i = i + 1;
    }
    assert(names@.map_values(|s: String| s@) =~= input_names(collections@));
    names
}

/// Every record stamped with `commit_root`.
fn stamp_all(records: &Vec<CollectionRecord>, commit_root: &String) -> (stamped: Vec<CollectionRecord>)
    ensures
        stamped@.len() == records@.len(),
        forall|t: int|
            0 <= t < records@.len() ==> {
                &&& (#[trigger] stamped@[t])@.name == records@[t]@.name
                &&& stamped@[t]@.version == records@[t]@.version
                &&& stamped@[t]@.root == records@[t]@.root
                &&& unstamped_all(stamped@[t]@.proofs) == unstamped_all(records@[t]@.proofs)
                &&& forall|k: int|
                    0 <= k < stamped@[t]@.proofs.len() ==> (#[trigger] stamped@[t]@.proofs[k]).commit_root
                        == commit_root@
            },
{
    let mut out: Vec<CollectionRecord> = Vec::new();
    let mut i: usize = 0;
    while i < records.len()
        invariant
            0 <= i <= records@.len(),
            out@.len() == i,
            forall|t: int|
                0 <= t < i ==> {
                    &&& (#[trigger] out@[t])@.name == records@[t]@.name
                    &&& out@[t]@.version == records@[t]@.version
                    &&& out@[t]@.root == records@[t]@.root
                    &&& unstamped_all(out@[t]@.proofs) == unstamped_all(records@[t]@.proofs)
                    &&& forall|k: int|
                        0 <= k < out@[t]@.proofs.len() ==> (#[trigger] out@[t]@.proofs[k]).commit_root
                            == commit_root@
                },
        decreases records@.len() - i,
    {
        out.push(records[i].stamped(commit_root));
        i = i + 1;
    }
    out
}

impl ProofRegistry {
    /// The records a refresh ends with, before stamping, in the order given
    /// by `order`.
    fn rebuild_records(&self, collections: &Vec<(String, CollectionState)>, order: &Vec<usize>) -> (out: Vec<
        CollectionRecord,
    >)
        requires
            self.wf(),
            order@.len() == collections@.len(),
            crate::permutation::is_permutation_of_range(order@, collections@.len() as nat),
            forall|c: int|
                0 <= c < collections@.len() ==> crate::order::distinct_keys(entry_ids((#[trigger] collections@[c]).1.vectors@)),
        ensures
            out@.len() == collections@.len(),
            forall|t: int|
                0 <= t < collections@.len() ==> refreshed_from(
                    self@.collections,
                    collections@[order@[t] as int].0@,
                    collections@[order@[t] as int].1,
                    (#[trigger] out@[t])@,
                ),
            forall|t: int| 0 <= t < collections@.len() ==> collection_sound((#[trigger] out@[t])@),
    {
        let n = collections.len();
        let ghost cols = self@.collections;
        let mut records: Vec<CollectionRecord> = Vec::new();
        let mut p: usize = 0;
        while p < n
            invariant
                n == collections@.len() == order@.len(),
                cols == self@.collections,
                registry_wf(self@),
                crate::permutation::is_permutation_of_range(order@, n as nat),
                forall|c: int|
                    0 <= c < n ==> crate::order::distinct_keys(entry_ids((#[trigger] collections@[c]).1.vectors@)),
                0 <= p <= n,
                records@.len() == p,
                forall|t: int|
                    0 <= t < p ==> refreshed_from(
                        cols,
                        collections@[order@[t] as int].0@,
                        collections@[order@[t] as int].1,
                        (#[trigger] records@[t])@,
                    ),
                forall|t: int| 0 <= t < p ==> collection_sound((#[trigger] records@[t])@),
            decreases n - p,
        {
            let c = order[p];
            let name = &collections[c].0;
            let state = &collections[c].1;
            let version = state.proof_version;
            let found = find_record(&self.records, name.as_str());
            let reuse = match found {
                Some(j) => self.records[j].version == version,
                None => false,
            };
            if reuse {
                let j = found.unwrap();
                let copy = self.records[j].duplicate();
                proof {
                    assert(cols[j as int] == self.records@[j as int]@);
                    assert(keeps_collection(cols, name@, version));
                    assert(collection_wf(cols[j as int], self@.commit_root));
                }
                records.push(copy);
            } else {
                proof {
                    assert forall|i: int| 0 <= i < cols.len() && cols[i].name == name@ implies cols[i].version
                        != version by {
                        assert(cols[i] == self.records@[i]@);
                        match found {
                            Some(j) => {
                                assert(cols[j as int] == self.records@[j as int]@);
                                if i != j {
                                    if i < j {
                                        assert(crate::order::text_lt(cols[i].name, cols[j as int].name));
                                    } else {
                                        assert(crate::order::text_lt(cols[j as int].name, cols[i].name));
                                    }
                                    crate::order::lemma_text_lt_irreflexive(name@);
                                }
                            },
                            None => {},
                        }
                    }
                    assert(!keeps_collection(cols, name@, version));
                }
                let built = build_collection_root(name.as_str(), &state.vectors);
                let rec = CollectionRecord { name: name.clone(), version, root: built.0, proofs: built.1 };
                proof {
                    let pv = proof_views(rec.proofs@);
                    assert(rec@.proofs == pv);
                    assert(unstamped_all(pv) =~= pv) by {
                        assert forall|k: int| 0 <= k < pv.len() implies #[trigger] unstamped_all(pv)[k] == pv[k] by {
                            assert(pv[k] == rec.proofs@[k]@);
                        }
                    }
                    lemma_committed_sound(name@, version, state.vectors@, rec.root@, pv);
                }
                records.push(rec);
            }
            p = p + 1;
        }
        records
    }
}

impl ProofRegistry {
    /// Brings the registry in line with `collections` (each a name with its
    /// state; names distinct, entry ids distinct within a collection).
    /// Collections no longer handed in are dropped. A collection already
    /// held at the same proof version keeps its root and proofs; any other
    /// is rebuilt from its entries. The commit root is then computed over the
    /// collections held, in name order, stamped into every proof and signed,
    /// so that the signed digest depends on the collection state alone.
    pub fn refresh_from_collections(&mut self, collections: &Vec<(String, CollectionState)>)
        requires
            old(self).wf(),
            crate::order::distinct_keys(input_names(collections@)),
            forall|c: int|
                0 <= c < collections@.len() ==> crate::order::distinct_keys(entry_ids((#[trigger] collections@[c]).1.vectors@)),
        ensures
            final(self).wf(),
            final(self)@.kid == old(self)@.kid,
            final(self)@.secret == old(self)@.secret,
            final(self)@.collections.len() == collections@.len(),
            forall|c: int|
                0 <= c < collections@.len() ==> has_refreshed(
                    final(self)@.collections,
                    old(self)@.collections,
                    #[trigger] collections@[c],
                ),
            forall|i: int|
                0 <= i < final(self)@.collections.len() ==> #[trigger] input_names(collections@).contains(
                    final(self)@.collections[i].name,
                ),
            final(self)@.commit_root == commit_root_spec(final(self)@.collections),
            final(self)@.signature == signature_spec(final(self)@.secret, final(self)@.commit_root),
    {
        let ghost before = self@;
        let ghost names_view = input_names(collections@);
        let names = input_name_list(collections);
        assert(names@.map_values(|s: String| s@).len() == names@.len());
        assert(input_names(collections@).len() == collections@.len());
        let order = sorted_order(&names);
        let records = self.rebuild_records(collections, &order);
        let n = collections.len();
        let commit = combine_collection_roots(&records);
        let stamped = stamp_all(&records, &commit);
        let signature = sign_commit(self.secret.as_slice(), commit.as_str());
        self.records = stamped;
        self.commit_root = commit;
        self.signature = signature;
        proof {
            let cols = self@.collections;
            assert forall|t: int| 0 <= t < n implies {
                &&& refreshed_from(
                    before.collections,
                    collections@[order@[t] as int].0@,
                    collections@[order@[t] as int].1,
                    #[trigger] cols[t],
                )
                &&& collection_wf(cols[t], self@.commit_root)
            } by {
                assert(cols[t] == self.records@[t]@);
                lemma_refreshed_transfer(
                    before.collections,
                    collections@[order@[t] as int].0@,
                    collections@[order@[t] as int].1,
                    records@[t]@,
                    cols[t],
                );
                lemma_sound_unstamped(records@[t]@, cols[t]);
            }
            assert(cols.map_values(|c: CollectionModel| (c.name, c.root)) =~= record_views(records@).map_values(
                |c: CollectionModel| (c.name, c.root),
            ));
            assert(names@.map_values(|s: String| s@) == names_view);
            assert forall|a: int, b: int| 0 <= a < b < cols.len() implies crate::order::text_lt(cols[a].name, cols[b].name) by {
                assert(cols[a].name == names_view[order@[a] as int]);
                assert(cols[b].name == names_view[order@[b] as int]);
            }
            assert forall|c: int| 0 <= c < n implies has_refreshed(cols, before.collections, #[trigger] collections@[c]) by {
                assert(order@.contains(c as usize));
                let t = choose|t: int| 0 <= t < order@.len() && order@[t] == c as usize;
                assert(refreshed_from(before.collections, collections@[c].0@, collections@[c].1, cols[t]));
            }
            assert forall|i: int| 0 <= i < cols.len() implies #[trigger] names_view.contains(cols[i].name) by {
                assert(names_view[order@[i] as int] == cols[i].name);
            }
        }
    }
}

/// Law: the signed digest depends on the collection state alone. Two
/// well-formed registries with the same secret, each holding its commit root
/// over its collections, whose collections agree in names and roots, carry
/// the same commit root and the same signature.
pub proof fn lemma_commit_depends_on_collections(v1: RegistryView, v2: RegistryView)
    requires
        registry_wf(v1),
        registry_wf(v2),
        v1.secret == v2.secret,
        v1.commit_root == commit_root_spec(v1.collections),
        v2.commit_root == commit_root_spec(v2.collections),
        v1.collections.len() == v2.collections.len(),
        forall|i: int|
            0 <= i < v1.collections.len() ==> (#[trigger] v1.collections[i]).name == v2.collections[i].name
                && v1.collections[i].root == v2.collections[i].root,
    ensures
        v1.commit_root == v2.commit_root,
        v1.signature == v2.signature,
{
    assert(v1.collections.map_values(|c: CollectionModel| (c.name, c.root)) =~= v2.collections.map_values(
        |c: CollectionModel| (c.name, c.root),
    ));
}

/// Law: refreshing again with the same collections rebuilds nothing: every
/// collection a refresh leaves behind is held at the name and version it
/// was handed in with.
pub proof fn lemma_refresh_idempotent(
    old_cols: Seq<CollectionModel>,
    cols: Seq<CollectionModel>,
    collections: Seq<(String, CollectionState)>,
)
    requires
        forall|c: int| 0 <= c < collections.len() ==> has_refreshed(cols, old_cols, #[trigger] collections[c]),
    ensures
        !refresh_rebuilds(cols, collections),
{
    assert forall|c: int| 0 <= c < collections.len() implies keeps_collection(
        cols,
        collections[c].0@,
        collections[c].1.proof_version,
    ) by {
        assert(has_refreshed(cols, old_cols, collections[c]));
        let i = choose|i: int| 0 <= i < cols.len() && refreshed_from(old_cols, collections[c].0@, collections[c].1, cols[i]);
        assert(cols[i].name == collections[c].0@ && cols[i].version == collections[c].1.proof_version);
    }
}


/// Every collection of `old_cols` that a refresh with `collections` keeps
/// (same name and proof version) was committed from the entries handed in
/// with it. A registry without collections meets this for any input.
pub open spec fn kept_match_entries(old_cols: Seq<CollectionModel>, collections: Seq<(String, CollectionState)>) -> bool {
    forall|c: int, j: int|
        0 <= c < collections.len() && 0 <= j < old_cols.len() && (#[trigger] old_cols[j]).name == (
        #[trigger] collections[c]).0@ && old_cols[j].version == collections[c].1.proof_version ==> commits_collection(
            collections[c].0@,
            collections[c].1.vectors@,
            old_cols[j].root,
            unstamped_all(old_cols[j].proofs),
        )
}

/// What a refresh made of a collection is a commitment to its entries.
proof fn lemma_refreshed_commits(
    old_cols: Seq<CollectionModel>,
    collections: Seq<(String, CollectionState)>,
    c: int,
    col: CollectionModel,
) -> (proofs: Seq<ProofView>)
    requires
        0 <= c < collections.len(),
        kept_match_entries(old_cols, collections),
        refreshed_from(old_cols, collections[c].0@, collections[c].1, col),
    ensures
        commits_collection(collections[c].0@, collections[c].1.vectors@, col.root, proofs),
        proofs == unstamped_all(col.proofs),
{
    if keeps_collection(old_cols, collections[c].0@, collections[c].1.proof_version) {
        let j = choose|j: int|
            0 <= j < old_cols.len() && old_cols[j].name == collections[c].0@ && old_cols[j].version
                == collections[c].1.proof_version && old_cols[j].root == col.root && unstamped_all(old_cols[j].proofs)
                == unstamped_all(col.proofs);
        assert(old_cols[j].name == collections[c].0@);
        unstamped_all(old_cols[j].proofs)
    } else {
        unstamped_all(col.proofs)
    }
}

/// Names of collection models, in order.
pub open spec fn collection_names(cols: Seq<CollectionModel>) -> Seq<Seq<char>> {
    cols.map_values(|c: CollectionModel| c.name)
}

/// The collection that a refresh made of input `c` sits where its name is.
proof fn lemma_refreshed_position(
    cols: Seq<CollectionModel>,
    old_cols: Seq<CollectionModel>,
    collections: Seq<(String, CollectionState)>,
    c: int,
    i: int,
)
    requires
        0 <= c < collections.len(),
        0 <= i < cols.len(),
        cols[i].name == collections[c].0@,
        crate::order::strictly_increasing(collection_names(cols)),
        has_refreshed(cols, old_cols, collections[c]),
    ensures
        refreshed_from(old_cols, collections[c].0@, collections[c].1, cols[i]),
{
    let k = choose|k: int| 0 <= k < cols.len() && refreshed_from(old_cols, collections[c].0@, collections[c].1, cols[k]);
    if k != i {
        crate::order::lemma_text_lt_irreflexive(cols[i].name);
        if k < i {
            assert(collection_names(cols)[k] == cols[k].name);
            assert(collection_names(cols)[i] == cols[i].name);
        } else {
            assert(collection_names(cols)[k] == cols[k].name);
            assert(collection_names(cols)[i] == cols[i].name);
        }
    }
}

/// Law: the signed digest after a refresh depends on the collections handed
/// in alone. Two well-formed registries with the same secret, each as a
/// refresh with `collections` leaves it, where every collection a refresh
/// kept had been committed from the entries handed in with it (as holds of
/// a fresh registry), hold the same collection names and roots, the same
/// commit root and the same signature.
pub proof fn lemma_refresh_digest_stable(
    old1: Seq<CollectionModel>,
    old2: Seq<CollectionModel>,
    v1: RegistryView,
    v2: RegistryView,
    collections: Seq<(String, CollectionState)>,
)
    requires
        registry_wf(v1),
        registry_wf(v2),
        v1.secret == v2.secret,
        v1.commit_root == commit_root_spec(v1.collections),
        v2.commit_root == commit_root_spec(v2.collections),
        forall|c: int|
            0 <= c < collections.len() ==> crate::order::distinct_keys(entry_ids((#[trigger] collections[c]).1.vectors@)),
        v1.collections.len() == collections.len(),
        v2.collections.len() == collections.len(),
        forall|c: int| 0 <= c < collections.len() ==> has_refreshed(v1.collections, old1, #[trigger] collections[c]),
        forall|c: int| 0 <= c < collections.len() ==> has_refreshed(v2.collections, old2, #[trigger] collections[c]),
        forall|i: int|
            0 <= i < v1.collections.len() ==> #[trigger] input_names(collections).contains(v1.collections[i].name),
        forall|i: int|
            0 <= i < v2.collections.len() ==> #[trigger] input_names(collections).contains(v2.collections[i].name),
        kept_match_entries(old1, collections),
        kept_match_entries(old2, collections),
    ensures
        forall|i: int|
            0 <= i < v1.collections.len() ==> (#[trigger] v1.collections[i]).name == v2.collections[i].name
                && v1.collections[i].root == v2.collections[i].root,
        v1.commit_root == v2.commit_root,
        v1.signature == v2.signature,
{
    let cols1 = v1.collections;
    let cols2 = v2.collections;
    let n1 = collection_names(cols1);
    let n2 = collection_names(cols2);
    let names = input_names(collections);
    assert(crate::order::strictly_increasing(n1)) by {
        assert forall|x: int, y: int| 0 <= x < y < n1.len() implies crate::order::text_lt(n1[x], n1[y]) by {
            assert(n1[x] == cols1[x].name && n1[y] == cols1[y].name);
        }
    }
    assert(crate::order::strictly_increasing(n2)) by {
        assert forall|x: int, y: int| 0 <= x < y < n2.len() implies crate::order::text_lt(n2[x], n2[y]) by {
            assert(n2[x] == cols2[x].name && n2[y] == cols2[y].name);
        }
    }
    assert forall|x: int| 0 <= x < n1.len() implies n2.contains(#[trigger] n1[x]) by {
        assert(names.contains(cols1[x].name));
        let c = choose|c: int| 0 <= c < names.len() && names[c] == cols1[x].name;
        assert(has_refreshed(cols2, old2, collections[c]));
        let k = choose|k: int| 0 <= k < cols2.len() && refreshed_from(old2, collections[c].0@, collections[c].1, cols2[k]);
        assert(n2[k] == n1[x]);
    }
    assert forall|x: int| 0 <= x < n2.len() implies n1.contains(#[trigger] n2[x]) by {
        assert(names.contains(cols2[x].name));
        let c = choose|c: int| 0 <= c < names.len() && names[c] == cols2[x].name;
        assert(has_refreshed(cols1, old1, collections[c]));
        let k = choose|k: int| 0 <= k < cols1.len() && refreshed_from(old1, collections[c].0@, collections[c].1, cols1[k]);
        assert(n1[k] == n2[x]);
    }
    crate::order::lemma_increasing_same_texts(n1, n2, n1.len() as int);
    assert forall|i: int| 0 <= i < cols1.len() implies (#[trigger] cols1[i]).name == cols2[i].name && cols1[i].root
        == cols2[i].root by {
        assert(n1[i] == cols1[i].name && n2[i] == cols2[i].name);
        assert(names.contains(cols1[i].name));
        let c = choose|c: int| 0 <= c < names.len() && names[c] == cols1[i].name;
        assert(collections[c].0@ == names[c]);
        lemma_refreshed_position(cols1, old1, collections, c, i);
        lemma_refreshed_position(cols2, old2, collections, c, i);
        let q1 = lemma_refreshed_commits(old1, collections, c, cols1[i]);
        let q2 = lemma_refreshed_commits(old2, collections, c, cols2[i]);
        lemma_commitment_unique(collections[c].0@, collections[c].1.vectors@, cols1[i].root, q1, cols2[i].root, q2);
    }
    lemma_commit_depends_on_collections(v1, v2);
}


/// Law: a refresh leaves collections committed from the entries handed in,
/// so the registry meets `kept_match_entries` for the same collections
/// again, and a further refresh with them keeps the digest (see
/// `lemma_refresh_digest_stable`).
pub proof fn lemma_refresh_commits_entries(
    old_cols: Seq<CollectionModel>,
    cols: Seq<CollectionModel>,
    collections: Seq<(String, CollectionState)>,
)
    requires
        crate::order::strictly_increasing(collection_names(cols)),
        forall|c: int| 0 <= c < collections.len() ==> has_refreshed(cols, old_cols, #[trigger] collections[c]),
        kept_match_entries(old_cols, collections),
    ensures
        kept_match_entries(cols, collections),
{
    assert forall|c: int, j: int|
        0 <= c < collections.len() && 0 <= j < cols.len() && (#[trigger] cols[j]).name == (
        #[trigger] collections[c]).0@ && cols[j].version == collections[c].1.proof_version implies commits_collection(
        collections[c].0@,
        collections[c].1.vectors@,
        cols[j].root,
        unstamped_all(cols[j].proofs),
    ) by {
        lemma_refreshed_position(cols, old_cols, collections, c, j);
        lemma_refreshed_commits(old_cols, collections, c, cols[j]);
    }
}


/// Law: the commit root chains over the collections in order. For a single
/// collection it is the hex SHA-256 of `|name|root`; for more, it is the hex
/// SHA-256 of the commit root over all but the last collection, then
/// `|name|root` of the last one; without collections it is the hex SHA-256
/// of `empty-commit`. So every collection, not only the last, goes into it.
pub proof fn lemma_commit_root_chains(cols: Seq<CollectionModel>)
    ensures
        cols.len() == 0 ==> commit_root_spec(cols) == crate::hashing::sha256_hex(
            vstd::utf8::encode_utf8("empty-commit"@),
        ),
        cols.len() == 1 ==> commit_root_spec(cols) == crate::hashing::sha256_hex(
            vstd::utf8::encode_utf8("|"@ + cols[0].name + "|"@ + cols[0].root),
        ),
        cols.len() >= 2 ==> commit_root_spec(cols) == crate::hashing::sha256_hex(
            vstd::utf8::encode_utf8(
                commit_root_spec(cols.drop_last()) + "|"@ + cols[cols.len() - 1].name + "|"@ + cols[cols.len()
                    - 1].root,
            ),
        ),
{
    reveal_strlit("|");
    reveal_strlit("empty-commit");
    let pairs = cols.map_values(|c: CollectionModel| (c.name, c.root));
    if cols.len() == 0 {
        assert(empty_commit_word() =~= "empty-commit"@);
    } else {
        assert(pairs.drop_last() =~= cols.drop_last().map_values(|c: CollectionModel| (c.name, c.root)));
        if cols.len() == 1 {
            assert(pairs.drop_last().len() == 0);
            assert(commit_fold(pairs.drop_last()) =~= Seq::<char>::empty());
            assert(Seq::<char>::empty() + seq!['|'] + cols[0].name + seq!['|'] + cols[0].root =~= "|"@ + cols[0].name
                + "|"@ + cols[0].root);
        } else {
            let last = cols[cols.len() - 1];
            assert(commit_fold(pairs.drop_last()) + seq!['|'] + last.name + seq!['|'] + last.root =~= commit_root_spec(
                cols.drop_last(),
            ) + "|"@ + last.name + "|"@ + last.root);
        }
    }
}

/// Law: a collection without entries is committed to by the hex SHA-256
/// of its name followed by `|empty`, and has no proofs; the root depends on
/// the name.
pub proof fn lemma_empty_collection_root(name: Seq<char>, root: Seq<char>, proofs: Seq<ProofView>)
    requires
        commits_collection(name, Seq::empty(), root, proofs),
    ensures
        root == crate::hashing::sha256_hex(vstd::utf8::encode_utf8(name + "|empty"@)),
        proofs.len() == 0,
{
    reveal_strlit("|empty");
    assert(name + seq!['|', 'e', 'm', 'p', 't', 'y'] =~= name + "|empty"@);
}


/// Law: the signature of a registry is the hex HMAC-SHA-256, under its
/// secret, of the UTF-8 bytes of its commit root.
pub proof fn lemma_signature_is_hmac_of_commit_root(v: RegistryView)
    requires
        registry_wf(v),
    ensures
        v.signature == crate::hashing::hmac_sha256_hex(v.secret, vstd::utf8::encode_utf8(v.commit_root)),
{
}

} // verus!
