//! Compute-integrity verification: multi-hash commitments bound to an
//! engine signing key, Merkle batching with per-leaf inclusion proofs, and
//! k-of-n threshold share collection.

use vstd::prelude::*;
use crate::crypto::blake3_hash;
use crate::crypto::blake3_of;
use crate::crypto::ed25519_pub_of;
use crate::crypto::ed25519_public_key;
use crate::crypto::ed25519_sig_of;
use crate::crypto::ed25519_sign;
use crate::crypto::ed25519_verifies;
use crate::crypto::ed25519_verify;
use crate::crypto::fresh_seed;
use crate::crypto::sha3_256;
use crate::crypto::sha3_256_of;

verus! {

// ───────────────────────── byte helpers ─────────────────────────

/// An exact copy of a byte vector.
pub fn clone_bytes(v: &Vec<u8>) -> (r: Vec<u8>)
    ensures
        r@ == v@,
{
    let mut out: Vec<u8> = Vec::new();
    let mut i: usize = 0;
    while i < v.len()
        invariant
            i <= v@.len(),
            out@ =~= v@.take(i as int),
        decreases v@.len() - i,
    {
        out.push(v[i]);
        i += 1;
    }
    proof {
        assert(out@ =~= v@);
    }
    out
}

/// Whether two byte vectors hold the same bytes.
pub fn bytes_eq(a: &Vec<u8>, b: &Vec<u8>) -> (r: bool)
    ensures
        r == (a@ == b@),
{
    if a.len() != b.len() {
        proof {
            assert(a@ != b@);
        }
        return false;
    }
    let mut i: usize = 0;
    while i < a.len()
        invariant
            a@.len() == b@.len(),
            i <= a@.len(),
            forall|j: int| 0 <= j < i ==> a@[j] == b@[j],
        decreases a@.len() - i,
    {
        if a[i] != b[i] {
            proof {
                assert(a@ != b@);
            }
            return false;
        }
        i += 1;
    }
    proof {
        assert(a@ =~= b@);
    }
    true
}

/// The concatenation of two byte vectors.
pub fn concat_bytes(a: &Vec<u8>, b: &Vec<u8>) -> (r: Vec<u8>)
    ensures
        r@ == a@ + b@,
{
    let mut out = clone_bytes(a);
    let mut i: usize = 0;
    while i < b.len()
        invariant
            i <= b@.len(),
            out@ =~= a@ + b@.take(i as int),
        decreases b@.len() - i,
    {
        out.push(b[i]);
        i += 1;
    }
    proof {
        assert(out@ =~= a@ + b@);
    }
    out
}

// ───────────────────────── commitments ─────────────────────────

/// A compute commitment: two independent digests of the output bytes and a
/// signature over their concatenation, bound bit-for-bit to the exact bytes
/// used at construction.
#[derive(Debug, Clone)]
pub struct ComputeCommitment {
    pub sha3_256: Vec<u8>,
    pub blake3: Vec<u8>,
    pub signature: Vec<u8>,
    pub public_key: Vec<u8>,
    pub timestamp: u64,
}

/// Verification statistics.
#[derive(Debug, Clone)]
pub struct VerificationStats {
    pub commitments_created: usize,
    pub commitments_verified: usize,
}

impl Default for VerificationStats {
    /// Fresh counters, all zero.
    fn default() -> (r: Self)
        ensures
            r.commitments_created == 0,
            r.commitments_verified == 0,
    {
        VerificationStats { commitments_created: 0, commitments_verified: 0 }
    }
}

/// What it means for a commitment to match a byte string: both digests are
/// the digests of those bytes, and the signature over the concatenated
/// digests checks out under the commitment's own public key.
pub open spec fn commitment_matches(c: &ComputeCommitment, data: Seq<u8>) -> bool {
    &&& c.sha3_256@ == sha3_256_of(data)
    &&& c.blake3@ == blake3_of(data)
    &&& ed25519_verifies(c.public_key@, c.sha3_256@ + c.blake3@, c.signature@)
}

/// A commitment binds its data: one commitment cannot match two byte
/// strings unless those strings collide under both digests at once.
pub proof fn lemma_commitment_binds(c: &ComputeCommitment, d1: Seq<u8>, d2: Seq<u8>)
    ensures
        commitment_matches(c, d1) && commitment_matches(c, d2) ==> sha3_256_of(d1)
            == sha3_256_of(d2) && blake3_of(d1) == blake3_of(d2),
{
}

/// Signs and checks compute commitments with a long-lived Ed25519 key.
pub struct VerificationEngine {
    seed: Vec<u8>,
    public_key: Vec<u8>,
    stats: VerificationStats,
}

/// Relies on std::time::SystemTime::now for the commitment timestamp (the
/// seconds since the Unix epoch); nothing is promised of the value.
#[verifier::external_body]
fn unix_now_secs() -> u64 {
    std::time::SystemTime::now()
        .duration_since(std::time::UNIX_EPOCH)
        .map(|d| d.as_secs())
        .unwrap_or(0)
}

impl VerificationEngine {
    /// The engine's key pair is consistent: a 32-byte seed and the public
    /// key derived from it.
    pub open spec fn wf(&self) -> bool {
        &&& self.spec_seed().len() == 32
        &&& self.spec_public_key().len() == 32
        &&& self.spec_public_key() == ed25519_pub_of(self.spec_seed())
    }

    pub closed spec fn spec_seed(&self) -> Seq<u8> {
        self.seed@
    }

    pub closed spec fn spec_public_key(&self) -> Seq<u8> {
        self.public_key@
    }

    pub closed spec fn spec_stats(&self) -> VerificationStats {
        self.stats
    }

    /// A fresh engine with a newly drawn signing key and zeroed counters.
    pub fn new() -> (r: Result<VerificationEngine, ()>)
        ensures
            r matches Ok(engine) ==> engine.wf()
                && engine.spec_stats().commitments_created == 0
                && engine.spec_stats().commitments_verified == 0,
            r is Ok,
    {
        let seed = fresh_seed();
        let public_key = ed25519_public_key(&seed);
        Ok(VerificationEngine { seed, public_key, stats: VerificationStats::default() })
    }

    /// The engine's public key bytes.
    pub fn public_key(&self) -> (r: Vec<u8>)
        ensures
            r@ == self.spec_public_key(),
    {
        clone_bytes(&self.public_key)
    }

    /// Commits to `data`: digests it with SHA3-256 and BLAKE3 and signs the
    /// concatenated digests. The result matches exactly the bytes committed
    /// to, so verifying it against the same bytes succeeds.
    pub fn create_commitment(&mut self, data: &Vec<u8>) -> (r: ComputeCommitment)
        requires
            old(self).wf(),
        ensures
            final(self).wf(),
            final(self).spec_seed() == old(self).spec_seed(),
            final(self).spec_public_key() == old(self).spec_public_key(),
            final(self).spec_stats().commitments_verified == old(
                self,
            ).spec_stats().commitments_verified,
            r.sha3_256@ == sha3_256_of(data@),
            r.sha3_256@.len() == 32,
            r.blake3@ == blake3_of(data@),
            r.blake3@.len() == 32,
            r.public_key@ == old(self).spec_public_key(),
            r.public_key@.len() == 32,
            r.signature@ == ed25519_sig_of(old(self).spec_seed(), sha3_256_of(data@) + blake3_of(data@)),
            r.signature@.len() == 64,
            commitment_matches(&r, data@),
    {
        let sha3_hash = sha3_256(data);
        let blake3_digest = blake3_hash(data);
        let message = concat_bytes(&sha3_hash, &blake3_digest);
        let signature = ed25519_sign(&self.seed, &message);
        if self.stats.commitments_created < usize::MAX {
            self.stats.commitments_created = self.stats.commitments_created + 1;
        }
        ComputeCommitment {
            sha3_256: sha3_hash,
            blake3: blake3_digest,
            signature,
            public_key: clone_bytes(&self.public_key),
            timestamp: unix_now_secs(),
        }
    }

    /// Checks a commitment against claimed bytes: recomputes both digests,
    /// compares them, and verifies the signature over the concatenated
    /// digests. Returns true exactly when the commitment matches the bytes.
    pub fn verify_commitment(&mut self, commitment: &ComputeCommitment, data: &Vec<u8>) -> (r:
        bool)
        ensures
            final(self).spec_seed() == old(self).spec_seed(),
            final(self).spec_public_key() == old(self).spec_public_key(),
            final(self).spec_stats().commitments_created == old(
                self,
            ).spec_stats().commitments_created,
            old(self).wf() ==> final(self).wf(),
            r == commitment_matches(commitment, data@),
    {
        if self.stats.commitments_verified < usize::MAX {
            self.stats.commitments_verified = self.stats.commitments_verified + 1;
        }
        let sha3_hash = sha3_256(data);
        if !bytes_eq(&sha3_hash, &commitment.sha3_256) {
            return false;
        }
        let blake3_digest = blake3_hash(data);
        if !bytes_eq(&blake3_digest, &commitment.blake3) {
            return false;
        }
        let message = concat_bytes(&commitment.sha3_256, &commitment.blake3);
        ed25519_verify(&commitment.public_key, &message, &commitment.signature)
    }

    /// A snapshot of the engine's counters.
    pub fn stats(&self) -> (r: VerificationStats)
        ensures
            r.commitments_created == self.spec_stats().commitments_created,
            r.commitments_verified == self.spec_stats().commitments_verified,
    {
        VerificationStats {
            commitments_created: self.stats.commitments_created,
            commitments_verified: self.stats.commitments_verified,
        }
    }
}

/// Opaque range-proof bytes with the commitment they refer to, as produced
/// by a pluggable proving strategy.
#[derive(Debug, Clone)]
pub struct RangeProofData {
    pub proof: Vec<u8>,
    pub commitment: Vec<u8>,
    pub n_bits: usize,
}

/// Opaque proof bytes of a SNARK-style strategy with its public inputs.
#[derive(Debug, Clone)]
pub struct Groth16ProofData {
    pub proof: Vec<u8>,
    pub public_inputs: Vec<Vec<u8>>,
}

// ───────────────────────── Merkle batching ─────────────────────────

/// The hash of an internal Merkle node over its two children.
pub open spec fn node_hash(l: Seq<u8>, r: Seq<u8>) -> Seq<u8> {
    blake3_of(l + r)
}

/// The hashes a level holds, as byte strings.
pub open spec fn hashes_view(v: Seq<Vec<u8>>) -> Seq<Seq<u8>> {
    Seq::new(v.len(), |i: int| v[i]@)
}

/// The levels a tree holds, bottom first, as sequences of byte strings.
pub open spec fn levels_view(v: Seq<Vec<Vec<u8>>>) -> Seq<Seq<Seq<u8>>> {
    Seq::new(v.len(), |i: int| hashes_view(v[i]@))
}

/// One level up: nodes are hashed in pairs; an odd final node is paired
/// with itself.
pub open spec fn next_level(l: Seq<Seq<u8>>) -> Seq<Seq<u8>> {
    Seq::new(
        ((l.len() + 1) / 2) as nat,
        |i: int|
            if 2 * i + 1 < l.len() {
                node_hash(l[2 * i], l[2 * i + 1])
            } else {
                node_hash(l[2 * i], l[2 * i])
            },
    )
}

/// The root digest of a tree over the given leaf hashes.
pub open spec fn root_of(l: Seq<Seq<u8>>) -> Seq<u8>
    recommends
        l.len() >= 1,
    decreases l.len(),
{
    if l.len() <= 1 {
        if l.len() == 1 {
            l[0]
        } else {
            Seq::empty()
        }
    } else {
        root_of(next_level(l))
    }
}

/// The height of a tree over `n` leaves: how many pairing rounds it takes
/// to reach a single node. This is also the length of every inclusion
/// proof, and equals the base-two logarithm of `n`, rounded up.
pub open spec fn tree_height(n: nat) -> nat
    decreases n,
{
    if n <= 1 {
        0
    } else {
        1 + tree_height(((n + 1) / 2) as nat)
    }
}

/// Merkle proof length is the rounded-up base-two logarithm: for n > 1
/// leaves the height h satisfies 2^(h-1) < n <= 2^h (and h >= 1).
pub proof fn lemma_tree_height_log2(n: nat)
    requires
        n >= 1,
    ensures
        n <= vstd::arithmetic::power2::pow2(tree_height(n)),
        n >= 2 ==> tree_height(n) >= 1 && vstd::arithmetic::power2::pow2(
            (tree_height(n) - 1) as nat,
        ) < n,
    decreases n,
{
    if n == 1 {
        vstd::arithmetic::power2::lemma2_to64();
    } else {
        let m = ((n + 1) / 2) as nat;
        lemma_tree_height_log2(m);
        vstd::arithmetic::power2::lemma_pow2_unfold(tree_height(n));
        if m >= 2 {
            vstd::arithmetic::power2::lemma_pow2_unfold((tree_height(n) - 1) as nat);
        } else {
            vstd::arithmetic::power2::lemma2_to64();
        }
    }
}

/// One sibling entry of an inclusion proof: the sibling's hash and on which
/// side it sits.
#[derive(Debug, Clone)]
pub struct ProofNode {
    pub hash: Vec<u8>,
    pub is_left: bool,
}

/// A per-leaf inclusion proof: the leaf hash, the sibling chain up to the
/// root, and the root it commits to.
#[derive(Debug, Clone)]
pub struct MerkleProof {
    pub leaf_index: usize,
    pub leaf_hash: Vec<u8>,
    pub proof: Vec<ProofNode>,
    pub root: Vec<u8>,
}

/// Hashing one step up through a sibling entry.
pub open spec fn apply_node(h: Seq<u8>, n: ProofNode) -> Seq<u8> {
    if n.is_left {
        node_hash(n.hash@, h)
    } else {
        node_hash(h, n.hash@)
    }
}

/// Recomputing the chain from a leaf hash through the sibling entries.
pub open spec fn recompute(h: Seq<u8>, nodes: Seq<ProofNode>) -> Seq<u8>
    decreases nodes.len(),
{
    if nodes.len() == 0 {
        h
    } else {
        recompute(apply_node(h, nodes[0]), nodes.skip(1))
    }
}

/// Whether a proof is internally consistent: its sibling chain recomputes
/// exactly the root it embeds. `MerkleTree::verify_proof` decides this.
pub open spec fn proof_accepted(p: &MerkleProof) -> bool {
    recompute(p.leaf_hash@, p.proof@) == p.root@
}

/// A proof binds its root: a proof accepted with one root is rejected with
/// any other root under the same leaf hash and sibling chain.
pub proof fn lemma_merkle_proof_binds_root(p1: &MerkleProof, p2: &MerkleProof)
    ensures
        p1.leaf_hash@ == p2.leaf_hash@ && p1.proof@ == p2.proof@ && p1.root@ != p2.root@
            && proof_accepted(p1) ==> !proof_accepted(p2),
{
}

pub proof fn lemma_recompute_push(h: Seq<u8>, nodes: Seq<ProofNode>, n: ProofNode)
    ensures
        recompute(h, nodes.push(n)) == apply_node(recompute(h, nodes), n),
    decreases nodes.len(),
{
    let p = nodes.push(n);
    if nodes.len() == 0 {
        assert(p[0] == n);
        assert(p.skip(1) =~= Seq::<ProofNode>::empty());
        assert(recompute(h, p) == recompute(apply_node(h, n), p.skip(1)));
        assert(recompute(apply_node(h, n), p.skip(1)) == apply_node(h, n));
        assert(recompute(h, nodes) == h);
    } else {
        assert(p[0] == nodes[0]);
        assert(p.skip(1) =~= nodes.skip(1).push(n));
        lemma_recompute_push(apply_node(h, nodes[0]), nodes.skip(1), n);
        assert(recompute(h, p) == recompute(apply_node(h, nodes[0]), p.skip(1)));
        assert(recompute(apply_node(h, nodes[0]), nodes.skip(1).push(n)) == apply_node(
            recompute(apply_node(h, nodes[0]), nodes.skip(1)),
            n,
        ));
        assert(recompute(h, nodes) == recompute(apply_node(h, nodes[0]), nodes.skip(1)));
    }
}

/// The level-by-level shape of a built tree: every level below the top has
/// at least two nodes and hashes pairwise into the next.
pub open spec fn level_chain(lv: Seq<Seq<Seq<u8>>>) -> bool {
    forall|k: int|
        0 <= k < lv.len() - 1 ==> (#[trigger] lv[k]).len() >= 2 && lv[k + 1] == next_level(lv[k])
}

/// Walking a well-formed chain of levels to its single top node computes
/// the root of the bottom level, in as many steps as the tree's height.
pub proof fn lemma_chain_root(lv: Seq<Seq<Seq<u8>>>)
    requires
        lv.len() >= 1,
        level_chain(lv),
        lv.last().len() == 1,
    ensures
        root_of(lv[0]) == lv.last()[0],
        lv.len() - 1 == tree_height(lv[0].len()),
    decreases lv.len(),
{
    if lv.len() == 1 {
        assert(lv[0].len() == 1);
    } else {
        let rest = lv.skip(1);
        assert(level_chain(rest)) by {
            assert forall|k: int|
                0 <= k < rest.len() - 1 implies (#[trigger] rest[k]).len() >= 2 && rest[k + 1]
                == next_level(rest[k]) by {
                assert(rest[k] == lv[k + 1]);
                assert(rest[k + 1] == lv[k + 2]);
                assert((lv[k + 1]).len() >= 2 && lv[k + 2] == next_level(lv[k + 1]));
            }
        }
        assert(rest.last() == lv.last());
        assert(rest[0] == lv[1]);
        assert(lv[0].len() >= 2 && lv[1] == next_level(lv[0]));
        lemma_chain_root(rest);
        assert(root_of(lv[0]) == root_of(next_level(lv[0])));
        assert(next_level(lv[0]).len() == (lv[0].len() + 1) / 2);
    }
}

/// Indexing one pairing step: the parent of position `cur` in the next
/// level is the hash of `cur` and its sibling, ordered by which side the
/// sibling sits on.
proof fn lemma_next_level_step(l: Seq<Seq<u8>>, cur: int, sib: int, is_left: bool)
    requires
        0 <= cur < l.len(),
        cur % 2 == 0 ==> !is_left && sib == if cur + 1 < l.len() {
            cur + 1
        } else {
            cur
        },
        cur % 2 == 1 ==> is_left && sib == cur - 1,
    ensures
        0 <= cur / 2 < next_level(l).len(),
        !is_left ==> next_level(l)[cur / 2] == node_hash(l[cur], l[sib]),
        is_left ==> next_level(l)[cur / 2] == node_hash(l[sib], l[cur]),
{
    let half = cur / 2;
    if cur % 2 == 0 {
        assert(2 * half == cur);
    } else {
        assert(2 * half == cur - 1);
        assert(2 * half + 1 == cur);
    }
}

/// One walking step of an inclusion proof: hashing the current node with
/// its sibling entry lands on the parent in the next level.
proof fn lemma_prove_step(
    lv: Seq<Seq<Seq<u8>>>,
    leaf: Seq<u8>,
    nodes: Seq<ProofNode>,
    node: ProofNode,
    k: int,
    cur: int,
)
    requires
        level_chain(lv),
        0 <= k < lv.len() - 1,
        0 <= cur < lv[k].len(),
        recompute(leaf, nodes) == lv[k][cur],
        cur % 2 == 0 ==> !node.is_left && node.hash@ == (if cur + 1 < lv[k].len() {
            lv[k][cur + 1]
        } else {
            lv[k][cur]
        }),
        cur % 2 == 1 ==> node.is_left && node.hash@ == lv[k][cur - 1],
    ensures
        0 <= cur / 2 < lv[k + 1].len(),
        recompute(leaf, nodes.push(node)) == lv[k + 1][cur / 2],
{
    lemma_recompute_push(leaf, nodes, node);
    let l = lv[k];
    let sib: int = if cur % 2 == 0 {
        if cur + 1 < l.len() {
            cur + 1
        } else {
            cur
        }
    } else {
        cur - 1
    };
    lemma_next_level_step(l, cur, sib, node.is_left);
    assert(lv[k + 1] == next_level(l));
    assert(apply_node(l[cur], node) == next_level(l)[cur / 2]);
}

/// An append-only Merkle tree over BLAKE3 leaf hashes. Appending a leaf
/// invalidates the root; `build` recomputes the levels and the root.
pub struct MerkleTree {
    leaves: Vec<Vec<u8>>,
    levels: Vec<Vec<Vec<u8>>>,
    root: Option<Vec<u8>>,
}

impl MerkleTree {
    pub closed spec fn spec_leaves(&self) -> Seq<Seq<u8>> {
        hashes_view(self.leaves@)
    }

    pub closed spec fn spec_levels(&self) -> Seq<Seq<Seq<u8>>> {
        levels_view(self.levels@)
    }

    pub closed spec fn spec_root(&self) -> Option<Seq<u8>> {
        match self.root {
            Some(ref r) => Some(r@),
            None => None,
        }
    }

    /// A tree whose root is set has a complete, well-formed level structure
    /// over its leaves, and the root is the top node.
    pub open spec fn built(&self) -> bool {
        &&& self.spec_levels().len() >= 1
        &&& self.spec_levels()[0] == self.spec_leaves()
        &&& level_chain(self.spec_levels())
        &&& self.spec_levels().last().len() == 1
        &&& self.spec_root() == Some(self.spec_levels().last()[0])
    }

    /// Either the root is invalidated, or the tree is fully built.
    pub open spec fn wf(&self) -> bool {
        self.spec_root() is Some ==> self.built()
    }

    /// An empty tree with no root.
    pub fn new() -> (r: MerkleTree)
        ensures
            r.wf(),
            r.spec_leaves().len() == 0,
            r.spec_root() is None,
    {
        MerkleTree { leaves: Vec::new(), levels: Vec::new(), root: None }
    }

    /// Appends the BLAKE3 hash of `data` as a leaf and invalidates the
    /// root.
    pub fn add_leaf(&mut self, data: &Vec<u8>)
        ensures
            final(self).wf(),
            final(self).spec_leaves() == old(self).spec_leaves().push(blake3_of(data@)),
            final(self).spec_root() is None,
    {
        let h = blake3_hash(data);
        let ghost target = self.spec_leaves().push(h@);
        self.leaves.push(h);
        self.levels = Vec::new();
        self.root = None;
        proof {
            assert(self.spec_leaves() =~= target);
        }
    }

    /// Recomputes the level structure and the root. An empty tree stays
    /// rootless; otherwise the root becomes the tree's digest over the
    /// current leaves.
    pub fn build(&mut self)
        ensures
            final(self).wf(),
            final(self).spec_leaves() == old(self).spec_leaves(),
            old(self).spec_leaves().len() == 0 ==> final(self).spec_root() is None,
            old(self).spec_leaves().len() > 0 ==> final(self).built() && final(self).spec_root()
                == Some(root_of(old(self).spec_leaves())),
    {
        if self.leaves.len() == 0 {
            self.levels = Vec::new();
            self.root = None;
            return ;
        }
        let first = clone_level(&self.leaves);
        let mut levels: Vec<Vec<Vec<u8>>> = Vec::new();
        levels.push(first);
        proof {
            assert(levels_view(levels@) =~= seq![self.spec_leaves()]);
        }
        loop
            invariant
                self == old(self),
                self.spec_leaves().len() > 0,
                levels_view(levels@).len() >= 1,
                levels_view(levels@)[0] == self.spec_leaves(),
                level_chain(levels_view(levels@)),
                levels_view(levels@).last().len() >= 1,
            ensures
                self == old(self),
                levels_view(levels@).len() >= 1,
                levels_view(levels@)[0] == self.spec_leaves(),
                level_chain(levels_view(levels@)),
                levels_view(levels@).last().len() == 1,
            decreases levels_view(levels@).last().len(),
        {
            let li = levels.len() - 1;
            let cur_len = levels[li].len();
            if cur_len <= 1 {
                break ;
            }
            let ghost lv_before = levels_view(levels@);
            let ghost cur = lv_before[li as int];
            let mut next: Vec<Vec<u8>> = Vec::new();
            let mut j: usize = 0;
            while j < cur_len - j
                invariant
                    li as int == lv_before.len() - 1,
                    li < levels@.len(),
                    levels_view(levels@) == lv_before,
                    cur == lv_before[li as int],
                    cur_len as nat == cur.len(),
                    cur_len >= 2,
                    j <= (cur_len + 1) / 2,
                    next@.len() == j,
                    hashes_view(next@) =~= next_level(cur).take(j as int),
                decreases cur_len - j,
            {
                let i2 = 2 * j;
                let right_idx = if i2 + 1 < cur_len {
                    i2 + 1
                } else {
                    i2
                };
                proof {
                    assert(cur[i2 as int] == levels@[li as int]@[i2 as int]@);
                    assert(cur[right_idx as int] == levels@[li as int]@[right_idx as int]@);
                }
                let h = hash_pair(&levels[li][i2], &levels[li][right_idx]);
                proof {
                    assert(next_level(cur)[j as int] == h@);
                }
                let ghost next_before = next@;
                next.push(h);
                proof {
                    assert(hashes_view(next@) =~= next_level(cur).take(j as int + 1));
                }
                j += 1;
            }
            proof {
                assert(2 * j >= cur_len && j <= (cur_len + 1) / 2);
                assert(j == (cur_len + 1) / 2);
                assert(hashes_view(next@) =~= next_level(cur));
                assert(next_level(cur).len() < cur.len());
            }
            let ghost lv_old = levels_view(levels@);
            levels.push(next);
            proof {
                assert(levels_view(levels@) =~= lv_old.push(next_level(cur)));
                assert(levels_view(levels@).last() == next_level(cur));
                assert(level_chain(levels_view(levels@))) by {
                    let lv_new = levels_view(levels@);
                    assert forall|k: int|
                        0 <= k < lv_new.len() - 1 implies (#[trigger] lv_new[k]).len() >= 2
                        && lv_new[k + 1] == next_level(lv_new[k]) by {
                        if k < lv_old.len() - 1 {
                            assert(lv_new[k] == lv_old[k]);
                            assert(lv_new[k + 1] == lv_old[k + 1]);
                            assert((lv_old[k]).len() >= 2 && lv_old[k + 1] == next_level(
                                lv_old[k],
                            ));
                        } else {
                            assert(lv_new[k] == cur);
                            assert(lv_new[k + 1] == next_level(cur));
                        }
                    }
                }
                assert(next_level(cur).len() >= 1);
            }
        }
        let li = levels.len() - 1;
        proof {
            assert(levels_view(levels@).last().len() == 1);
            assert(levels@[li as int]@.len() == 1);
            lemma_chain_root(levels_view(levels@));
        }
        let root_hash = clone_bytes(&levels[li][0]);
        proof {
            assert(root_hash@ == levels_view(levels@).last()[0]);
        }
        self.levels = levels;
        self.root = Some(root_hash);
    }

    /// The current root digest, if the tree is built.
    pub fn root(&self) -> (r: Option<&Vec<u8>>)
        ensures
            match r {
                Some(v) => self.spec_root() == Some(v@),
                None => self.spec_root() is None,
            },
    {
        match &self.root {
            Some(v) => Some(v),
            None => None,
        }
    }

    /// The number of leaves appended so far.
    pub fn leaf_count(&self) -> (r: usize)
        ensures
            r as nat == self.spec_leaves().len(),
    {
        self.leaves.len()
    }

    /// The inclusion proof for leaf `index` of a built tree: the sibling
    /// chain recomputes the tree's root, and its length is the tree's
    /// height. Returns nothing exactly when the tree is not built or the
    /// index is out of range.
    #[verifier::rlimit(100)]
    pub fn prove(&self, index: usize) -> (r: Option<MerkleProof>)
        requires
            self.wf(),
        ensures
            r is None <==> (self.spec_root() is None || index as nat >= self.spec_leaves().len()),
            r matches Some(p) ==> {
                &&& p.leaf_index == index
                &&& p.leaf_hash@ == self.spec_leaves()[index as int]
                &&& self.spec_root() == Some(p.root@)
                &&& p.root@ == root_of(self.spec_leaves())
                &&& p.proof@.len() == tree_height(self.spec_leaves().len())
                &&& proof_accepted(&p)
            },
    {
        let root_vec = match &self.root {
            Some(v) => v,
            None => {
                return None;
            },
        };
        if index >= self.leaves.len() {
            return None;
        }
        proof {
            lemma_chain_root(self.spec_levels());
        }
        let ghost lv = self.spec_levels();
        let ghost leaf = self.spec_leaves()[index as int];
        let mut nodes: Vec<ProofNode> = Vec::new();
        let mut cur: usize = index;
        let mut k: usize = 0;
        while k < self.levels.len() - 1
            invariant
                lv == self.spec_levels(),
                lv.len() == self.levels@.len(),
                level_chain(lv),
                k < lv.len(),
                cur < lv[k as int].len(),
                nodes@.len() == k,
                recompute(leaf, nodes@) == lv[k as int][cur as int],
            decreases self.levels@.len() - k,
        {
            let ghost cur_level = lv[k as int];
            let level = &self.levels[k];
            let level_len = level.len();
            proof {
                assert(cur_level.len() >= 2);
                assert(level_len as nat == cur_level.len());
            }
            let (sib, is_left): (usize, bool) = if cur % 2 == 0 {
                if cur + 1 < level_len {
                    (cur + 1, false)
                } else {
                    (cur, false)
                }
            } else {
                (cur - 1, true)
            };
            proof {
                assert(cur_level[sib as int] == level@[sib as int]@);
            }
            let node = ProofNode { hash: clone_bytes(&level[sib]), is_left };
            proof {
                lemma_prove_step(lv, leaf, nodes@, node, k as int, cur as int);
            }
            nodes.push(node);
            cur = cur / 2;
            k += 1;
        }
        proof {
            assert(k as int == lv.len() - 1);
            assert(lv[k as int].len() == 1);
            assert(cur == 0);
            assert(recompute(leaf, nodes@) == lv.last()[0]);
            assert(self.spec_leaves()[index as int] == self.leaves@[index as int]@);
        }
        Some(
            MerkleProof {
                leaf_index: index,
                leaf_hash: clone_bytes(&self.leaves[index]),
                proof: nodes,
                root: clone_bytes(root_vec),
            },
        )
    }

    /// Recomputes a proof's sibling chain from its leaf hash and compares
    /// the outcome with the embedded root; true exactly when they agree.
    pub fn verify_proof(proof: &MerkleProof) -> (r: bool)
        ensures
            r == proof_accepted(proof),
    {
        let mut cur = clone_bytes(&proof.leaf_hash);
        let mut i: usize = 0;
        while i < proof.proof.len()
            invariant
                i <= proof.proof@.len(),
                cur@ == recompute(proof.leaf_hash@, proof.proof@.take(i as int)),
            decreases proof.proof@.len() - i,
        {
            let node = &proof.proof[i];
            let stepped = if node.is_left {
                hash_pair(&node.hash, &cur)
            } else {
                hash_pair(&cur, &node.hash)
            };
            proof {
                lemma_recompute_push(
                    proof.leaf_hash@,
                    proof.proof@.take(i as int),
                    proof.proof@[i as int],
                );
                assert(proof.proof@.take(i as int + 1) =~= proof.proof@.take(i as int).push(
                    proof.proof@[i as int],
                ));
            }
            cur = stepped;
            i += 1;
        }
        proof {
            assert(proof.proof@.take(i as int) =~= proof.proof@);
        }
        bytes_eq(&cur, &proof.root)
    }
}

/// The BLAKE3 hash of two child hashes, concatenated left then right.
pub fn hash_pair(a: &Vec<u8>, b: &Vec<u8>) -> (r: Vec<u8>)
    ensures
        r@ == node_hash(a@, b@),
        r@.len() == 32,
{
    let joined = concat_bytes(a, b);
    blake3_hash(&joined)
}

/// An exact copy of a level of hashes.
fn clone_level(v: &Vec<Vec<u8>>) -> (r: Vec<Vec<u8>>)
    ensures
        hashes_view(r@) == hashes_view(v@),
{
    let mut out: Vec<Vec<u8>> = Vec::new();
    let mut i: usize = 0;
    while i < v.len()
        invariant
            i <= v@.len(),
            out@.len() == i,
            hashes_view(out@) =~= hashes_view(v@).take(i as int),
        decreases v@.len() - i,
    {
        let h = clone_bytes(&v[i]);
        out.push(h);
        proof {
            assert(hashes_view(out@) =~= hashes_view(v@).take(i as int + 1));
        }
        i += 1;
    }
    proof {
        assert(hashes_view(out@) =~= hashes_view(v@));
    }
    out
}

// ───────────────────────── threshold shares ─────────────────────────

/// One participant's share of a threshold signature, tagged by its index.
#[derive(Debug, Clone)]
pub struct SignatureShare {
    pub index: usize,
    pub share: Vec<u8>,
    pub public_key: Vec<u8>,
}

/// Whether some collected share carries the given index.
pub open spec fn has_index(shares: Seq<SignatureShare>, idx: nat) -> bool {
    exists|i: int| 0 <= i < shares.len() && (#[trigger] shares[i]).index as nat == idx
}

/// A k-of-n threshold signature collector: shares are tagged by an index in
/// `[0, n)`, duplicates and out-of-range indices are ignored, and
/// reconstruction opens once k distinct shares are in.
pub struct ThresholdSignature {
    threshold: usize,
    participants: usize,
    shares: Vec<SignatureShare>,
}

impl ThresholdSignature {
    /// The collected shares carry pairwise distinct indices, all within
    /// range, so their count is the count of distinct indices seen.
    pub open spec fn wf(&self) -> bool {
        &&& self.spec_threshold() <= self.spec_participants()
        &&& forall|i: int|
            0 <= i < self.spec_shares().len() ==> (#[trigger] self.spec_shares()[i]).index
                < self.spec_participants()
        &&& forall|i: int, j: int|
            0 <= i < self.spec_shares().len() && 0 <= j < self.spec_shares().len() && i != j
                ==> (#[trigger] self.spec_shares()[i]).index != (#[trigger] self.spec_shares()[j]).index
    }

    pub closed spec fn spec_threshold(&self) -> nat {
        self.threshold as nat
    }

    pub closed spec fn spec_participants(&self) -> nat {
        self.participants as nat
    }

    pub closed spec fn spec_shares(&self) -> Seq<SignatureShare> {
        self.shares@
    }

    /// A fresh k-of-n collector with no shares.
    pub fn new(threshold: usize, participants: usize) -> (r: ThresholdSignature)
        requires
            threshold <= participants,
        ensures
            r.wf(),
            r.spec_threshold() == threshold as nat,
            r.spec_participants() == participants as nat,
            r.spec_shares().len() == 0,
    {
        ThresholdSignature { threshold, participants, shares: Vec::new() }
    }

    /// Collects a share. A share whose index is out of range, or whose
    /// index was already collected, is ignored; otherwise it is added.
    pub fn add_share(&mut self, share: SignatureShare)
        requires
            old(self).wf(),
        ensures
            final(self).wf(),
            final(self).spec_threshold() == old(self).spec_threshold(),
            final(self).spec_participants() == old(self).spec_participants(),
            share.index as nat >= old(self).spec_participants() || has_index(
                old(self).spec_shares(),
                share.index as nat,
            ) ==> final(self).spec_shares() == old(self).spec_shares(),
            (share.index as nat) < old(self).spec_participants() && !has_index(
                old(self).spec_shares(),
                share.index as nat,
            ) ==> final(self).spec_shares() == old(self).spec_shares().push(share),
    {
        if share.index >= self.participants {
            return ;
        }
        let mut i: usize = 0;
        while i < self.shares.len()
            invariant
                self == old(self),
                self.wf(),
                i <= self.shares@.len(),
                forall|j: int| 0 <= j < i ==> (#[trigger] self.shares@[j]).index != share.index,
            decreases self.shares@.len() - i,
        {
            if self.shares[i].index == share.index {
                proof {
                    assert(has_index(self.spec_shares(), share.index as nat));
                }
                return ;
            }
            i += 1;
        }
        let ghost before = self.shares@;
        proof {
            assert(self.wf());
            assert(before == self.spec_shares());
            assert forall|x: int, y: int|
                0 <= x < before.len() && 0 <= y < before.len() && x != y implies (
            #[trigger] before[x]).index != (#[trigger] before[y]).index by {
                assert((self.spec_shares()[x]).index != (self.spec_shares()[y]).index);
            }
            assert forall|x: int| 0 <= x < before.len() implies (#[trigger] before[x]).index
                < self.spec_participants() by {
                assert((self.spec_shares()[x]).index < self.spec_participants());
            }
        }
        self.shares.push(share);
        proof {
            let s_new = self.spec_shares();
            assert forall|a: int, b: int|
                0 <= a < s_new.len() && 0 <= b < s_new.len() && a != b implies (
            #[trigger] s_new[a]).index != (#[trigger] s_new[b]).index by {
                if a < before.len() && b < before.len() {
                    assert(s_new[a] == before[a] && s_new[b] == before[b]);
                    assert(before[a].index != before[b].index);
                } else if a == before.len() {
                    assert(s_new[b] == before[b] && s_new[a] == share);
                    assert(before[b].index != share.index);
                } else {
                    assert(s_new[a] == before[a] && s_new[b] == share);
                    assert(before[a].index != share.index);
                }
            }
            assert forall|a: int| 0 <= a < s_new.len() implies (#[trigger] s_new[a]).index
                < self.spec_participants() by {
                if a < before.len() {
                    assert(s_new[a] == before[a]);
                    assert(before[a].index < self.spec_participants());
                } else {
                    assert(s_new[a] == share);
                }
            }
            assert(s_new =~= before.push(share));
        }
    }

    /// Whether enough shares are in: true exactly when the number of
    /// distinct share indices collected has reached the threshold.
    pub fn can_reconstruct(&self) -> (r: bool)
        ensures
            r == (self.spec_shares().len() >= self.spec_threshold()),
    {
        self.shares.len() >= self.threshold
    }

    /// Threshold reconstruction opens exactly when the set of distinct
    /// indices among the collected shares has at least threshold many
    /// members (for a well-formed collector the shares are distinct by
    /// index, so their count is that set's size).
    pub proof fn lemma_distinct_indices(&self)
        requires
            self.wf(),
        ensures
            Seq::new(self.spec_shares().len(), |i: int| self.spec_shares()[i].index).to_set().len()
                == self.spec_shares().len(),
    {
        let indices = Seq::new(self.spec_shares().len(), |i: int| self.spec_shares()[i].index);
        assert(indices.no_duplicates());
        indices.unique_seq_to_set();
    }

    /// The combined signature: in this scheme the share bytes of the first
    /// collected share once the threshold is reached, and nothing before.
    pub fn reconstruct(&self) -> (r: Option<Vec<u8>>)
        ensures
            r is Some <==> self.spec_shares().len() >= self.spec_threshold() && self.spec_shares().len() > 0,
            r matches Some(s) ==> s@ == self.spec_shares()[0].share@,
    {
        if self.shares.len() < self.threshold || self.shares.len() == 0 {
            return None;
        }
        Some(clone_bytes(&self.shares[0].share))
    }
}

} // verus!
