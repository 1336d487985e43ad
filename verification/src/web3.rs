//! Ledger-side bookkeeping the dispatcher can reason about locally:
//! distributed consensus over compute proofs, and the token economics of
//! rewards and slashing. On-chain identities and hashes are carried as
//! plain integers and byte strings; the chain itself is a collaborator
//! outside this library.

use vstd::prelude::*;

verus! {

/// One validator's signature over a proof.
#[derive(Debug, Clone)]
pub struct ProofSignature {
    /// The signer's account, as a plain identifier.
    pub signer: u64,
    pub signature: Vec<u8>,
}

/// A proof of computation as submitted for consensus.
#[derive(Debug, Clone)]
pub struct ComputeProof {
    /// The job it attests, as a plain identifier.
    pub job_id: u64,
    /// The worker that ran it.
    pub worker: u64,
    /// The hash of the result.
    pub result_hash: Vec<u8>,
    /// An optional zero-knowledge proof blob.
    pub zk_proof: Option<Vec<u8>>,
    /// The validators' signatures collected so far.
    pub signatures: Vec<ProofSignature>,
    pub timestamp: u64,
    pub gas_used: u64,
}

/// How many pending verifications attest a job.
pub open spec fn count_matching(pending: Seq<ComputeProof>, job_id: u64) -> int
    decreases pending.len(),
{
    if pending.len() == 0 {
        0
    } else {
        (if pending[0].job_id == job_id {
            1int
        } else {
            0int
        }) + count_matching(pending.skip(1), job_id)
    }
}

/// The first pending verification attesting a job.
pub open spec fn first_matching(pending: Seq<ComputeProof>, job_id: u64, i: int) -> Option<int>
    decreases pending.len() - i,
{
    if i < 0 || i >= pending.len() {
        None
    } else if pending[i].job_id == job_id {
        Some(i)
    } else {
        first_matching(pending, job_id, i + 1)
    }
}

/// Every signer of the proof is one of the given validators.
pub open spec fn signers_are_validators(proof: &ComputeProof, validators: Seq<u64>) -> bool {
    forall|i: int|
        0 <= i < proof.signatures@.len() ==> validators.contains(
            (#[trigger] proof.signatures@[i]).signer,
        )
}

/// Distributed consensus over compute proofs: verifications accumulate per
/// job, and consensus is reached once their count meets the threshold.
pub struct ConsensusEngine {
    validators: Vec<u64>,
    threshold: usize,
    pending_verifications: Vec<ComputeProof>,
}

impl ConsensusEngine {
    pub closed spec fn spec_validators(&self) -> Seq<u64> {
        self.validators@
    }

    pub closed spec fn spec_threshold(&self) -> nat {
        self.threshold as nat
    }

    pub closed spec fn spec_pending(&self) -> Seq<ComputeProof> {
        self.pending_verifications@
    }

    /// An engine over the given validator set and threshold, with nothing
    /// pending.
    pub fn new(validators: Vec<u64>, threshold: usize) -> (r: ConsensusEngine)
        ensures
            r.spec_validators() == validators@,
            r.spec_threshold() == threshold as nat,
            r.spec_pending().len() == 0,
    {
        ConsensusEngine { validators, threshold, pending_verifications: Vec::new() }
    }

    /// Adds a verification to the pending pool.
    pub fn add_verification(&mut self, proof: ComputeProof)
        ensures
            final(self).spec_pending() == old(self).spec_pending().push(proof),
            final(self).spec_validators() == old(self).spec_validators(),
            final(self).spec_threshold() == old(self).spec_threshold(),
    {
        self.pending_verifications.push(proof);
    }

    /// Whether consensus is reached for a job: at least threshold many
    /// pending verifications attest it; if so, the first of them is
    /// returned.
    pub fn check_consensus(&self, job_id: u64) -> (r: Option<ComputeProof>)
        ensures
            r is Some <==> (count_matching(self.spec_pending(), job_id) >= self.spec_threshold()
                && count_matching(self.spec_pending(), job_id) > 0),
            r matches Some(p) ==> first_matching(self.spec_pending(), job_id, 0) matches Some(j)
                && p.job_id == self.spec_pending()[j].job_id && p.result_hash@ == self.spec_pending()[
                j
            ].result_hash@,
    {
        let ghost pending = self.spec_pending();
        let mut count: usize = 0;
        let mut first: Option<usize> = None;
        let mut i: usize = 0;
        while i < self.pending_verifications.len()
            invariant
                i <= pending.len(),
                pending == self.spec_pending(),
                count as int == count_matching(pending.take(i as int), job_id),
                count <= i,
                match first {
                    Some(j) => first_matching(pending, job_id, 0) == Some(j as int) && j < i,
                    None => first_matching(pending, job_id, 0) == first_matching(
                        pending,
                        job_id,
                        i as int,
                    ) && count == 0,
                },
            decreases pending.len() - i,
        {
            proof {
                lemma_count_matching_take_step(pending, job_id, i as int);
            }
            if self.pending_verifications[i].job_id == job_id {
                count = count + 1;
                if first.is_none() {
                    proof {
                        assert(first_matching(pending, job_id, i as int) == Some(i as int));
                    }
                    first = Some(i);
                }
            }
            i += 1;
        }
        proof {
            assert(pending.take(pending.len() as int) =~= pending);
            if count_matching(pending, job_id) == 0 {
                lemma_count_zero_no_match(pending, job_id, 0);
            }
        }
        if count >= self.threshold {
            match first {
                Some(j) => Some(clone_proof(&self.pending_verifications[j])),
                None => {
                    // The threshold is zero and nothing matched: there is
                    // no verification to hand back.
                    None
                },
            }
        } else {
            None
        }
    }

    /// Whether a proof's signers are all validators of this engine.
    pub fn validate_proof(&self, proof: &ComputeProof) -> (r: bool)
        ensures
            r == signers_are_validators(proof, self.spec_validators()),
    {
        let mut i: usize = 0;
        while i < proof.signatures.len()
            invariant
                i <= proof.signatures@.len(),
                forall|k: int|
                    0 <= k < i ==> self.spec_validators().contains(
                        (#[trigger] proof.signatures@[k]).signer,
                    ),
        decreases proof.signatures@.len() - i,
        {
            let signer = proof.signatures[i].signer;
            if !self.contains_validator(signer) {
                return false;
            }
            i += 1;
        }
        true
    }

    /// Whether an account is one of the validators.
    fn contains_validator(&self, account: u64) -> (r: bool)
        ensures
            r == self.spec_validators().contains(account),
    {
        let mut i: usize = 0;
        while i < self.validators.len()
            invariant
                i <= self.validators@.len(),
                forall|k: int| 0 <= k < i ==> self.validators@[k] != account,
            decreases self.validators@.len() - i,
        {
            if self.validators[i] == account {
                return true;
            }
            i += 1;
        }
        proof {
            assert(!self.spec_validators().contains(account));
        }
        false
    }
}

/// An exact copy of a proof's plain fields.
fn clone_proof(p: &ComputeProof) -> (r: ComputeProof)
    ensures
        r.job_id == p.job_id,
        r.worker == p.worker,
        r.result_hash@ == p.result_hash@,
        r.timestamp == p.timestamp,
        r.gas_used == p.gas_used,
{
    let zk = match &p.zk_proof {
        Some(v) => Some(crate::verification::clone_bytes(v)),
        None => None,
    };
    let mut sigs: Vec<ProofSignature> = Vec::new();
    let mut i: usize = 0;
    while i < p.signatures.len()
        invariant
            i <= p.signatures@.len(),
        decreases p.signatures@.len() - i,
    {
        let entry = ProofSignature {
            signer: p.signatures[i].signer,
            signature: crate::verification::clone_bytes(&p.signatures[i].signature),
        };
        sigs.push(entry);
        i += 1;
    }
    ComputeProof {
        job_id: p.job_id,
        worker: p.worker,
        result_hash: crate::verification::clone_bytes(&p.result_hash),
        zk_proof: zk,
        signatures: sigs,
        timestamp: p.timestamp,
        gas_used: p.gas_used,
    }
}

proof fn lemma_count_matching_take_step(pending: Seq<ComputeProof>, job_id: u64, i: int)
    requires
        0 <= i < pending.len(),
    ensures
        count_matching(pending.take(i + 1), job_id) == count_matching(pending.take(i), job_id) + (
        if pending[i].job_id == job_id {
            1int
        } else {
            0int
        }),
    decreases i,
{
    if i == 0 {
        assert(pending.take(1)[0] == pending[0]);
        assert(pending.take(1).skip(1) =~= Seq::<ComputeProof>::empty());
        assert(pending.take(0) =~= Seq::<ComputeProof>::empty());
    } else {
        lemma_count_matching_take_step(pending.skip(1), job_id, i - 1);
        assert(pending.take(i + 1)[0] == pending[0]);
        assert(pending.take(i)[0] == pending[0]);
        assert(pending.take(i + 1).skip(1) =~= pending.skip(1).take(i));
        assert(pending.take(i).skip(1) =~= pending.skip(1).take(i - 1));
        assert(pending.skip(1)[i - 1] == pending[i]);
    }
}

proof fn lemma_count_zero_no_match(pending: Seq<ComputeProof>, job_id: u64, i: int)
    requires
        0 <= i <= pending.len(),
        count_matching(pending.skip(i), job_id) == 0,
    ensures
        first_matching(pending, job_id, i) is None,
    decreases pending.len() - i,
{
    if i < pending.len() {
        assert(pending.skip(i)[0] == pending[i]);
        assert(pending.skip(i).skip(1) =~= pending.skip(i + 1));
        lemma_count_nonneg(pending.skip(i + 1), job_id);
        lemma_count_zero_no_match(pending, job_id, i + 1);
    }
}

proof fn lemma_count_nonneg(pending: Seq<ComputeProof>, job_id: u64)
    ensures
        count_matching(pending, job_id) >= 0,
    decreases pending.len(),
{
    if pending.len() > 0 {
        lemma_count_nonneg(pending.skip(1), job_id);
    }
}

/// The violations a worker's stake can be slashed for.
#[derive(Debug, Clone, Copy, PartialEq, Eq, Structural)]
pub enum ViolationType {
    IncorrectResult,
    Timeout,
    Malicious,
}

/// Token economics of compute: rewards scale with quality and efficiency,
/// slashing takes a violation-dependent share of the stake.
pub struct TokenEconomics {
    /// The base reward per job, in token base units.
    pub base_reward: u128,
    /// The performance multiplier, in thousandths.
    pub performance_multiplier_permille: u64,
    /// The stake a worker must post, in token base units.
    pub stake_requirement: u128,
}

impl TokenEconomics {
    /// The reward for a job: the base reward scaled by the performance
    /// multiplier, the quality score (both in thousandths) and the
    /// efficiency — the reciprocal of gas times time, floored at one.
    pub fn calculate_reward(&self, gas_used: u64, time_taken: u64, quality_permille: u64) -> (r:
        u128)
        requires
            self.base_reward <= 0xffff_ffff_ffff_ffff,
            self.performance_multiplier_permille <= 1000000,
            quality_permille <= 1000,
        ensures
            r == spec_reward(
                self.base_reward as int,
                self.performance_multiplier_permille as int,
                quality_permille as int,
                gas_used as int,
                time_taken as int,
            ),
    {
        let work = if gas_used == 0 || time_taken == 0 {
            1u128
        } else {
            proof {
                lemma_u64_square_fits(gas_used as int, time_taken as int);
            }
            (gas_used as u128) * (time_taken as u128)
        };
        proof {
            lemma_reward_fits(
                self.base_reward as int,
                self.performance_multiplier_permille as int,
                quality_permille as int,
            );
        }
        self.base_reward * (self.performance_multiplier_permille as u128) * (
        quality_permille as u128) / 1000000 / work
    }

    /// The slashed share of a stake: half for an incorrect result, a tenth
    /// for a timeout, all of it for malice.
    pub fn slash_stake(&self, stake: u128, violation: ViolationType) -> (r: u128)
        ensures
            violation == ViolationType::IncorrectResult ==> r == stake / 2,
            violation == ViolationType::Timeout ==> r == stake / 10,
            violation == ViolationType::Malicious ==> r == stake,
    {
        match violation {
            ViolationType::IncorrectResult => stake / 2,
            ViolationType::Timeout => stake / 10,
            ViolationType::Malicious => stake,
        }
    }
}

/// The reward formula over unbounded integers.
pub open spec fn spec_reward(
    base: int,
    perf_permille: int,
    quality_permille: int,
    gas: int,
    time: int,
) -> int {
    let work = if gas == 0 || time == 0 {
        1int
    } else {
        gas * time
    };
    base * perf_permille * quality_permille / 1000000 / work
}

/// A product of two 64-bit quantities fits 128 bits.
proof fn lemma_u64_square_fits(a: int, b: int)
    requires
        0 <= a <= u64::MAX,
        0 <= b <= u64::MAX,
    ensures
        0 <= a * b <= u128::MAX,
        a >= 1 && b >= 1 ==> a * b >= 1,
{
    assert(a >= 1 && b >= 1 ==> a * b >= 1) by (nonlinear_arith);
    assert(a * b <= (u64::MAX as int) * (u64::MAX as int) && a * b >= 0) by (nonlinear_arith)
        requires
            0 <= a <= u64::MAX,
            0 <= b <= u64::MAX,
    ;
    assert((u64::MAX as int) * (u64::MAX as int) <= u128::MAX);
}

/// The reward numerator fits 128 bits under the stated parameter bounds.
proof fn lemma_reward_fits(base: int, perf: int, quality: int)
    requires
        0 <= base <= 0xffff_ffff_ffff_ffff,
        0 <= perf <= 1000000,
        0 <= quality <= 1000,
    ensures
        0 <= base * perf <= u128::MAX,
        0 <= base * perf * quality <= u128::MAX,
{
    assert(0 <= base * perf <= 0xffff_ffff_ffff_ffff * 1000000int) by (nonlinear_arith)
        requires
            0 <= base <= 0xffff_ffff_ffff_ffff,
            0 <= perf <= 1000000,
    ;
    assert(0 <= base * perf * quality <= 0xffff_ffff_ffff_ffff * 1000000int * 1000int)
        by (nonlinear_arith)
        requires
            0 <= base * perf <= 0xffff_ffff_ffff_ffff * 1000000int,
            0 <= quality <= 1000,
    ;
    assert(0xffff_ffff_ffff_ffff * 1000000int * 1000int <= u128::MAX);
}

} // verus!
