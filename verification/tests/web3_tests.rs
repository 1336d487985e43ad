//! Consensus bookkeeping and token economics.

use reassembly::web3::ComputeProof;
use reassembly::web3::ConsensusEngine;
use reassembly::web3::ProofSignature;
use reassembly::web3::TokenEconomics;
use reassembly::web3::ViolationType;

fn proof_for(job_id: u64) -> ComputeProof {
    ComputeProof {
        job_id,
        worker: 7,
        result_hash: vec![0xde, 0xad],
        zk_proof: None,
        signatures: vec![],
        timestamp: 0,
        gas_used: 100,
    }
}

#[test]
fn test_token_economics() {
    let economics = TokenEconomics {
        base_reward: 1000,
        performance_multiplier_permille: 1500,
        stake_requirement: 10000,
    };

    let reward = economics.calculate_reward(100, 10, 900);
    assert!(reward > 0);

    let slashed = economics.slash_stake(10000, ViolationType::IncorrectResult);
    assert_eq!(slashed, 5000);
}

#[test]
fn test_consensus_engine() {
    let validators = vec![1, 2, 3];

    let engine = ConsensusEngine::new(validators.clone(), 2);
    let job_id = 100;

    // Add first verification
    let proof1 = proof_for(job_id);
    let mut engine = engine;
    engine.add_verification(proof1.clone());

    // Not enough for consensus
    assert!(engine.check_consensus(job_id).is_none());

    // Add second verification
    engine.add_verification(proof1);

    // Now we have consensus
    assert!(engine.check_consensus(job_id).is_some());
}

#[test]
fn slashing_shares_per_violation() {
    let economics = TokenEconomics {
        base_reward: 10,
        performance_multiplier_permille: 1000,
        stake_requirement: 1000,
    };
    assert_eq!(economics.slash_stake(1000, ViolationType::Timeout), 100);
    assert_eq!(economics.slash_stake(1000, ViolationType::Malicious), 1000);
}

#[test]
fn proof_validation_checks_signers() {
    let engine = ConsensusEngine::new(vec![1, 2], 1);
    let mut proof = proof_for(5);
    proof.signatures.push(ProofSignature { signer: 2, signature: vec![9] });
    assert!(engine.validate_proof(&proof));
    proof.signatures.push(ProofSignature { signer: 4, signature: vec![9] });
    assert!(!engine.validate_proof(&proof));
}

#[test]
fn consensus_counts_only_the_matching_job() {
    let mut engine = ConsensusEngine::new(vec![1], 2);
    engine.add_verification(proof_for(100));
    engine.add_verification(proof_for(200));
    assert!(engine.check_consensus(100).is_none());
    engine.add_verification(proof_for(100));
    let agreed = engine.check_consensus(100).unwrap();
    assert_eq!(agreed.job_id, 100);
    assert!(engine.check_consensus(200).is_none());
}
