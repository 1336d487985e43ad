//! The engine facade, the pre-filter and the program-surface helpers.

use reassembly::engine::create_engine;
use reassembly::engine::EngineConfig;
use reassembly::engine::ReassemblyEngine;
use reassembly::prefilter::apply_consciousness_transform;
use reassembly::prefilter::ConsciousnessLevel;
use reassembly::prefilter::WarpReassemblyBridge;
use reassembly::prefilter::WarpSpeedProcessor;
use reassembly::types::BackendType;
use reassembly::types::Computation;
use reassembly::types::ResourceConstraints;
use reassembly::types::VerificationRequirement;
use reassembly::verification::VerificationEngine;
use reassembly::wasm::validate_web3_header;
use reassembly::wasm::ExecutionStats;
use reassembly::wasm::Web3Extensions;

#[test]
fn test_engine_creation() {
    let engine = create_engine();
    assert!(engine.is_ok());
}

#[test]
fn test_simple_computation() {
    let _engine = create_engine().unwrap();

    let _computation = Computation {
        id: "test-1".to_string(),
        wasm_module: vec![],
        input: vec![1, 2, 3, 4],
        backend_hints: vec![BackendType::Cpu],
        verification: None,
        constraints: ResourceConstraints {
            max_memory: 1024 * 1024,
            max_time_ms: 1000,
            max_gas: None,
        },
    };
}

#[test]
fn test_consciousness_elevation() {
    let mut processor = WarpSpeedProcessor::new(ConsciousnessLevel::Alpha, false).unwrap();

    processor.elevate_to(ConsciousnessLevel::Gamma).unwrap();

    assert_eq!(processor.level(), ConsciousnessLevel::Gamma);
}

#[test]
fn test_web3_extensions() {
    let extensions = Web3Extensions::default();
    assert!(extensions.blockchain_ops);
    assert!(extensions.consensus_enabled);
    assert!(extensions.zk_proofs);
}

#[test]
fn test_wasm_runtime() {
    // A minimal module header: magic then version.
    let wasm_bytes = vec![0x00, 0x61, 0x73, 0x6d, 0x01, 0x00, 0x00, 0x00];
    assert!(validate_web3_header(&wasm_bytes));
    assert!(!validate_web3_header(&vec![0x7f, 0x45, 0x4c, 0x46, 0x01, 0x00, 0x00, 0x00]));
    assert!(!validate_web3_header(&vec![0x00, 0x61, 0x73]));
}

#[test]
fn cpu_only_small_job_runs_end_to_end() {
    // A small identity job on a CPU-only engine, with a multi-hash
    // commitment over the output.
    let mut config = EngineConfig::default();
    config.max_memory = 1024 * 1024;
    config.enable_warp_speed = false;
    let mut engine = ReassemblyEngine::new(config).unwrap();

    let computation = Computation {
        id: "J1".to_string(),
        wasm_module: vec![0x00, 0x61, 0x73, 0x6d, 0x01, 0x00, 0x00, 0x00],
        input: vec![0x01, 0x02, 0x03, 0x04],
        backend_hints: Vec::new(),
        verification: Some(VerificationRequirement::Optimistic),
        constraints: ResourceConstraints { max_memory: 1024, max_time_ms: 1000, max_gas: None },
    };

    let plan = engine.prepare_execution(&computation).unwrap();
    // Only the CPU is registered, so any policy lands there.
    assert_eq!(plan.backend_type, BackendType::Cpu);
    // No pre-filter: the input buffer holds the raw input.
    assert_eq!(plan.input_buffer.read(), vec![0x01, 0x02, 0x03, 0x04]);

    // The identity program echoes the input; the collaborator would have
    // produced these bytes.
    let output = plan.input_buffer.read();
    let result = engine.complete_execution(&computation, plan, output, 5).unwrap();
    assert_eq!(result.id, "J1");
    assert_eq!(result.output, vec![0x01, 0x02, 0x03, 0x04]);
    assert_eq!(result.backend, BackendType::Cpu);

    // The commitment binds the exact output bytes.
    let mut verifier = VerificationEngine::new().unwrap();
    let commitment = verifier.create_commitment(&result.output);
    assert!(verifier.verify_commitment(&commitment, &result.output));
    assert!(!verifier.verify_commitment(&commitment, &vec![0x01, 0x02, 0x03]));

    // The input buffer went back to the pool.
    let stats = engine.get_stats();
    assert_eq!(stats.memory_used, 0);
    assert_eq!(stats.computations_executed, 1);
}

#[test]
fn pool_exhaustion_fails_job_cleanly() {
    // A 1 KiB pool cannot stage a 2 KiB input; nothing stays allocated.
    let mut config = EngineConfig::default();
    config.max_memory = 1024;
    config.enable_warp_speed = false;
    let mut engine = ReassemblyEngine::new(config).unwrap();

    let computation = Computation {
        id: "big".to_string(),
        wasm_module: vec![],
        input: vec![0u8; 2048],
        backend_hints: Vec::new(),
        verification: None,
        constraints: ResourceConstraints { max_memory: 4096, max_time_ms: 10, max_gas: None },
    };
    assert!(engine.prepare_execution(&computation).is_err());
    assert_eq!(engine.get_stats().memory_used, 0);
}

#[test]
fn proof_strategies_have_their_sizes() {
    let engine = create_engine().unwrap();
    let computation = Computation {
        id: "p".to_string(),
        wasm_module: vec![],
        input: vec![],
        backend_hints: Vec::new(),
        verification: None,
        constraints: ResourceConstraints { max_memory: 0, max_time_ms: 0, max_gas: None },
    };
    let out = vec![1u8];
    assert_eq!(
        engine.generate_proof(&computation, &out, VerificationRequirement::ZkSnark).unwrap().len(),
        256
    );
    assert_eq!(
        engine.generate_proof(&computation, &out, VerificationRequirement::ZkStark).unwrap().len(),
        512
    );
    assert_eq!(
        engine
            .generate_proof(&computation, &out, VerificationRequirement::Bulletproof)
            .unwrap()
            .len(),
        128
    );
    assert_eq!(
        engine
            .generate_proof(&computation, &out, VerificationRequirement::Optimistic)
            .unwrap()
            .len(),
        0
    );
}

#[test]
fn prefilter_transforms_are_pinned() {
    // Alpha: wrapping increment.
    assert_eq!(
        apply_consciousness_transform(&vec![0, 1, 255], ConsciousnessLevel::Alpha),
        vec![1, 2, 0]
    );
    // Beta: the first byte of each full four-byte block becomes its sum.
    assert_eq!(
        apply_consciousness_transform(&vec![1, 2, 3, 4, 5], ConsciousnessLevel::Beta),
        vec![10, 2, 3, 4, 5]
    );
    // Gamma on a pair folds the left into the right.
    assert_eq!(
        apply_consciousness_transform(&vec![3, 5], ConsciousnessLevel::Gamma),
        vec![6, 5]
    );
    // Delta: the alternating mask.
    assert_eq!(
        apply_consciousness_transform(&vec![0x00, 0xFF], ConsciousnessLevel::Delta),
        vec![0xAA, 0x55]
    );
    // Omega: position times the golden ratio in thousandths, wrapping.
    // Steps at positions 0,1,2 are 0, 1, 3.
    assert_eq!(
        apply_consciousness_transform(&vec![10, 10, 10], ConsciousnessLevel::Omega),
        vec![10, 11, 13]
    );
}

#[test]
fn complexity_selects_levels_at_thresholds() {
    let bridge =
        WarpReassemblyBridge::new(WarpSpeedProcessor::new(ConsciousnessLevel::Alpha, false).unwrap());
    assert_eq!(bridge.select_consciousness_level(0), ConsciousnessLevel::Alpha);
    assert_eq!(bridge.select_consciousness_level(299), ConsciousnessLevel::Alpha);
    assert_eq!(bridge.select_consciousness_level(300), ConsciousnessLevel::Beta);
    assert_eq!(bridge.select_consciousness_level(500), ConsciousnessLevel::Gamma);
    assert_eq!(bridge.select_consciousness_level(700), ConsciousnessLevel::Delta);
    assert_eq!(bridge.select_consciousness_level(900), ConsciousnessLevel::Omega);
}

#[test]
fn elevation_never_goes_down() {
    let mut processor = WarpSpeedProcessor::new(ConsciousnessLevel::Delta, false).unwrap();
    processor.elevate_to(ConsciousnessLevel::Beta).unwrap();
    assert_eq!(processor.level(), ConsciousnessLevel::Delta);
}

#[test]
fn level_constants_are_fixed() {
    assert_eq!(ConsciousnessLevel::Alpha.core_count(), 1_024);
    assert_eq!(ConsciousnessLevel::Beta.core_count(), 4_096);
    assert_eq!(ConsciousnessLevel::Gamma.core_count(), 16_384);
    assert_eq!(ConsciousnessLevel::Delta.core_count(), 65_536);
    assert_eq!(ConsciousnessLevel::Omega.core_count(), 262_144);
    assert_eq!(ConsciousnessLevel::Omega.multiplier_permyriad(), 390_625);
}

#[test]
fn execution_stats_count_function_calls() {
    let mut stats = ExecutionStats::default();
    stats.record_execution("main", 10);
    stats.record_execution("main", 5);
    stats.record_execution("aux", 1);
    assert_eq!(stats.total_executions, 3);
    assert_eq!(stats.total_duration_ms, 16);
    assert_eq!(stats.function_calls.len(), 2);
    assert_eq!(stats.function_calls[0], ("main".to_string(), 2));
    assert_eq!(stats.function_calls[1], ("aux".to_string(), 1));
}

#[test]
fn shutdown_clears_pool_and_closes_backends() {
    let mut engine = create_engine().unwrap();
    assert!(engine.shutdown().is_ok());
    assert_eq!(engine.get_stats().memory_used, 0);
}

#[test]
fn execute_after_shutdown_is_backend_closed() {
    let mut engine = create_engine().unwrap();
    engine.shutdown().unwrap();

    let computation = Computation {
        id: "late".to_string(),
        wasm_module: vec![],
        input: vec![1, 2, 3],
        backend_hints: Vec::new(),
        verification: None,
        constraints: ResourceConstraints { max_memory: 64, max_time_ms: 10, max_gas: None },
    };
    assert_eq!(
        engine.prepare_execution(&computation).err(),
        Some(reassembly::types::EngineError::BackendClosed)
    );
}

#[test]
fn abandoned_run_returns_buffer_without_a_record() {
    let mut config = EngineConfig::default();
    config.max_memory = 4096;
    config.enable_warp_speed = false;
    let mut engine = ReassemblyEngine::new(config).unwrap();
    let computation = Computation {
        id: "gone".to_string(),
        wasm_module: vec![],
        input: vec![9, 9],
        backend_hints: Vec::new(),
        verification: None,
        constraints: ResourceConstraints { max_memory: 64, max_time_ms: 10, max_gas: None },
    };
    let plan = engine.prepare_execution(&computation).unwrap();
    assert_eq!(engine.get_stats().memory_used, 2);
    engine.abandon_execution(plan);
    let stats = engine.get_stats();
    assert_eq!(stats.memory_used, 0);
    assert_eq!(stats.computations_executed, 0);
}
