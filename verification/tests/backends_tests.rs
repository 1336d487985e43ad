//! The backend descriptors and their capability records.

use reassembly::backends::CpuBackend;
use reassembly::backends::CudaBackend;
use reassembly::backends::MetalBackend;
use reassembly::backends::RocmBackend;
use reassembly::backends::VulkanBackend;
use reassembly::backends::Web3Backend;
use reassembly::types::BackendType;
use reassembly::types::EngineError;

#[test]
fn cpu_backend_is_always_available() {
    let cpu = CpuBackend::new().unwrap();
    assert!(cpu.is_available());
    assert_eq!(cpu.backend_type(), BackendType::Cpu);
    let caps = cpu.capabilities();
    assert!(caps.max_threads >= 1);
    assert!(!caps.supports_tensor_ops);
    assert!(caps.supports_float64);
    let estimate = cpu.estimate_resources(4096);
    assert_eq!(estimate.compute_units, 1);
    assert_eq!(estimate.estimated_time_ms, 100);
    assert_eq!(estimate.memory_bytes, 4096);
}

#[test]
fn cuda_capabilities_follow_compute_capability() {
    // An 8.9 device: half precision, int8 and tensor cores all present.
    let modern = CudaBackend::new(0, 8, 9, 24 * 1024 * 1024 * 1024);
    let caps = modern.capabilities();
    assert!(caps.supports_float16);
    assert!(caps.supports_int8);
    assert!(caps.supports_tensor_ops);

    // A 3.0 device predates all three.
    let old = CudaBackend::new(0, 3, 0, 4 * 1024 * 1024 * 1024);
    let old_caps = old.capabilities();
    assert!(!old_caps.supports_float16);
    assert!(!old_caps.supports_int8);
    assert!(!old_caps.supports_tensor_ops);

    assert_eq!(modern.estimate_resources(1).compute_units, 100);
}

#[test]
fn gpu_descriptor_rank_ordering() {
    let rocm = RocmBackend::new().unwrap();
    let metal = MetalBackend::new(8 * 1024 * 1024 * 1024);
    let vulkan = VulkanBackend::new(4096, 1024, 32768);
    assert_eq!(rocm.estimate_resources(1).compute_units, 90);
    assert_eq!(metal.estimate_resources(1).compute_units, 50);
    assert_eq!(vulkan.estimate_resources(1).compute_units, 40);
    assert!(!metal.capabilities().supports_float64);
    assert!(vulkan.capabilities().supports_float64);
    assert_eq!(rocm.descriptor().backend_type, BackendType::Rocm);
}

#[test]
fn ledger_backend_refuses_generic_execute() {
    let ledger = Web3Backend::new();
    assert_eq!(ledger.backend_type(), BackendType::Ledger);
    assert_eq!(ledger.execute(), Err(EngineError::RouteMismatch));
    let caps = ledger.capabilities();
    assert_eq!(caps.max_threads, 1);
    assert!(!caps.supports_float32);
}

#[test]
fn shutdown_closes_a_descriptor() {
    let cpu = CpuBackend::new().unwrap();
    let mut descriptor = cpu.descriptor();
    assert!(descriptor.is_available());
    descriptor.shutdown();
    assert!(!descriptor.is_available());
}

#[test]
fn cpu_backend_reports_discovered_host_memory() {
    let cpu = CpuBackend::with_host_memory(42 * 1024 * 1024 * 1024).unwrap();
    assert_eq!(cpu.capabilities().max_memory, 42 * 1024 * 1024 * 1024);
    // Without a discovered figure the documented fallback stands.
    let fallback = CpuBackend::new().unwrap();
    assert_eq!(fallback.capabilities().max_memory, 8 * 1024 * 1024 * 1024);
}
