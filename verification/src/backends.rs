//! The compute backends: a closed tagged descriptor the scheduler scores,
//! and one constructor per concrete backend family whose capability record
//! is a pure function of the discovered device parameters.

use vstd::prelude::*;
use crate::types::BackendType;

verus! {

/// What a backend can do; read-only after initialization.
#[derive(Debug, Clone, Copy, PartialEq, Eq, Structural)]
pub struct BackendCapabilities {
    pub max_memory: u64,
    pub max_threads: usize,
    pub supports_float16: bool,
    pub supports_float32: bool,
    pub supports_float64: bool,
    pub supports_int8: bool,
    pub supports_tensor_ops: bool,
    pub supports_async: bool,
}

/// A per-job, per-backend forecast. `compute_units` is a dimensionless
/// throughput rank (higher means more parallel throughput); advisory only,
/// never enforced.
#[derive(Debug, Clone, Copy, PartialEq, Eq, Structural)]
pub struct ResourceEstimate {
    pub memory_bytes: usize,
    pub compute_units: u64,
    pub estimated_time_ms: u64,
}

/// A registered backend as the scheduler sees it: its tag and capabilities
/// are data on the record; only execution is dispatched elsewhere.
#[derive(Debug, Clone, Copy, PartialEq, Eq, Structural)]
pub struct Backend {
    pub backend_type: BackendType,
    pub capabilities: BackendCapabilities,
    pub available: bool,
    /// Set by shutdown; a closed backend accepts no further work.
    pub closed: bool,
    /// Jobs currently running on this backend.
    pub in_flight: usize,
}

impl Backend {
    /// The backend's tag.
    pub fn backend_type(&self) -> (r: BackendType)
        ensures
            r == self.backend_type,
    {
        self.backend_type
    }

    /// Whether the backend can take work: discovered as available and not
    /// closed for shutdown.
    pub fn is_available(&self) -> (r: bool)
        ensures
            r == (self.available && !self.closed),
    {
        self.available && !self.closed
    }

    /// The backend's capability record.
    pub fn capabilities(&self) -> (r: BackendCapabilities)
        ensures
            r == self.capabilities,
    {
        self.capabilities
    }

    /// Closes the backend: after this, no further execute is routed to it.
    pub fn shutdown(&mut self)
        ensures
            *final(self) == (Backend { closed: true, ..*old(self) }),
    {
        self.closed = true;
    }
}

/// Relies on num_cpus::get: the number of logical CPUs, documented to be at
/// least 1.
#[verifier::external_body]
pub(crate) fn cpu_count() -> (r: usize)
    ensures
        r >= 1,
{
    num_cpus::get()
}

/// The fallback host-memory figure the CPU backend reports when the real
/// figure is not supplied: 8 GiB.
pub const DEFAULT_CPU_MEMORY: u64 = 8 * 1024 * 1024 * 1024;

/// The general-purpose CPU backend: always available, no tensor units.
pub struct CpuBackend {
    num_threads: usize,
    simd_width: usize,
    host_memory: u64,
}

impl CpuBackend {
    /// Discovers the logical core count and reports the fallback memory
    /// figure; the SIMD width is the 256-bit vector width of the common
    /// extension set.
    pub fn new() -> (r: Result<CpuBackend, crate::types::EngineError>)
        ensures
            r matches Ok(b) && b.spec_num_threads() >= 1 && b.spec_simd_width() == 256
                && b.spec_host_memory() == DEFAULT_CPU_MEMORY,
    {
        Ok(CpuBackend { num_threads: cpu_count(), simd_width: 256, host_memory: DEFAULT_CPU_MEMORY })
    }

    /// The same backend reporting the host's discovered memory, handed in
    /// by whoever queried the platform.
    pub fn with_host_memory(host_memory: u64) -> (r: Result<CpuBackend, crate::types::EngineError>)
        ensures
            r matches Ok(b) && b.spec_num_threads() >= 1 && b.spec_simd_width() == 256
                && b.spec_host_memory() == host_memory,
    {
        Ok(CpuBackend { num_threads: cpu_count(), simd_width: 256, host_memory })
    }

    pub closed spec fn spec_host_memory(&self) -> u64 {
        self.host_memory
    }

    pub closed spec fn spec_num_threads(&self) -> nat {
        self.num_threads as nat
    }

    pub closed spec fn spec_simd_width(&self) -> nat {
        self.simd_width as nat
    }

    pub fn backend_type(&self) -> (r: BackendType)
        ensures
            r == BackendType::Cpu,
    {
        BackendType::Cpu
    }

    /// The CPU is always available.
    pub fn is_available(&self) -> (r: bool)
        ensures
            r,
    {
        true
    }

    /// Host memory, one thread per logical core, floats but no tensor ops.
    pub open spec fn spec_capabilities(&self) -> BackendCapabilities {
        BackendCapabilities {
                max_memory: self.spec_host_memory(),
                max_threads: self.spec_num_threads() as usize,
                supports_float16: false,
                supports_float32: true,
                supports_float64: true,
                supports_int8: true,
                supports_tensor_ops: false,
                supports_async: true,
            }
    }

    pub fn capabilities(&self) -> (r: BackendCapabilities)
        ensures
            r == self.spec_capabilities(),
    {
        BackendCapabilities {
            max_memory: self.host_memory,
            max_threads: self.num_threads,
            supports_float16: false,
            supports_float32: true,
            supports_float64: true,
            supports_int8: true,
            supports_tensor_ops: false,
            supports_async: true,
        }
    }

    /// A conservative forecast: single compute unit, 100 ms.
    pub fn estimate_resources(&self, module_memory: usize) -> (r: ResourceEstimate)
        ensures
            r == (ResourceEstimate {
                memory_bytes: module_memory,
                compute_units: 1u64,
                estimated_time_ms: 100u64,
            }),
    {
        ResourceEstimate { memory_bytes: module_memory, compute_units: 1, estimated_time_ms: 100 }
    }

    /// The descriptor the registry and scheduler work with.
    pub fn descriptor(&self) -> (r: Backend)
        ensures
            r.backend_type == BackendType::Cpu,
            r.available,
            !r.closed,
            r.in_flight == 0,
            r.capabilities == self.spec_capabilities(),
    {
        Backend {
            backend_type: BackendType::Cpu,
            capabilities: self.capabilities(),
            available: true,
            closed: false,
            in_flight: 0,
        }
    }
}

/// An NVIDIA CUDA device, described by its discovered compute capability
/// and memory. Discovery itself happens outside; the record is pure data.
pub struct CudaBackend {
    device_id: i32,
    compute_capability: (i32, i32),
    memory_bytes: usize,
}

impl CudaBackend {
    /// Wraps a discovered device: its index, compute capability (major,
    /// minor) and total memory.
    pub fn new(device_id: i32, major: i32, minor: i32, memory_bytes: usize) -> (r: CudaBackend)
        ensures
            r.spec_device_id() == device_id,
            r.spec_capability() == (major, minor),
            r.spec_memory_bytes() == memory_bytes as nat,
    {
        CudaBackend { device_id, compute_capability: (major, minor), memory_bytes }
    }

    pub closed spec fn spec_device_id(&self) -> i32 {
        self.device_id
    }

    pub closed spec fn spec_capability(&self) -> (i32, i32) {
        self.compute_capability
    }

    pub closed spec fn spec_memory_bytes(&self) -> nat {
        self.memory_bytes as nat
    }

    pub fn backend_type(&self) -> (r: BackendType)
        ensures
            r == BackendType::Cuda,
    {
        BackendType::Cuda
    }

    pub fn is_available(&self) -> (r: bool)
        ensures
            r,
    {
        true
    }

    /// Capabilities follow the device's compute capability: half precision
    /// from 5.x, int8 from 6.x, tensor cores from 7.x, doubles from 1.3.
    pub open spec fn spec_capabilities(&self) -> BackendCapabilities {
        BackendCapabilities {
                max_memory: self.spec_memory_bytes() as u64,
                max_threads: (1024 * 32) as usize,
                supports_float16: self.spec_capability().0 >= 5,
                supports_float32: true,
                supports_float64: self.spec_capability().0 >= 1 && self.spec_capability().1 >= 3,
                supports_int8: self.spec_capability().0 >= 6,
                supports_tensor_ops: self.spec_capability().0 >= 7,
                supports_async: true,
            }
    }

    pub fn capabilities(&self) -> (r: BackendCapabilities)
        ensures
            r == self.spec_capabilities(),
    {
        BackendCapabilities {
            max_memory: self.memory_bytes as u64,
            max_threads: 1024 * 32,
            supports_float16: self.compute_capability.0 >= 5,
            supports_float32: true,
            supports_float64: self.compute_capability.0 >= 1 && self.compute_capability.1 >= 3,
            supports_int8: self.compute_capability.0 >= 6,
            supports_tensor_ops: self.compute_capability.0 >= 7,
            supports_async: true,
        }
    }

    /// GPUs rank far above the CPU: 100 units, 10 ms.
    pub fn estimate_resources(&self, module_memory: usize) -> (r: ResourceEstimate)
        ensures
            r == (ResourceEstimate {
                memory_bytes: module_memory,
                compute_units: 100u64,
                estimated_time_ms: 10u64,
            }),
    {
        ResourceEstimate { memory_bytes: module_memory, compute_units: 100, estimated_time_ms: 10 }
    }

    pub fn descriptor(&self) -> (r: Backend)
        ensures
            r.backend_type == BackendType::Cuda,
            r.available,
            !r.closed,
            r.in_flight == 0,
            r.capabilities == self.spec_capabilities(),
    {
        Backend {
            backend_type: BackendType::Cuda,
            capabilities: self.capabilities(),
            available: true,
            closed: false,
            in_flight: 0,
        }
    }
}

/// The typical memory figure an AMD device reports when discovery gives
/// none: 16 GiB.
pub const DEFAULT_ROCM_MEMORY: u64 = 16 * 1024 * 1024 * 1024;

/// An AMD ROCm device.
pub struct RocmBackend {
    device_id: i32,
    memory_bytes: u64,
}

impl RocmBackend {
    /// The first device with the typical memory figure.
    pub fn new() -> (r: Result<RocmBackend, crate::types::EngineError>)
        ensures
            r matches Ok(b) && b.spec_device_id() == 0 && b.spec_memory_bytes()
                == DEFAULT_ROCM_MEMORY as nat,
    {
        Ok(RocmBackend { device_id: 0, memory_bytes: DEFAULT_ROCM_MEMORY })
    }

    pub closed spec fn spec_device_id(&self) -> i32 {
        self.device_id
    }

    pub closed spec fn spec_memory_bytes(&self) -> nat {
        self.memory_bytes as nat
    }

    pub fn backend_type(&self) -> (r: BackendType)
        ensures
            r == BackendType::Rocm,
    {
        BackendType::Rocm
    }

    pub fn is_available(&self) -> (r: bool)
        ensures
            r,
    {
        true
    }

    /// Full float support and matrix cores.
    pub open spec fn spec_capabilities(&self) -> BackendCapabilities {
        BackendCapabilities {
                max_memory: self.spec_memory_bytes() as u64,
                max_threads: (1024 * 32) as usize,
                supports_float16: true,
                supports_float32: true,
                supports_float64: true,
                supports_int8: true,
                supports_tensor_ops: true,
                supports_async: true,
            }
    }

    pub fn capabilities(&self) -> (r: BackendCapabilities)
        ensures
            r == self.spec_capabilities(),
    {
        BackendCapabilities {
            max_memory: self.memory_bytes as u64,
            max_threads: 1024 * 32,
            supports_float16: true,
            supports_float32: true,
            supports_float64: true,
            supports_int8: true,
            supports_tensor_ops: true,
            supports_async: true,
        }
    }

    /// Slightly below CUDA: 90 units, 12 ms.
    pub fn estimate_resources(&self, module_memory: usize) -> (r: ResourceEstimate)
        ensures
            r == (ResourceEstimate {
                memory_bytes: module_memory,
                compute_units: 90u64,
                estimated_time_ms: 12u64,
            }),
    {
        ResourceEstimate { memory_bytes: module_memory, compute_units: 90, estimated_time_ms: 12 }
    }

    pub fn descriptor(&self) -> (r: Backend)
        ensures
            r.backend_type == BackendType::Rocm,
            r.available,
            !r.closed,
            r.in_flight == 0,
            r.capabilities == self.spec_capabilities(),
    {
        Backend {
            backend_type: BackendType::Rocm,
            capabilities: self.capabilities(),
            available: true,
            closed: false,
            in_flight: 0,
        }
    }
}

/// An Apple Metal device, described by its discovered working-set size.
pub struct MetalBackend {
    max_working_set: usize,
}

impl MetalBackend {
    /// Wraps a discovered device's recommended maximum working-set size.
    pub fn new(max_working_set: usize) -> (r: MetalBackend)
        ensures
            r.spec_max_working_set() == max_working_set as nat,
    {
        MetalBackend { max_working_set }
    }

    pub closed spec fn spec_max_working_set(&self) -> nat {
        self.max_working_set as nat
    }

    pub fn backend_type(&self) -> (r: BackendType)
        ensures
            r == BackendType::Metal,
    {
        BackendType::Metal
    }

    pub fn is_available(&self) -> (r: bool)
        ensures
            r,
    {
        true
    }

    /// Half and single precision with the neural engine; no doubles.
    pub open spec fn spec_capabilities(&self) -> BackendCapabilities {
        BackendCapabilities {
                max_memory: self.spec_max_working_set() as u64,
                max_threads: (1024 * 8) as usize,
                supports_float16: true,
                supports_float32: true,
                supports_float64: false,
                supports_int8: true,
                supports_tensor_ops: true,
                supports_async: true,
            }
    }

    pub fn capabilities(&self) -> (r: BackendCapabilities)
        ensures
            r == self.spec_capabilities(),
    {
        BackendCapabilities {
            max_memory: self.max_working_set as u64,
            max_threads: 1024 * 8,
            supports_float16: true,
            supports_float32: true,
            supports_float64: false,
            supports_int8: true,
            supports_tensor_ops: true,
            supports_async: true,
        }
    }

    /// 50 units, 15 ms.
    pub fn estimate_resources(&self, module_memory: usize) -> (r: ResourceEstimate)
        ensures
            r == (ResourceEstimate {
                memory_bytes: module_memory,
                compute_units: 50u64,
                estimated_time_ms: 15u64,
            }),
    {
        ResourceEstimate { memory_bytes: module_memory, compute_units: 50, estimated_time_ms: 15 }
    }

    pub fn descriptor(&self) -> (r: Backend)
        ensures
            r.backend_type == BackendType::Metal,
            r.available,
            !r.closed,
            r.in_flight == 0,
            r.capabilities == self.spec_capabilities(),
    {
        Backend {
            backend_type: BackendType::Metal,
            capabilities: self.capabilities(),
            available: true,
            closed: false,
            in_flight: 0,
        }
    }
}

/// A Vulkan compute device, described by its discovered limits.
pub struct VulkanBackend {
    max_memory_allocations: usize,
    max_workgroup_invocations: usize,
    shared_memory_size: usize,
}

impl VulkanBackend {
    /// Wraps a discovered device's limits: allocation count, compute
    /// work-group invocations, and shared-memory size.
    pub fn new(
        max_memory_allocations: usize,
        max_workgroup_invocations: usize,
        shared_memory_size: usize,
    ) -> (r: VulkanBackend)
        ensures
            r.spec_max_memory_allocations() == max_memory_allocations as nat,
            r.spec_max_workgroup_invocations() == max_workgroup_invocations as nat,
            r.spec_shared_memory_size() == shared_memory_size as nat,
    {
        VulkanBackend { max_memory_allocations, max_workgroup_invocations, shared_memory_size }
    }

    pub closed spec fn spec_max_memory_allocations(&self) -> nat {
        self.max_memory_allocations as nat
    }

    pub closed spec fn spec_max_workgroup_invocations(&self) -> nat {
        self.max_workgroup_invocations as nat
    }

    pub closed spec fn spec_shared_memory_size(&self) -> nat {
        self.shared_memory_size as nat
    }

    pub fn backend_type(&self) -> (r: BackendType)
        ensures
            r == BackendType::Vulkan,
    {
        BackendType::Vulkan
    }

    pub fn is_available(&self) -> (r: bool)
        ensures
            r,
    {
        true
    }

    /// Doubles only where the device reports shared memory.
    pub open spec fn spec_capabilities(&self) -> BackendCapabilities {
        BackendCapabilities {
                max_memory: self.spec_max_memory_allocations() as u64,
                max_threads: self.spec_max_workgroup_invocations() as usize,
                supports_float16: true,
                supports_float32: true,
                supports_float64: self.spec_shared_memory_size() > 0,
                supports_int8: true,
                supports_tensor_ops: false,
                supports_async: true,
            }
    }

    pub fn capabilities(&self) -> (r: BackendCapabilities)
        ensures
            r == self.spec_capabilities(),
    {
        BackendCapabilities {
            max_memory: self.max_memory_allocations as u64,
            max_threads: self.max_workgroup_invocations,
            supports_float16: true,
            supports_float32: true,
            supports_float64: self.shared_memory_size > 0,
            supports_int8: true,
            supports_tensor_ops: false,
            supports_async: true,
        }
    }

    /// 40 units, 20 ms.
    pub fn estimate_resources(&self, module_memory: usize) -> (r: ResourceEstimate)
        ensures
            r == (ResourceEstimate {
                memory_bytes: module_memory,
                compute_units: 40u64,
                estimated_time_ms: 20u64,
            }),
    {
        ResourceEstimate { memory_bytes: module_memory, compute_units: 40, estimated_time_ms: 20 }
    }

    pub fn descriptor(&self) -> (r: Backend)
        ensures
            r.backend_type == BackendType::Vulkan,
            r.available,
            !r.closed,
            r.in_flight == 0,
            r.capabilities == self.spec_capabilities(),
    {
        Backend {
            backend_type: BackendType::Vulkan,
            capabilities: self.capabilities(),
            available: true,
            closed: false,
            in_flight: 0,
        }
    }
}

/// The ledger-backed backend: sequential, integer-only, slow. It exists so
/// the scheduler can score it; the generic execute path must never reach
/// it, so routing it there is the `RouteMismatch` engine error.
pub struct Web3Backend {
    dummy: bool,
}

impl Web3Backend {
    pub fn new() -> (r: Web3Backend) {
        Web3Backend { dummy: false }
    }

    pub fn backend_type(&self) -> (r: BackendType)
        ensures
            r == BackendType::Ledger,
    {
        BackendType::Ledger
    }

    pub fn is_available(&self) -> (r: bool)
        ensures
            r,
    {
        true
    }

    /// Sequential execution, integer arithmetic only.
    pub open spec fn spec_capabilities(&self) -> BackendCapabilities {
        BackendCapabilities {
                max_memory: (1024 * 1024 * 1024) as u64,
                max_threads: 1usize,
                supports_float16: false,
                supports_float32: false,
                supports_float64: false,
                supports_int8: true,
                supports_tensor_ops: false,
                supports_async: true,
            }
    }

    pub fn capabilities(&self) -> (r: BackendCapabilities)
        ensures
            r == self.spec_capabilities(),
    {
        BackendCapabilities {
            max_memory: 1024 * 1024 * 1024,
            max_threads: 1,
            supports_float16: false,
            supports_float32: false,
            supports_float64: false,
            supports_int8: true,
            supports_tensor_ops: false,
            supports_async: true,
        }
    }

    /// Far below local compute: a fraction of a unit rounds to zero, and
    /// seconds of latency.
    pub fn estimate_resources(&self, module_memory: usize) -> (r: ResourceEstimate)
        ensures
            r == (ResourceEstimate {
                memory_bytes: module_memory,
                compute_units: 0u64,
                estimated_time_ms: 10000u64,
            }),
    {
        ResourceEstimate { memory_bytes: module_memory, compute_units: 0, estimated_time_ms: 10000 }
    }

    /// The generic execute path refuses ledger jobs: they are dispatched
    /// through the ledger client instead.
    pub fn execute(&self) -> (r: Result<Vec<u8>, crate::types::EngineError>)
        ensures
            r == Err::<Vec<u8>, crate::types::EngineError>(crate::types::EngineError::RouteMismatch),
    {
        Err(crate::types::EngineError::RouteMismatch)
    }

    pub fn descriptor(&self) -> (r: Backend)
        ensures
            r.backend_type == BackendType::Ledger,
            r.available,
            !r.closed,
            r.in_flight == 0,
            r.capabilities == self.spec_capabilities(),
    {
        Backend {
            backend_type: BackendType::Ledger,
            capabilities: self.capabilities(),
            available: true,
            closed: false,
            in_flight: 0,
        }
    }
}

} // verus!
