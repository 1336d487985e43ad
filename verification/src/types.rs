//! Common types of the dispatcher: backend tags, policies, requests and
//! results, the error taxonomy, and the placeholder proof generators of the
//! pluggable proof strategies.

use vstd::prelude::*;

verus! {

/// The closed set of compute backend tags.
#[derive(Debug, Clone, Copy, PartialEq, Eq, Structural, Hash)]
pub enum BackendType {
    Cpu,
    Cuda,
    Rocm,
    Metal,
    Vulkan,
    OpenCL,
    /// The decentralized GPU marketplace aggregator.
    RemoteGpu,
    /// The on-chain ledger; scored by the scheduler but dispatched through
    /// the ledger client, never through the generic execute path.
    Ledger,
    Quantum,
}

/// Which proof a computation asks for alongside its result.
#[derive(Debug, Clone, Copy, PartialEq, Eq, Structural)]
pub enum VerificationRequirement {
    /// zk-SNARK proof.
    ZkSnark,
    /// zk-STARK proof.
    ZkStark,
    /// Bulletproof.
    Bulletproof,
    /// Optimistic: no proof needed.
    Optimistic,
}

/// The engine-wide verification stance.
#[derive(Debug, Clone, Copy, PartialEq, Eq, Structural)]
pub enum VerificationStrategy {
    /// Always verify.
    Always,
    /// Verify randomly.
    Random,
    /// Verify only on challenge.
    Optimistic,
    /// Never verify.
    Never,
}

/// How the scheduler scores backends for a job.
#[derive(Debug, Clone, Copy, PartialEq, Eq, Structural)]
pub enum SchedulingPolicy {
    /// Rotate through the available backends.
    RoundRobin,
    /// Prefer the backend with the fewest jobs in flight.
    LeastLoaded,
    /// Prefer the backend with the highest fixed speed rank.
    Fastest,
    /// Prefer GPUs for large inputs, the CPU for small ones.
    Adaptive,
    /// Prefer the cheapest backend.
    CostOptimized,
}

/// The error taxonomy of the dispatcher.
#[derive(Debug, Clone, PartialEq, Eq)]
pub enum EngineError {
    /// Pool exhaustion or a buffer overflow on write.
    Capacity,
    /// Double GPU-lock or double pin.
    Concurrency,
    /// A backend-internal failure during execute, with the backend's tag
    /// and message.
    Backend(BackendType, String),
    /// No backend satisfies the scheduler under the current policy and
    /// hints.
    BackendUnavailable,
    /// A call after shutdown.
    BackendClosed,
    /// A generic execute was invoked on the ledger backend.
    RouteMismatch,
    /// Compile or validation failed on the provided program bytes.
    Module,
    /// The job exceeded its wall-time budget.
    Timeout,
    /// External cancellation.
    Cancelled,
    /// A commitment or proof mismatch.
    Verify,
    /// A remote GPU provider failure.
    Provider,
    /// A predecessor ended in a non-completed terminal state.
    DependencyFailed,
}

/// Resource constraints a computation carries; advisory bounds checked by
/// the orchestrator.
#[derive(Debug, Clone)]
pub struct ResourceConstraints {
    pub max_memory: usize,
    pub max_time_ms: u64,
    pub max_gas: Option<u64>,
}

/// A self-contained computation request: a portable program, an input
/// blob, routing hints and constraints. Created once and never mutated.
#[derive(Debug, Clone)]
pub struct Computation {
    pub id: String,
    pub wasm_module: Vec<u8>,
    pub input: Vec<u8>,
    pub backend_hints: Vec<BackendType>,
    pub verification: Option<VerificationRequirement>,
    pub constraints: ResourceConstraints,
}

/// The outcome of a computation: the output bytes, where and how long it
/// ran, and an optional proof.
#[derive(Debug, Clone)]
pub struct ComputationResult {
    pub id: String,
    pub output: Vec<u8>,
    pub backend: BackendType,
    pub execution_time_ms: u64,
    pub proof: Option<Vec<u8>>,
    pub gas_used: Option<u64>,
}

/// A vector of `n` zero bytes.
pub fn zero_bytes(n: usize) -> (r: Vec<u8>)
    ensures
        r@ == Seq::new(n as nat, |i: int| 0u8),
{
    let mut out: Vec<u8> = Vec::new();
    while out.len() < n
        invariant
            out@.len() <= n as nat,
            forall|i: int| 0 <= i < out@.len() ==> out@[i] == 0u8,
        decreases n - out.len(),
    {
        out.push(0u8);
    }
    proof {
        assert(out@ =~= Seq::new(n as nat, |i: int| 0u8));
    }
    out
}

/// The zk-SNARK strategy placeholder: 256 zero bytes, until a concrete
/// proof system is plugged in.
pub fn generate_zk_snark_proof(_computation: &Computation, _output: &Vec<u8>) -> (r: Result<
    Vec<u8>,
    EngineError,
>)
    ensures
        r matches Ok(v) && v@ == Seq::new(256, |i: int| 0u8),
{
    Ok(zero_bytes(256))
}

/// The zk-STARK strategy placeholder: 512 zero bytes.
pub fn generate_zk_stark_proof(_computation: &Computation, _output: &Vec<u8>) -> (r: Result<
    Vec<u8>,
    EngineError,
>)
    ensures
        r matches Ok(v) && v@ == Seq::new(512, |i: int| 0u8),
{
    Ok(zero_bytes(512))
}

/// The bulletproof strategy placeholder: 128 zero bytes.
pub fn generate_bulletproof(_computation: &Computation, _output: &Vec<u8>) -> (r: Result<
    Vec<u8>,
    EngineError,
>)
    ensures
        r matches Ok(v) && v@ == Seq::new(128, |i: int| 0u8),
{
    Ok(zero_bytes(128))
}

} // verus!
