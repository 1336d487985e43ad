//! The engine facade: configuration, the backend registry, the pre-filter,
//! the memory pool and the metrics ring, tied together around a split
//! execution pipeline. The engine prepares a computation (pre-filter,
//! backend choice, input buffer) and finishes it (proof, metrics, result);
//! running the compiled module on the chosen backend happens outside, in
//! the caller's loop.

use vstd::prelude::*;
use crate::backends::Backend;
use crate::backends::CpuBackend;
use crate::memory::MemoryBuffer;
use crate::memory::MemoryPool;
use crate::prefilter::ConsciousnessLevel;
use crate::prefilter::WarpSpeedProcessor;
use crate::prefilter::spec_transform;
use crate::scheduler::AdaptiveScheduler;
use crate::scheduler::backend_usable;
use crate::scheduler::spec_backend_choice;
use crate::types::BackendType;
use crate::types::Computation;
use crate::types::ComputationResult;
use crate::types::EngineError;
use crate::types::SchedulingPolicy;
use crate::types::VerificationRequirement;
use crate::types::VerificationStrategy;
use crate::types::generate_bulletproof;
use crate::types::generate_zk_snark_proof;
use crate::types::generate_zk_stark_proof;

verus! {

/// Engine configuration.
#[derive(Debug, Clone)]
pub struct EngineConfig {
    /// Memory pool capacity in bytes.
    pub max_memory: usize,
    /// Register GPU backends when discovered.
    pub enable_gpu: bool,
    /// Register the ledger-side backends.
    pub enable_web3: bool,
    /// Register quantum backends.
    pub enable_quantum: bool,
    /// Run the pre-filter ahead of execution.
    pub enable_warp_speed: bool,
    /// The pre-filter's starting level.
    pub initial_consciousness: ConsciousnessLevel,
    /// The engine-wide verification stance.
    pub verification: VerificationStrategy,
    /// How backends are scored for jobs.
    pub scheduling_policy: SchedulingPolicy,
}

impl Default for EngineConfig {
    /// Sixteen gigabytes of pool, every optional stage on except quantum,
    /// optimistic verification, adaptive scheduling, and the pre-filter at
    /// its lowest level.
    fn default() -> (r: EngineConfig)
        ensures
            r.max_memory == 16usize * 1024 * 1024 * 1024 || r.max_memory == usize::MAX,
            r.enable_gpu,
            r.enable_web3,
            !r.enable_quantum,
            r.enable_warp_speed,
            r.initial_consciousness == ConsciousnessLevel::Alpha,
            r.verification == VerificationStrategy::Optimistic,
            r.scheduling_policy == SchedulingPolicy::Adaptive,
    {
        let max_memory: usize = if usize::BITS == 64 {
            (16u64 * 1024 * 1024 * 1024) as usize
        } else {
            usize::MAX
        };
        EngineConfig {
            max_memory,
            enable_gpu: true,
            enable_web3: true,
            enable_quantum: false,
            enable_warp_speed: true,
            initial_consciousness: ConsciousnessLevel::Alpha,
            verification: VerificationStrategy::Optimistic,
            scheduling_policy: SchedulingPolicy::Adaptive,
        }
    }
}

/// One recorded execution.
#[derive(Debug, Clone)]
pub struct ExecutionMetric {
    pub computation_id: String,
    pub backend: BackendType,
    pub execution_time_ms: u64,
}

/// The metrics ring: the most recent executions, capped, with running
/// totals for the statistics surface.
pub struct Metrics {
    executions: Vec<ExecutionMetric>,
    total_count: u64,
    total_time_ms: u64,
}

/// How many records the metrics ring keeps.
pub const METRICS_CAP: usize = 1024;

impl Metrics {
    pub closed spec fn spec_records(&self) -> Seq<ExecutionMetric> {
        self.executions@
    }

    pub closed spec fn spec_total_count(&self) -> u64 {
        self.total_count
    }

    pub closed spec fn spec_total_time_ms(&self) -> u64 {
        self.total_time_ms
    }

    /// An empty ring.
    pub fn new() -> (r: Metrics)
        ensures
            r.spec_records().len() == 0,
            r.spec_total_count() == 0,
            r.spec_total_time_ms() == 0,
    {
        Metrics { executions: Vec::new(), total_count: 0, total_time_ms: 0 }
    }

    /// Appends one record, dropping the oldest when the ring is full, and
    /// grows the totals (saturating at their type bounds).
    pub fn record_execution(&mut self, id: &str, backend: BackendType, time_ms: u64)
        ensures
            old(self).spec_records().len() < METRICS_CAP ==> final(self).spec_records().len() == old(
                self,
            ).spec_records().len() + 1 && final(self).spec_records().take(
                old(self).spec_records().len() as int,
            ) == old(self).spec_records(),
            old(self).spec_records().len() >= METRICS_CAP ==> final(self).spec_records().len()
                == old(self).spec_records().len() && final(self).spec_records().take(
                old(self).spec_records().len() as int - 1,
            ) == old(self).spec_records().skip(1),
            final(self).spec_records().last().computation_id@ == id@,
            final(self).spec_records().last().backend == backend,
            final(self).spec_records().last().execution_time_ms == time_ms,
            final(self).spec_total_count() == if old(self).spec_total_count() < u64::MAX {
                (old(self).spec_total_count() + 1) as u64
            } else {
                u64::MAX
            },
            final(self).spec_total_time_ms() == if old(self).spec_total_time_ms() <= u64::MAX
                - time_ms {
                (old(self).spec_total_time_ms() + time_ms) as u64
            } else {
                u64::MAX
            },
    {
        if self.executions.len() >= METRICS_CAP {
            let ghost before = self.executions@;
            self.executions.remove(0);
            proof {
                assert(self.executions@ =~= before.skip(1));
            }
        }
        let metric = ExecutionMetric {
            computation_id: id.to_owned(),
            backend,
            execution_time_ms: time_ms,
        };
        self.executions.push(metric);
        if self.total_count < u64::MAX {
            self.total_count = self.total_count + 1;
        }
        if self.total_time_ms <= u64::MAX - time_ms {
            self.total_time_ms = self.total_time_ms + time_ms;
        } else {
            self.total_time_ms = u64::MAX;
        }
        proof {
            assert(self.executions@.take(self.executions@.len() - 1) =~= self.executions@.drop_last());
        }
    }

    /// How many executions were ever recorded.
    pub fn total_computations(&self) -> (r: u64)
        ensures
            r == self.spec_total_count(),
    {
        self.total_count
    }

    /// The mean recorded wall time in milliseconds, zero when nothing was
    /// recorded.
    pub fn average_execution_time(&self) -> (r: u64)
        ensures
            self.spec_total_count() == 0 ==> r == 0,
            self.spec_total_count() > 0 ==> r == self.spec_total_time_ms() as int
                / self.spec_total_count() as int,
    {
        if self.total_count == 0 {
            0
        } else {
            self.total_time_ms / self.total_count
        }
    }
}

/// Engine statistics.
#[derive(Debug, Clone)]
pub struct EngineStats {
    pub backends: usize,
    pub memory_used: usize,
    pub memory_total: usize,
    pub computations_executed: u64,
    pub average_execution_time_ms: u64,
    pub warp_speed_enabled: bool,
}

/// A prepared execution: the chosen backend and the transformed input,
/// written into a pool buffer, waiting for the backend's run.
pub struct ExecutionPlan {
    pub backend_index: usize,
    pub backend_type: BackendType,
    pub input_buffer: MemoryBuffer,
}

/// The dispatcher engine: the registered backends, the adaptive scheduler,
/// the memory pool, the optional pre-filter, and the metrics ring.
pub struct ReassemblyEngine {
    backends: Vec<Backend>,
    memory_pool: MemoryPool,
    scheduler: AdaptiveScheduler,
    warp_processor: Option<WarpSpeedProcessor>,
    metrics: Metrics,
    config: EngineConfig,
}

impl ReassemblyEngine {
    pub closed spec fn spec_backends(&self) -> Seq<Backend> {
        self.backends@
    }

    pub closed spec fn spec_pool(&self) -> MemoryPool {
        self.memory_pool
    }

    pub closed spec fn spec_warp(&self) -> Option<WarpSpeedProcessor> {
        self.warp_processor
    }

    pub closed spec fn spec_metrics_count(&self) -> u64 {
        self.metrics.spec_total_count()
    }

    pub closed spec fn spec_metrics(&self) -> Metrics {
        self.metrics
    }

    pub closed spec fn spec_scheduler(&self) -> AdaptiveScheduler {
        self.scheduler
    }

    pub open spec fn wf(&self) -> bool {
        self.spec_pool().wf()
    }

    /// Whether the engine has backends and every one of them has been
    /// closed for shutdown; execute calls then fail with `BackendClosed`.
    pub open spec fn all_backends_closed(&self) -> bool {
        &&& self.spec_backends().len() > 0
        &&& forall|k: int|
            0 <= k < self.spec_backends().len() ==> (#[trigger] self.spec_backends()[k]).closed
    }

    /// A fresh engine under the given configuration: a pool of the
    /// configured capacity, the CPU backend registered (further backends
    /// join by registration as they are discovered), and the pre-filter
    /// installed at its starting level when enabled.
    pub fn new(config: EngineConfig) -> (r: Result<ReassemblyEngine, EngineError>)
        ensures
            r matches Ok(e) ==> {
                &&& e.wf()
                &&& e.spec_pool()@.total == config.max_memory as nat
                &&& e.spec_pool()@.allocated == 0
                &&& e.spec_backends().len() == 1
                &&& e.spec_backends()[0].backend_type == BackendType::Cpu
                &&& backend_usable(e.spec_backends()[0])
                &&& (e.spec_warp() is Some <==> config.enable_warp_speed)
                &&& (config.enable_warp_speed ==> e.spec_warp()->Some_0.spec_level()
                    == config.initial_consciousness)
                &&& e.spec_scheduler().spec_policy() == config.scheduling_policy
                &&& e.spec_scheduler().spec_cursor() == 0
                &&& e.spec_metrics_count() == 0
            },
            r is Ok,
    {
        let memory_pool = MemoryPool::new(config.max_memory);
        let cpu = match CpuBackend::new() {
            Ok(cpu) => cpu,
            Err(e) => {
                return Err(e);
            },
        };
        let mut backends: Vec<Backend> = Vec::new();
        backends.push(cpu.descriptor());
        let warp_processor = if config.enable_warp_speed {
            match WarpSpeedProcessor::new(config.initial_consciousness, config.enable_gpu) {
                Ok(p) => Some(p),
                Err(_) => None,
            }
        } else {
            None
        };
        let scheduler = AdaptiveScheduler::new(config.scheduling_policy);
        Ok(
            ReassemblyEngine {
                backends,
                memory_pool,
                scheduler,
                warp_processor,
                metrics: Metrics::new(),
                config,
            },
        )
    }

    /// Registers a discovered backend behind the CPU.
    pub fn register_backend(&mut self, backend: Backend)
        requires
            old(self).wf(),
        ensures
            final(self).wf(),
            final(self).spec_backends() == old(self).spec_backends().push(backend),
            final(self).spec_pool() == old(self).spec_pool(),
    {
        self.backends.push(backend);
    }

    /// How many backends are registered.
    pub fn backend_count(&self) -> (r: usize)
        ensures
            r as nat == self.spec_backends().len(),
    {
        self.backends.len()
    }

    /// Prepares a computation for execution: the input runs through the
    /// pre-filter when one is installed, the scheduler picks a usable
    /// backend (hints first, then the configured policy), and the
    /// transformed input is written into a pool buffer of exactly its
    /// size, entering the pool's live account. Succeeds exactly when the
    /// scheduler names a backend and the pool has room; otherwise it fails
    /// with `BackendClosed` after a shutdown (every backend closed),
    /// `BackendUnavailable` when no backend qualifies, or `Capacity` when
    /// the pool cannot grant the buffer — and a failure changes no pool
    /// state.
    pub fn prepare_execution(&mut self, computation: &Computation) -> (r: Result<
        ExecutionPlan,
        EngineError,
    >)
        requires
            old(self).wf(),
        ensures
            final(self).wf(),
            final(self).spec_backends() == old(self).spec_backends(),
            final(self).spec_warp() == old(self).spec_warp(),
            final(self).spec_pool()@.total == old(self).spec_pool()@.total,
            ({
                let prepared = spec_prepared_input(old(self).spec_warp(), computation.input@);
                let choice = spec_backend_choice(
                    old(self).spec_scheduler(),
                    old(self).spec_backends(),
                    computation.backend_hints@,
                    prepared.len(),
                );
                &&& (choice is None && old(self).all_backends_closed() ==> r == Err::<
                    ExecutionPlan,
                    EngineError,
                >(EngineError::BackendClosed))
                &&& (choice is None && !old(self).all_backends_closed() ==> r == Err::<
                    ExecutionPlan,
                    EngineError,
                >(EngineError::BackendUnavailable))
                &&& (choice is Some ==> {
                    &&& (old(self).spec_pool()@.allocated + prepared.len() > old(
                        self,
                    ).spec_pool()@.total ==> r == Err::<ExecutionPlan, EngineError>(
                        EngineError::Capacity,
                    ))
                    &&& (old(self).spec_pool()@.allocated + prepared.len() <= old(
                        self,
                    ).spec_pool()@.total ==> (r matches Ok(plan) && {
                        &&& plan.backend_index == (choice->Some_0 as usize)
                        &&& (plan.backend_index as int) < old(self).spec_backends().len()
                        &&& backend_usable(old(self).spec_backends()[plan.backend_index as int])
                        &&& plan.backend_type == old(self).spec_backends()[
                            plan.backend_index as int
                        ].backend_type
                        &&& plan.input_buffer.wf()
                        &&& !plan.input_buffer@.gpu_locked
                        &&& plan.input_buffer@.size == prepared.len()
                        &&& plan.input_buffer@.alloc_size == prepared.len()
                        &&& plan.input_buffer@.data.take(plan.input_buffer@.size as int)
                            == prepared
                        &&& final(self).spec_pool()@.allocated == old(self).spec_pool()@.allocated
                            + prepared.len()
                        &&& final(self).spec_pool()@.live == old(self).spec_pool()@.live.push(
                            prepared.len(),
                        )
                        &&& final(self).spec_pool()@.live.contains(
                            plan.input_buffer@.alloc_size as nat,
                        )
                    }))
                })
                &&& (r is Err ==> final(self).spec_pool()@.allocated == old(
                    self,
                ).spec_pool()@.allocated && final(self).spec_pool()@.live == old(
                    self,
                ).spec_pool()@.live)
            }),
    {
        // Pre-filter: deterministic transform at the current level.
        let enhanced: Vec<u8> = match &mut self.warp_processor {
            Some(processor) => {
                let level = processor.level();
                crate::prefilter::apply_consciousness_transform(&computation.input, level)
            },
            None => crate::verification::clone_bytes(&computation.input),
        };
        // Backend choice: hints first, then policy scoring.
        let choice = self.scheduler.select_for(
            &self.backends,
            &computation.backend_hints,
            enhanced.len(),
        );
        let index = match choice {
            Ok(i) => i,
            Err(_) => {
                if self.backends_all_closed() {
                    return Err(EngineError::BackendClosed);
                }
                return Err(EngineError::BackendUnavailable);
            },
        };
        let backend_type = self.backends[index].backend_type();
        // Input buffer of exactly the transformed size.
        let mut buffer = match self.memory_pool.allocate(enhanced.len()) {
            Ok(b) => b,
            Err(_) => {
                return Err(EngineError::Capacity);
            },
        };
        // The buffer was granted with at least the transformed size and is
        // unlocked, so the write cannot be refused.
        match buffer.write(&enhanced) {
            Ok(()) => {},
            Err(_) => {
                proof {
                    assert(false);
                }
            },
        }
        proof {
            let live = self.spec_pool()@.live;
            assert(live.last() == enhanced@.len());
            assert(live.contains(enhanced@.len() as nat));
        }
        Ok(ExecutionPlan { backend_index: index, backend_type, input_buffer: buffer })
    }

    /// Whether every registered backend is closed (and one is registered).
    fn backends_all_closed(&self) -> (r: bool)
        ensures
            r == self.all_backends_closed(),
    {
        if self.backends.len() == 0 {
            return false;
        }
        let mut i: usize = 0;
        while i < self.backends.len()
            invariant
                i <= self.backends@.len(),
                forall|k: int| 0 <= k < i ==> (#[trigger] self.backends@[k]).closed,
            decreases self.backends@.len() - i,
        {
            if !self.backends[i].closed {
                return false;
            }
            i += 1;
        }
        true
    }

    /// Finishes an execution: the input buffer returns to the pool, the
    /// requested proof strategy runs over the output, the metrics ring
    /// records the run, and the result carries the output, the backend and
    /// the wall time.
    pub fn complete_execution(
        &mut self,
        computation: &Computation,
        plan: ExecutionPlan,
        output: Vec<u8>,
        execution_time_ms: u64,
    ) -> (r: Result<ComputationResult, EngineError>)
        requires
            old(self).wf(),
            old(self).spec_pool()@.live.contains(plan.input_buffer@.alloc_size),
        ensures
            final(self).wf(),
            final(self).spec_backends() == old(self).spec_backends(),
            final(self).spec_warp() == old(self).spec_warp(),
            final(self).spec_pool()@.total == old(self).spec_pool()@.total,
            final(self).spec_pool()@.allocated == old(self).spec_pool()@.allocated
                - plan.input_buffer@.alloc_size,
            exists|i: int|
                0 <= i < old(self).spec_pool()@.live.len() && old(self).spec_pool()@.live[i]
                    == plan.input_buffer@.alloc_size
                    && final(self).spec_pool()@.live == old(self).spec_pool()@.live.remove(i),
            r is Ok ==> final(self).spec_metrics().spec_total_count() == (
            if old(self).spec_metrics().spec_total_count() < u64::MAX {
                (old(self).spec_metrics().spec_total_count() + 1) as u64
            } else {
                u64::MAX
            }),
            r is Ok ==> final(self).spec_metrics().spec_records().last().computation_id@
                == computation.id@ && final(self).spec_metrics().spec_records().last().backend
                == plan.backend_type
                && final(self).spec_metrics().spec_records().last().execution_time_ms
                == execution_time_ms,
            r matches Ok(res) ==> {
                &&& res.id@ == computation.id@
                &&& res.output@ == output@
                &&& res.backend == plan.backend_type
                &&& res.execution_time_ms == execution_time_ms
                &&& res.gas_used is None
                &&& match computation.verification {
                    None => res.proof is None,
                    Some(req) => res.proof matches Some(p) && p@ == spec_proof_bytes(req),
                }
            },
            r is Ok,
    {
        self.memory_pool.free(plan.input_buffer);
        let proof_bytes: Option<Vec<u8>> = match &computation.verification {
            Some(req) => {
                match self.generate_proof(computation, &output, *req) {
                    Ok(p) => Some(p),
                    Err(e) => {
                        return Err(e);
                    },
                }
            },
            None => None,
        };
        self.metrics.record_execution(
            computation.id.as_str(),
            plan.backend_type,
            execution_time_ms,
        );
        Ok(
            ComputationResult {
                id: computation.id.clone(),
                output,
                backend: plan.backend_type,
                execution_time_ms,
                proof: proof_bytes,
                gas_used: None,
            },
        )
    }

    /// Releases a prepared execution's input buffer without finishing the
    /// job: the grant leaves the pool's live account and nothing is
    /// recorded. For runs the backend never completed.
    pub fn abandon_execution(&mut self, plan: ExecutionPlan)
        requires
            old(self).wf(),
            old(self).spec_pool()@.live.contains(plan.input_buffer@.alloc_size),
        ensures
            final(self).wf(),
            final(self).spec_backends() == old(self).spec_backends(),
            final(self).spec_warp() == old(self).spec_warp(),
            final(self).spec_metrics() == old(self).spec_metrics(),
            final(self).spec_pool()@.total == old(self).spec_pool()@.total,
            final(self).spec_pool()@.allocated == old(self).spec_pool()@.allocated
                - plan.input_buffer@.alloc_size,
            exists|i: int|
                0 <= i < old(self).spec_pool()@.live.len() && old(self).spec_pool()@.live[i]
                    == plan.input_buffer@.alloc_size
                    && final(self).spec_pool()@.live == old(self).spec_pool()@.live.remove(i),
    {
        self.memory_pool.free(plan.input_buffer);
    }

    /// Runs the requested proof strategy over an output: the pluggable
    /// placeholder strategies, or nothing for optimistic verification.
    pub fn generate_proof(
        &self,
        computation: &Computation,
        output: &Vec<u8>,
        requirement: VerificationRequirement,
    ) -> (r: Result<Vec<u8>, EngineError>)
        ensures
            r matches Ok(p) && p@ == spec_proof_bytes(requirement),
    {
        match requirement {
            VerificationRequirement::ZkSnark => generate_zk_snark_proof(computation, output),
            VerificationRequirement::ZkStark => generate_zk_stark_proof(computation, output),
            VerificationRequirement::Bulletproof => generate_bulletproof(computation, output),
            VerificationRequirement::Optimistic => Ok(Vec::new()),
        }
    }

    /// Elevates the pre-filter's level; fails when the pre-filter stage is
    /// not enabled.
    pub fn elevate_consciousness(&mut self, level: ConsciousnessLevel) -> (r: Result<
        (),
        EngineError,
    >)
        ensures
            final(self).spec_backends() == old(self).spec_backends(),
            final(self).spec_pool() == old(self).spec_pool(),
            old(self).spec_warp() is None ==> r == Err::<(), EngineError>(
                EngineError::BackendUnavailable,
            ) && final(self).spec_warp() is None,
            old(self).spec_warp() is Some ==> r is Ok && final(self).spec_warp() is Some && ({
                let before = old(self).spec_warp()->Some_0;
                let after = final(self).spec_warp()->Some_0;
                &&& (crate::prefilter::level_rank(level) <= crate::prefilter::level_rank(
                    before.spec_level(),
                ) ==> after.spec_level() == before.spec_level())
                &&& (crate::prefilter::level_rank(level) > crate::prefilter::level_rank(
                    before.spec_level(),
                ) ==> after.spec_level() == level)
            }),
    {
        match &mut self.warp_processor {
            Some(processor) => {
                let _ = processor.elevate_to(level);
                Ok(())
            },
            None => Err(EngineError::BackendUnavailable),
        }
    }

    /// The engine's statistics: backend count, pool usage, execution
    /// totals and whether the pre-filter is on.
    pub fn get_stats(&self) -> (r: EngineStats)
        ensures
            r.backends as nat == self.spec_backends().len(),
            r.memory_used as nat == self.spec_pool()@.allocated,
            r.memory_total as nat == self.spec_pool()@.total,
            r.computations_executed == self.spec_metrics_count(),
            r.average_execution_time_ms == (if self.spec_metrics().spec_total_count() == 0 {
                0int
            } else {
                self.spec_metrics().spec_total_time_ms() as int
                    / self.spec_metrics().spec_total_count() as int
            }),
            r.warp_speed_enabled == (self.spec_warp() is Some),
    {
        EngineStats {
            backends: self.backends.len(),
            memory_used: self.memory_pool.used(),
            memory_total: self.memory_pool.total(),
            computations_executed: self.metrics.total_computations(),
            average_execution_time_ms: self.metrics.average_execution_time(),
            warp_speed_enabled: match &self.warp_processor {
                Some(_) => true,
                None => false,
            },
        }
    }

    /// Quiesces the engine: every backend is closed and the pool cleared.
    /// Any execution prepared afterwards fails with `BackendClosed`.
    pub fn shutdown(&mut self) -> (r: Result<(), EngineError>)
        ensures
            r is Ok,
            final(self).wf(),
            final(self).spec_pool()@.allocated == 0,
            final(self).spec_backends().len() == old(self).spec_backends().len(),
            forall|k: int|
                0 <= k < old(self).spec_backends().len() ==> final(self).spec_backends()[k] == (
                Backend { closed: true, ..old(self).spec_backends()[k] }),
    {
        let mut i: usize = 0;
        while i < self.backends.len()
            invariant
                i <= self.backends@.len(),
                self.backends@.len() == old(self).spec_backends().len(),
                self.memory_pool == old(self).spec_pool(),
                forall|k: int|
                    0 <= k < i ==> self.backends@[k] == (Backend {
                        closed: true,
                        ..old(self).spec_backends()[k]
                    }),
                forall|k: int|
                    i <= k < self.backends@.len() ==> self.backends@[k] == old(
                        self,
                    ).spec_backends()[k],
            decreases self.backends@.len() - i,
        {
            let b = self.backends[i];
            self.backends.set(i, Backend { closed: true, ..b });
            i += 1;
        }
        self.memory_pool.clear();
        Ok(())
    }
}

/// What the pre-filter leaves of a computation's input: transformed at the
/// installed processor's level, or untouched without one.
pub open spec fn spec_prepared_input(warp: Option<WarpSpeedProcessor>, input: Seq<u8>) -> Seq<
    u8,
> {
    match warp {
        Some(p) => spec_transform(input, p.spec_level()),
        None => input,
    }
}

/// The bytes each proof strategy yields.
pub open spec fn spec_proof_bytes(req: VerificationRequirement) -> Seq<u8> {
    match req {
        VerificationRequirement::ZkSnark => Seq::new(256, |i: int| 0u8),
        VerificationRequirement::ZkStark => Seq::new(512, |i: int| 0u8),
        VerificationRequirement::Bulletproof => Seq::new(128, |i: int| 0u8),
        VerificationRequirement::Optimistic => Seq::empty(),
    }
}

/// An engine under the default configuration: a sixteen-gigabyte pool
/// (the whole address space on a narrower machine), the CPU registered,
/// the pre-filter installed at its lowest level, and adaptive scheduling.
pub fn create_engine() -> (r: Result<ReassemblyEngine, EngineError>)
    ensures
        r is Ok,
        r matches Ok(e) ==> {
            &&& e.wf()
            &&& e.spec_pool()@.allocated == 0
            &&& (e.spec_pool()@.total == (16usize * 1024 * 1024 * 1024) as nat || e.spec_pool()@.total
                == usize::MAX as nat)
            &&& e.spec_backends().len() == 1
            &&& e.spec_backends()[0].backend_type == BackendType::Cpu
            &&& backend_usable(e.spec_backends()[0])
            &&& e.spec_warp() is Some
            &&& e.spec_warp()->Some_0.spec_level() == ConsciousnessLevel::Alpha
            &&& e.spec_scheduler().spec_policy() == SchedulingPolicy::Adaptive
            &&& e.spec_metrics_count() == 0
        },
{
    ReassemblyEngine::new(EngineConfig::default())
}

/// An engine under a custom configuration: the pool, pre-filter and
/// scheduling policy are exactly the configuration's.
pub fn create_engine_with_config(config: EngineConfig) -> (r: Result<ReassemblyEngine, EngineError>)
    ensures
        r is Ok,
        r matches Ok(e) ==> {
            &&& e.wf()
            &&& e.spec_pool()@.total == config.max_memory as nat
            &&& e.spec_pool()@.allocated == 0
            &&& e.spec_backends().len() == 1
            &&& e.spec_backends()[0].backend_type == BackendType::Cpu
            &&& backend_usable(e.spec_backends()[0])
            &&& (e.spec_warp() is Some <==> config.enable_warp_speed)
            &&& (config.enable_warp_speed ==> e.spec_warp()->Some_0.spec_level()
                == config.initial_consciousness)
            &&& e.spec_scheduler().spec_policy() == config.scheduling_policy
            &&& e.spec_metrics_count() == 0
        },
{
    ReassemblyEngine::new(config)
}


} // verus!
