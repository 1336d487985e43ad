//! Task scheduling: the four-band priority queue with dependency gating,
//! the adaptive backend-selection policies, and the task orchestrator that
//! drives jobs from submission to a terminal state.

use std::collections::HashMap;
use std::collections::VecDeque;
use vstd::prelude::*;
use crate::backends::Backend;
use crate::types::BackendType;
use crate::types::EngineError;
use crate::types::SchedulingPolicy;

verus! {

// ───────────────────────── tasks ─────────────────────────

/// Unique task identifier within one orchestrator instance.
#[derive(Debug, Clone, Copy, Hash, Eq, PartialEq, Structural)]
pub struct TaskId(pub u64);

/// Task priority bands, lowest first.
#[derive(Debug, Clone, Copy, PartialEq, Eq, PartialOrd, Ord, Structural, Hash)]
pub enum Priority {
    Low,
    Normal,
    High,
    Critical,
}

/// The numeric rank of a band: Critical outranks High outranks Normal
/// outranks Low.
pub open spec fn priority_rank(p: Priority) -> int {
    match p {
        Priority::Low => 0,
        Priority::Normal => 1,
        Priority::High => 2,
        Priority::Critical => 3,
    }
}

/// The lifecycle of a task. Pending moves to Scheduled, then Running, then
/// exactly one of the terminal states; terminal states never change.
#[derive(Debug, Clone, PartialEq)]
pub enum TaskStatus {
    Pending,
    Scheduled,
    Running,
    Completed(Vec<u8>),
    Failed(String),
    Cancelled,
}

/// Whether a status is terminal.
pub open spec fn is_terminal(s: TaskStatus) -> bool {
    ||| s is Completed
    ||| s is Failed
    ||| s is Cancelled
}

/// Two statuses carrying the same state and payload bytes.
pub open spec fn status_eq(a: TaskStatus, b: TaskStatus) -> bool {
    match (a, b) {
        (TaskStatus::Pending, TaskStatus::Pending) => true,
        (TaskStatus::Scheduled, TaskStatus::Scheduled) => true,
        (TaskStatus::Running, TaskStatus::Running) => true,
        (TaskStatus::Completed(x), TaskStatus::Completed(y)) => x@ == y@,
        (TaskStatus::Failed(x), TaskStatus::Failed(y)) => x@ == y@,
        (TaskStatus::Cancelled, TaskStatus::Cancelled) => true,
        _ => false,
    }
}

/// A compute task: an immutable request plus its current status. The id and
/// creation stamp are assigned at submission.
#[derive(Debug, Clone)]
pub struct Task {
    pub id: TaskId,
    pub priority: Priority,
    pub payload: Vec<u8>,
    pub backend_hint: Option<BackendType>,
    pub max_retries: u32,
    pub timeout_ms: Option<u64>,
    pub dependencies: Vec<TaskId>,
    pub created_at: u64,
    pub status: TaskStatus,
}

impl Task {
    /// A fresh task around a payload: Normal priority, three retries, a
    /// five-minute timeout, no hint and no dependencies. The orchestrator
    /// assigns the id and creation stamp at submission.
    pub fn new(payload: Vec<u8>) -> (r: Task)
        ensures
            r.id == (TaskId(0)),
            r.priority == Priority::Normal,
            r.payload == payload,
            r.backend_hint is None,
            r.max_retries == 3,
            r.timeout_ms == Some(300000u64),
            r.dependencies@.len() == 0,
            r.created_at == 0,
            r.status == TaskStatus::Pending,
    {
        Task {
            id: TaskId(0),
            priority: Priority::Normal,
            payload,
            backend_hint: None,
            max_retries: 3,
            timeout_ms: Some(300000),
            dependencies: Vec::new(),
            created_at: 0,
            status: TaskStatus::Pending,
        }
    }

    /// The same task in the given priority band.
    pub fn with_priority(self, priority: Priority) -> (r: Task)
        ensures
            r == (Task { priority, ..self }),
    {
        Task { priority, ..self }
    }

    /// The same task with a backend hint.
    pub fn with_backend(self, backend: BackendType) -> (r: Task)
        ensures
            r == (Task { backend_hint: Some(backend), ..self }),
    {
        Task { backend_hint: Some(backend), ..self }
    }

    /// The same task gated on the given dependencies.
    pub fn with_dependencies(self, deps: Vec<TaskId>) -> (r: Task)
        ensures
            r == (Task { dependencies: deps, ..self }),
    {
        Task { dependencies: deps, ..self }
    }
}

// ───────────────────────── priority queues ─────────────────────────

/// Four FIFO bands, one per priority. Pop serves the front of the highest
/// non-empty band, so across bands strict priority holds and within a band
/// submission order is kept.
pub struct PriorityQueues {
    critical: VecDeque<Task>,
    high: VecDeque<Task>,
    normal: VecDeque<Task>,
    low: VecDeque<Task>,
}

impl PriorityQueues {
    pub closed spec fn spec_band(&self, p: Priority) -> Seq<Task> {
        match p {
            Priority::Critical => self.critical@,
            Priority::High => self.high@,
            Priority::Normal => self.normal@,
            Priority::Low => self.low@,
        }
    }

    /// Whether every band is empty.
    pub open spec fn spec_is_empty(&self) -> bool {
        &&& self.spec_band(Priority::Critical).len() == 0
        &&& self.spec_band(Priority::High).len() == 0
        &&& self.spec_band(Priority::Normal).len() == 0
        &&& self.spec_band(Priority::Low).len() == 0
    }

    /// Whether a task sits in some band.
    pub open spec fn spec_queued(&self, t: Task) -> bool {
        ||| self.spec_band(Priority::Critical).contains(t)
        ||| self.spec_band(Priority::High).contains(t)
        ||| self.spec_band(Priority::Normal).contains(t)
        ||| self.spec_band(Priority::Low).contains(t)
    }

    /// The band pop serves: the highest non-empty one.
    pub open spec fn spec_top_band(&self) -> Priority {
        if self.spec_band(Priority::Critical).len() > 0 {
            Priority::Critical
        } else if self.spec_band(Priority::High).len() > 0 {
            Priority::High
        } else if self.spec_band(Priority::Normal).len() > 0 {
            Priority::Normal
        } else {
            Priority::Low
        }
    }

    /// Empty bands.
    pub fn new() -> (r: PriorityQueues)
        ensures
            r.spec_is_empty(),
    {
        PriorityQueues {
            critical: VecDeque::new(),
            high: VecDeque::new(),
            normal: VecDeque::new(),
            low: VecDeque::new(),
        }
    }

    /// Appends the task to the tail of its priority's band; other bands are
    /// untouched.
    pub fn push(&mut self, task: Task)
        ensures
            final(self).spec_band(task.priority) == old(self).spec_band(task.priority).push(task),
            forall|p: Priority|
                p != task.priority ==> final(self).spec_band(p) == old(self).spec_band(p),
    {
        let ghost pr = task.priority;
        match task.priority {
            Priority::Critical => self.critical.push_back(task),
            Priority::High => self.high.push_back(task),
            Priority::Normal => self.normal.push_back(task),
            Priority::Low => self.low.push_back(task),
        }
        proof {
            assert forall|p: Priority| p != pr implies final(self).spec_band(p) == old(
                self,
            ).spec_band(p) by {}
        }
    }

    /// Removes and returns the front of the highest non-empty band, or
    /// nothing when all bands are empty. The served task outranks or equals
    /// every queued task and is the earliest submission in its band.
    pub fn pop(&mut self) -> (r: Option<Task>)
        ensures
            old(self).spec_is_empty() ==> r is None && forall|p: Priority|
                final(self).spec_band(p) == old(self).spec_band(p),
            !old(self).spec_is_empty() ==> {
                let band = old(self).spec_top_band();
                &&& r == Some(old(self).spec_band(band)[0])
                &&& final(self).spec_band(band) == old(self).spec_band(band).skip(1)
                &&& forall|p: Priority|
                    p != band ==> final(self).spec_band(p) == old(self).spec_band(p)
            },
    {
        if let Some(t) = self.critical.pop_front() {
            return Some(t);
        }
        if let Some(t) = self.high.pop_front() {
            return Some(t);
        }
        if let Some(t) = self.normal.pop_front() {
            return Some(t);
        }
        if let Some(t) = self.low.pop_front() {
            return Some(t);
        }
        None
    }

    /// Whether every band is empty.
    pub fn is_empty(&self) -> (r: bool)
        ensures
            r == self.spec_is_empty(),
    {
        self.critical.len() == 0 && self.high.len() == 0 && self.normal.len() == 0
            && self.low.len() == 0
    }

    /// Priority ordering: whatever pop returns outranks or ties every task
    /// still queued, and it is the head of its own band, so with a single
    /// worker and no dependencies completion follows bands strictly and is
    /// first-in-first-out within a band.
    pub proof fn lemma_pop_respects_priority(&self, t: Task, u: Task)
        requires
            !self.spec_is_empty(),
            t == self.spec_band(self.spec_top_band())[0],
            self.spec_queued(u),
            forall|p: Priority, i: int|
                0 <= i < self.spec_band(p).len() ==> (#[trigger] self.spec_band(p)[i]).priority
                    == p,
        ensures
            priority_rank(u.priority) <= priority_rank(self.spec_top_band()),
            t.priority == self.spec_top_band(),
    {
    }
}

// ───────────────────────── policy scoring ─────────────────────────

/// A backend the scheduler may pick: discovered as available and not
/// closed.
pub open spec fn backend_usable(b: Backend) -> bool {
    b.available && !b.closed
}

/// The fixed speed rank of the Fastest policy.
pub open spec fn fastest_rank(tag: BackendType) -> int {
    match tag {
        BackendType::Quantum => 15,
        BackendType::Cuda => 10,
        BackendType::Rocm => 9,
        BackendType::Metal => 8,
        BackendType::Vulkan => 7,
        BackendType::OpenCL => 6,
        BackendType::Ledger => 5,
        BackendType::RemoteGpu => 4,
        BackendType::Cpu => 3,
    }
}

/// The inverse cost rank of the CostOptimized policy.
pub open spec fn cost_rank(tag: BackendType) -> int {
    match tag {
        BackendType::Cpu => 10,
        BackendType::RemoteGpu => 8,
        BackendType::Ledger => 1,
        _ => 5,
    }
}

/// The workload threshold above which the Adaptive policy prefers GPUs:
/// 100 MiB of input.
pub const ADAPTIVE_GPU_THRESHOLD: usize = 100 * 1024 * 1024;

/// The Adaptive policy's rank: large inputs favor the discrete GPU tags,
/// small ones the CPU.
pub open spec fn adaptive_rank(tag: BackendType, input_len: nat) -> int {
    if input_len > ADAPTIVE_GPU_THRESHOLD {
        match tag {
            BackendType::Cuda => 10,
            BackendType::Rocm => 10,
            BackendType::Metal => 10,
            _ => 3,
        }
    } else {
        match tag {
            BackendType::Cpu => 8,
            _ => 5,
        }
    }
}

/// The score a policy gives a backend for a job with `input_len` input
/// bytes. LeastLoaded orders backends by fewest jobs in flight (the
/// negated load orders exactly as the reciprocal 1/(1+load) does);
/// RoundRobin scores every backend alike and rotates a cursor instead.
pub open spec fn policy_score(policy: SchedulingPolicy, b: Backend, input_len: nat) -> int {
    match policy {
        SchedulingPolicy::RoundRobin => 1,
        SchedulingPolicy::LeastLoaded => -(b.in_flight as int),
        SchedulingPolicy::Fastest => fastest_rank(b.backend_type),
        SchedulingPolicy::Adaptive => adaptive_rank(b.backend_type, input_len),
        SchedulingPolicy::CostOptimized => cost_rank(b.backend_type),
    }
}

/// The policy choice among the first `n` backends: the usable backend with
/// the highest score, earliest registration first on ties.
pub open spec fn best_upto(
    backends: Seq<Backend>,
    policy: SchedulingPolicy,
    input_len: nat,
    n: int,
) -> Option<int>
    decreases n,
{
    if n <= 0 || n > backends.len() {
        None
    } else {
        let prev = best_upto(backends, policy, input_len, n - 1);
        if !backend_usable(backends[n - 1]) {
            prev
        } else {
            match prev {
                None => Some(n - 1),
                Some(j) => if policy_score(policy, backends[n - 1], input_len) > policy_score(
                    policy,
                    backends[j],
                    input_len,
                ) {
                    Some(n - 1)
                } else {
                    Some(j)
                },
            }
        }
    }
}

/// The first usable backend with an index in `[lo, hi)`.
pub open spec fn first_usable_in(backends: Seq<Backend>, lo: int, hi: int) -> Option<int>
    decreases hi - lo,
{
    if lo < 0 || lo >= hi || hi > backends.len() {
        None
    } else if backend_usable(backends[lo]) {
        Some(lo)
    } else {
        first_usable_in(backends, lo + 1, hi)
    }
}

/// The round-robin choice from a cursor position: the first usable backend
/// at or after it, wrapping around.
pub open spec fn rr_choice(backends: Seq<Backend>, start: int) -> Option<int> {
    match first_usable_in(backends, start, backends.len() as int) {
        Some(i) => Some(i),
        None => first_usable_in(backends, 0, start),
    }
}

/// The first backend matching a hint tag and usable.
pub open spec fn first_match(backends: Seq<Backend>, tag: BackendType, i: int) -> Option<int>
    decreases backends.len() - i,
{
    if i < 0 || i >= backends.len() {
        None
    } else if backends[i].backend_type == tag && backend_usable(backends[i]) {
        Some(i)
    } else {
        first_match(backends, tag, i + 1)
    }
}

/// The hint choice: the first hint, in the job's order, whose backend is
/// registered, available and not closed for shutdown.
pub open spec fn hint_choice(backends: Seq<Backend>, hints: Seq<BackendType>, j: int) -> Option<
    int,
>
    decreases hints.len() - j,
{
    if j < 0 || j >= hints.len() {
        None
    } else {
        match first_match(backends, hints[j], 0) {
            Some(i) => Some(i),
            None => hint_choice(backends, hints, j + 1),
        }
    }
}

/// The policy choice lands on a usable backend within range.
pub proof fn lemma_best_upto_range(
    backends: Seq<Backend>,
    policy: SchedulingPolicy,
    input_len: nat,
    n: int,
)
    ensures
        best_upto(backends, policy, input_len, n) matches Some(j) ==> 0 <= j < n && j
            < backends.len() && backend_usable(backends[j]),
    decreases n,
{
    if n <= 0 || n > backends.len() {
    } else {
        lemma_best_upto_range(backends, policy, input_len, n - 1);
    }
}

/// The backend a scheduler state picks for a job: the first hint match
/// wins; otherwise the round-robin choice from the cursor, or the score
/// maximum, by policy.
pub open spec fn spec_backend_choice(
    scheduler: AdaptiveScheduler,
    backends: Seq<Backend>,
    hints: Seq<BackendType>,
    input_len: nat,
) -> Option<int> {
    match hint_choice(backends, hints, 0) {
        Some(i) => Some(i),
        None => if scheduler.spec_policy() == SchedulingPolicy::RoundRobin {
            rr_choice(
                backends,
                if backends.len() == 0 {
                    0int
                } else {
                    (scheduler.spec_cursor() % backends.len()) as int
                },
            )
        } else {
            best_upto(backends, scheduler.spec_policy(), input_len, backends.len() as int)
        },
    }
}

/// Scheduler determinism: under the Fastest policy the choice is a pure
/// function of the backends' tags and usability alone; the job (and with
/// it the input size) plays no part.
pub proof fn lemma_fastest_deterministic(
    b1: Seq<Backend>,
    b2: Seq<Backend>,
    l1: nat,
    l2: nat,
    n: int,
)
    requires
        b1.len() == b2.len(),
        forall|i: int|
            0 <= i < b1.len() ==> (#[trigger] b1[i]).backend_type == b2[i].backend_type
                && backend_usable(b1[i]) == backend_usable(b2[i]),
    ensures
        best_upto(b1, SchedulingPolicy::Fastest, l1, n) == best_upto(
            b2,
            SchedulingPolicy::Fastest,
            l2,
            n,
        ),
    decreases n,
{
    if n <= 0 || n > b1.len() {
    } else {
        lemma_fastest_deterministic(b1, b2, l1, l2, n - 1);
        assert(b1[n - 1].backend_type == b2[n - 1].backend_type && backend_usable(b1[n - 1])
            == backend_usable(b2[n - 1]));
        lemma_best_upto_range(b1, SchedulingPolicy::Fastest, l1, n - 1);
        match best_upto(b1, SchedulingPolicy::Fastest, l1, n - 1) {
            Some(j) => {
                assert(b1[j].backend_type == b2[j].backend_type);
            },
            None => {},
        }
    }
}

/// The adaptive backend-selection scheduler: scores every usable backend
/// under the configured policy and picks the maximum, ties broken by
/// registration order; a rotating cursor serves the round-robin policy.
pub struct AdaptiveScheduler {
    policy: SchedulingPolicy,
    cursor: usize,
}

impl AdaptiveScheduler {
    pub closed spec fn spec_policy(&self) -> SchedulingPolicy {
        self.policy
    }

    pub closed spec fn spec_cursor(&self) -> nat {
        self.cursor as nat
    }

    /// A scheduler under the given policy with the cursor at the start.
    pub fn new(policy: SchedulingPolicy) -> (r: AdaptiveScheduler)
        ensures
            r.spec_policy() == policy,
            r.spec_cursor() == 0,
    {
        AdaptiveScheduler { policy, cursor: 0 }
    }

    /// The advisory fitness score of one backend for a computation, in
    /// thousandths: an unusable backend scores zero; LeastLoaded reports
    /// the rounded reciprocal of the load. Selection itself compares exact
    /// policy scores, not this advisory figure.
    pub fn evaluate_backend(
        &self,
        backend: &Backend,
        computation: &crate::types::Computation,
    ) -> (r: u64)
        ensures
            !backend_usable(*backend) ==> r == 0,
            backend_usable(*backend) ==> r == spec_milli_score(
                self.spec_policy(),
                *backend,
                computation.input@.len(),
            ),
    {
        if !backend.is_available() {
            return 0;
        }
        match self.policy {
            SchedulingPolicy::RoundRobin => 1000,
            SchedulingPolicy::LeastLoaded => {
                if backend.in_flight >= 999 {
                    1
                } else {
                    1000 / (1 + backend.in_flight as u64)
                }
            },
            SchedulingPolicy::Fastest => 1000 * fastest_points(backend.backend_type()),
            SchedulingPolicy::Adaptive => {
                1000 * adaptive_points(backend.backend_type(), computation.input.len())
            },
            SchedulingPolicy::CostOptimized => 1000 * cost_points(backend.backend_type()),
        }
    }

    /// Picks the backend for a job: the first hint whose backend is usable
    /// wins outright; otherwise the policy scores all usable backends and
    /// the maximum wins, ties to the earliest registered. Round-robin
    /// serves the first usable backend at or after its cursor and advances
    /// it. Fails with `BackendUnavailable` exactly when no backend is
    /// usable (and no hint matched).
    pub fn select_for(
        &mut self,
        backends: &Vec<Backend>,
        hints: &Vec<BackendType>,
        input_len: usize,
    ) -> (r: Result<usize, EngineError>)
        ensures
            final(self).spec_policy() == old(self).spec_policy(),
            hint_choice(backends@, hints@, 0) matches Some(i) ==> r == Ok::<usize, EngineError>(
                i as usize,
            ) && final(self).spec_cursor() == old(self).spec_cursor(),
            hint_choice(backends@, hints@, 0) is None && old(self).spec_policy()
                != SchedulingPolicy::RoundRobin ==> {
                &&& final(self).spec_cursor() == old(self).spec_cursor()
                &&& match best_upto(
                    backends@,
                    old(self).spec_policy(),
                    input_len as nat,
                    backends@.len() as int,
                ) {
                    Some(i) => r == Ok::<usize, EngineError>(i as usize),
                    None => r == Err::<usize, EngineError>(EngineError::BackendUnavailable),
                }
            },
            hint_choice(backends@, hints@, 0) is None && old(self).spec_policy()
                == SchedulingPolicy::RoundRobin ==> {
                let start = if backends@.len() == 0 {
                    0int
                } else {
                    (old(self).spec_cursor() % backends@.len()) as int
                };
                match rr_choice(backends@, start) {
                    Some(i) => r == Ok::<usize, EngineError>(i as usize)
                        && final(self).spec_cursor() == i + 1,
                    None => r == Err::<usize, EngineError>(EngineError::BackendUnavailable)
                        && final(self).spec_cursor() == old(self).spec_cursor(),
                }
            },
            r matches Ok(i) ==> (i as int) < backends@.len() && backend_usable(
                backends@[i as int],
            ),
            match spec_backend_choice(*old(self), backends@, hints@, input_len as nat) {
                Some(i) => r == Ok::<usize, EngineError>(i as usize),
                None => r == Err::<usize, EngineError>(EngineError::BackendUnavailable),
            },
    {
        // Hints first: the first hint with a usable backend is selected
        // directly.
        let mut j: usize = 0;
        while j < hints.len()
            invariant
                j <= hints@.len(),
                self == old(self),
                hint_choice(backends@, hints@, 0) == hint_choice(backends@, hints@, j as int),
            decreases hints@.len() - j,
        {
            let tag = hints[j];
            let mut i: usize = 0;
            while i < backends.len()
                invariant
                    i <= backends@.len(),
                    j < hints@.len(),
                    self == old(self),
                    tag == hints@[j as int],
                    hint_choice(backends@, hints@, 0) == hint_choice(backends@, hints@, j as int),
                    first_match(backends@, tag, 0) == first_match(backends@, tag, i as int),
                decreases backends@.len() - i,
            {
                let b = &backends[i];
                if b.backend_type() == tag && b.is_available() {
                    proof {
                        assert(first_match(backends@, tag, i as int) == Some(i as int));
                    }
                    return Ok(i);
                }
                i += 1;
            }
            proof {
                assert(first_match(backends@, tag, i as int) is None);
                assert(hint_choice(backends@, hints@, j as int) == hint_choice(
                    backends@,
                    hints@,
                    j as int + 1,
                ));
            }
            j += 1;
        }
        proof {
            assert(hint_choice(backends@, hints@, j as int) is None);
        }
        // Policy scoring.
        match self.policy {
            SchedulingPolicy::RoundRobin => self.select_round_robin(backends),
            _ => self.select_by_score(backends, input_len),
        }
    }

    /// Round-robin: the first usable backend at or after the cursor,
    /// wrapping; the cursor moves past the choice.
    fn select_round_robin(&mut self, backends: &Vec<Backend>) -> (r: Result<usize, EngineError>)
        requires
            old(self).spec_policy() == SchedulingPolicy::RoundRobin,
        ensures
            final(self).spec_policy() == old(self).spec_policy(),
            ({
                let start = if backends@.len() == 0 {
                    0int
                } else {
                    (old(self).spec_cursor() % backends@.len()) as int
                };
                match rr_choice(backends@, start) {
                    Some(i) => r == Ok::<usize, EngineError>(i as usize)
                        && final(self).spec_cursor() == i + 1,
                    None => r == Err::<usize, EngineError>(EngineError::BackendUnavailable)
                        && final(self).spec_cursor() == old(self).spec_cursor(),
                }
            }),
            r matches Ok(i) ==> (i as int) < backends@.len() && backend_usable(
                backends@[i as int],
            ),
    {
        if backends.len() == 0 {
            return Err(EngineError::BackendUnavailable);
        }
        let n = backends.len();
        let start = self.cursor % n;
        let mut i: usize = start;
        while i < n
            invariant
                self == old(self),
                n == backends@.len(),
                n > 0,
                start as nat == old(self).spec_cursor() % (n as nat),
                start <= i <= n,
                start < n,
                first_usable_in(backends@, start as int, n as int) == first_usable_in(
                    backends@,
                    i as int,
                    n as int,
                ),
            decreases n - i,
        {
            if backends[i].is_available() {
                proof {
                    assert(first_usable_in(backends@, i as int, n as int) == Some(i as int));
                }
                self.cursor = i + 1;
                return Ok(i);
            }
            proof {
                assert(first_usable_in(backends@, i as int, n as int) == first_usable_in(
                    backends@,
                    i as int + 1,
                    n as int,
                ));
            }
            i += 1;
        }
        proof {
            assert(first_usable_in(backends@, start as int, n as int) is None);
        }
        let mut k: usize = 0;
        while k < start
            invariant
                self == old(self),
                n == backends@.len(),
                n > 0,
                start as nat == old(self).spec_cursor() % (n as nat),
                k <= start,
                start < n,
                first_usable_in(backends@, start as int, n as int) is None,
                first_usable_in(backends@, 0, start as int) == first_usable_in(
                    backends@,
                    k as int,
                    start as int,
                ),
            decreases start - k,
        {
            if backends[k].is_available() {
                proof {
                    assert(first_usable_in(backends@, k as int, start as int) == Some(k as int));
                }
                self.cursor = k + 1;
                return Ok(k);
            }
            proof {
                assert(first_usable_in(backends@, k as int, start as int) == first_usable_in(
                    backends@,
                    k as int + 1,
                    start as int,
                ));
            }
            k += 1;
        }
        proof {
            assert(first_usable_in(backends@, k as int, start as int) is None);
        }
        Err(EngineError::BackendUnavailable)
    }

    /// Maximum-score selection with first-registered tie-breaking.
    fn select_by_score(&mut self, backends: &Vec<Backend>, input_len: usize) -> (r: Result<
        usize,
        EngineError,
    >)
        ensures
            *final(self) == *old(self),
            match best_upto(
                backends@,
                old(self).spec_policy(),
                input_len as nat,
                backends@.len() as int,
            ) {
                Some(i) => r == Ok::<usize, EngineError>(i as usize),
                None => r == Err::<usize, EngineError>(EngineError::BackendUnavailable),
            },
            r matches Ok(i) ==> (i as int) < backends@.len() && backend_usable(
                backends@[i as int],
            ),
    {
        let ghost policy = self.policy;
        let mut best: Option<usize> = None;
        let mut i: usize = 0;
        while i < backends.len()
            invariant
                i <= backends@.len(),
                self == old(self),
                policy == self.spec_policy(),
                match best {
                    Some(j) => best_upto(backends@, policy, input_len as nat, i as int) == Some(
                        j as int,
                    ) && j < i,
                    None => best_upto(backends@, policy, input_len as nat, i as int) is None,
                },
            decreases backends@.len() - i,
        {
            let b = &backends[i];
            if b.is_available() {
                match best {
                    None => {
                        best = Some(i);
                    },
                    Some(j) => {
                        if score_gt(self.policy, b, &backends[j], input_len) {
                            best = Some(i);
                        }
                    },
                }
            }
            i += 1;
        }
        proof {
            lemma_best_upto_range(backends@, policy, input_len as nat, backends@.len() as int);
        }
        match best {
            Some(i) => Ok(i),
            None => Err(EngineError::BackendUnavailable),
        }
    }
}

/// The milli-point advisory score `evaluate_backend` reports for a usable
/// backend.
pub open spec fn spec_milli_score(policy: SchedulingPolicy, b: Backend, input_len: nat) -> int {
    match policy {
        SchedulingPolicy::RoundRobin => 1000,
        SchedulingPolicy::LeastLoaded => {
            if b.in_flight >= 999 {
                1
            } else {
                1000int / (1 + b.in_flight as int)
            }
        },
        SchedulingPolicy::Fastest => 1000 * fastest_rank(b.backend_type),
        SchedulingPolicy::Adaptive => 1000 * adaptive_rank(b.backend_type, input_len),
        SchedulingPolicy::CostOptimized => 1000 * cost_rank(b.backend_type),
    }
}

/// The Fastest policy's rank of a tag, as an executable figure.
pub fn fastest_points(tag: BackendType) -> (r: u64)
    ensures
        r as int == fastest_rank(tag),
{
    match tag {
        BackendType::Quantum => 15,
        BackendType::Cuda => 10,
        BackendType::Rocm => 9,
        BackendType::Metal => 8,
        BackendType::Vulkan => 7,
        BackendType::OpenCL => 6,
        BackendType::Ledger => 5,
        BackendType::RemoteGpu => 4,
        BackendType::Cpu => 3,
    }
}

/// The CostOptimized policy's rank of a tag, as an executable figure.
pub fn cost_points(tag: BackendType) -> (r: u64)
    ensures
        r as int == cost_rank(tag),
{
    match tag {
        BackendType::Cpu => 10,
        BackendType::RemoteGpu => 8,
        BackendType::Ledger => 1,
        _ => 5,
    }
}

/// The Adaptive policy's rank of a tag for an input size, as an executable
/// figure.
pub fn adaptive_points(tag: BackendType, input_len: usize) -> (r: u64)
    ensures
        r as int == adaptive_rank(tag, input_len as nat),
{
    if input_len > ADAPTIVE_GPU_THRESHOLD {
        match tag {
            BackendType::Cuda => 10,
            BackendType::Rocm => 10,
            BackendType::Metal => 10,
            _ => 3,
        }
    } else {
        match tag {
            BackendType::Cpu => 8,
            _ => 5,
        }
    }
}

/// Whether `a` strictly outscores `b` under the policy.
fn score_gt(policy: SchedulingPolicy, a: &Backend, b: &Backend, input_len: usize) -> (r: bool)
    ensures
        r == (policy_score(policy, *a, input_len as nat) > policy_score(
            policy,
            *b,
            input_len as nat,
        )),
{
    match policy {
        SchedulingPolicy::RoundRobin => false,
        SchedulingPolicy::LeastLoaded => a.in_flight < b.in_flight,
        SchedulingPolicy::Fastest => fastest_points(a.backend_type()) > fastest_points(
            b.backend_type(),
        ),
        SchedulingPolicy::Adaptive => adaptive_points(a.backend_type(), input_len)
            > adaptive_points(b.backend_type(), input_len),
        SchedulingPolicy::CostOptimized => cost_points(a.backend_type()) > cost_points(
            b.backend_type(),
        ),
    }
}


// ───────────────────────── the orchestrator ─────────────────────────

/// One tracked task: the immutable request, its current status, and the
/// logical instants at which it started and completed (ghost, for the
/// ordering invariants).
pub struct TaskRecord {
    pub task: Task,
    pub status: TaskStatus,
    pub start_time: Ghost<Option<nat>>,
    pub complete_time: Ghost<Option<nat>>,
}

/// Two tasks carrying the same request and state.
pub open spec fn task_eq(a: Task, b: Task) -> bool {
    &&& a.id == b.id
    &&& a.priority == b.priority
    &&& a.payload@ == b.payload@
    &&& a.backend_hint == b.backend_hint
    &&& a.max_retries == b.max_retries
    &&& a.timeout_ms == b.timeout_ms
    &&& a.dependencies@ == b.dependencies@
    &&& a.created_at == b.created_at
    &&& status_eq(a.status, b.status)
}

/// The hint list a task offers the scheduler: its single hint, if any.
pub open spec fn spec_task_hints(t: Task) -> Seq<BackendType> {
    match t.backend_hint {
        Some(tag) => seq![tag],
        None => Seq::empty(),
    }
}

/// A dependency is discharged before instant `s`: it is tracked, completed,
/// and its completion instant lies strictly before `s`.
pub open spec fn dep_done_before(m: Map<u64, TaskRecord>, d: u64, s: nat) -> bool {
    &&& m.dom().contains(d)
    &&& m[d].status is Completed
    &&& m[d].complete_time@ matches Some(c) && c < s
}

/// Every dependency of `t` is discharged before instant `s`.
pub open spec fn deps_done_before(m: Map<u64, TaskRecord>, t: Task, s: nat) -> bool {
    forall|k: int|
        0 <= k < t.dependencies@.len() ==> dep_done_before(
            m,
            (#[trigger] t.dependencies@[k]).0,
            s,
        )
}

/// Every dependency of `t` is tracked and completed.
pub open spec fn deps_completed(m: Map<u64, TaskRecord>, t: Task) -> bool {
    forall|k: int|
        0 <= k < t.dependencies@.len() ==> {
            let d = (#[trigger] t.dependencies@[k]).0;
            m.dom().contains(d) && m[d].status is Completed
        }
}

/// The per-record invariant: ids stay below the id counter, instants lie
/// below the clock, a completed task has a completion instant, a running
/// task has a start instant, and — dependency ordering — a task that
/// started did so strictly after every dependency completed.
pub open spec fn record_wf(m: Map<u64, TaskRecord>, id: u64, clock: nat, next_id: u64) -> bool {
    let rec = m[id];
    &&& id < next_id
    &&& (rec.start_time@ matches Some(s) ==> s < clock && deps_done_before(m, rec.task, s))
    &&& (rec.complete_time@ matches Some(c) ==> c < clock)
    &&& (rec.status is Completed ==> rec.complete_time@ is Some)
    &&& (rec.status is Running ==> rec.start_time@ is Some)
}

/// The table invariant: every tracked record is well formed.
pub open spec fn table_wf(m: Map<u64, TaskRecord>, clock: nat, next_id: u64) -> bool {
    forall|id: u64| #[trigger] m.dom().contains(id) ==> record_wf(m, id, clock, next_id)
}

/// Updating (or freshly inserting) one record preserves the table
/// invariant, provided the touched slot was not a completed dependency
/// anyone relies on, and the new record meets the per-record conditions.
proof fn lemma_table_wf_update(
    m: Map<u64, TaskRecord>,
    id: u64,
    rec2: TaskRecord,
    clock0: nat,
    clock1: nat,
    next0: u64,
    next1: u64,
)
    requires
        table_wf(m, clock0, next0),
        clock0 <= clock1,
        next0 <= next1,
        !m.dom().contains(id) || !(m[id].status is Completed),
        id < next1,
        rec2.start_time@ matches Some(s) ==> s < clock1 && deps_done_before(m, rec2.task, s),
        rec2.complete_time@ matches Some(c) ==> c < clock1,
        rec2.status is Completed ==> rec2.complete_time@ is Some,
        rec2.status is Running ==> rec2.start_time@ is Some,
    ensures
        table_wf(m.insert(id, rec2), clock1, next1),
{
    let m2 = m.insert(id, rec2);
    assert forall|id2: u64| #[trigger] m2.dom().contains(id2) implies record_wf(
        m2,
        id2,
        clock1,
        next1,
    ) by {
        if id2 == id {
            match rec2.start_time@ {
                None => {},
                Some(s) => {
                assert(deps_done_before(m2, rec2.task, s)) by {
                    assert forall|k: int|
                        0 <= k < rec2.task.dependencies@.len() implies dep_done_before(
                        m2,
                        (#[trigger] rec2.task.dependencies@[k]).0,
                        s,
                    ) by {
                        let d = rec2.task.dependencies@[k].0;
                        assert(dep_done_before(m, d, s));
                        assert(d != id);
                    }
                }
                },
            }
        } else {
            assert(m.dom().contains(id2));
            assert(record_wf(m, id2, clock0, next0));
            let rec = m[id2];
            assert(m2[id2] == rec);
            match rec.start_time@ {
                None => {},
                Some(s) => {
                assert(deps_done_before(m2, rec.task, s)) by {
                    assert forall|k: int|
                        0 <= k < rec.task.dependencies@.len() implies dep_done_before(
                        m2,
                        (#[trigger] rec.task.dependencies@[k]).0,
                        s,
                    ) by {
                        let d = rec.task.dependencies@[k].0;
                        assert(dep_done_before(m, d, s));
                        assert(d != id);
                    }
                }
                },
            }
        }
    }
}

/// The effect of cancellation on the task table: a tracked, non-terminal
/// task becomes Cancelled; anything else is left alone.
pub open spec fn spec_cancel(m: Map<u64, TaskRecord>, id: u64) -> Map<u64, TaskRecord> {
    if m.dom().contains(id) && !is_terminal(m[id].status) {
        m.insert(id, TaskRecord { status: TaskStatus::Cancelled, ..m[id] })
    } else {
        m
    }
}

/// Cancellation idempotence: cancelling a task twice leaves exactly the
/// state one cancellation leaves.
pub proof fn lemma_cancel_idempotent(m: Map<u64, TaskRecord>, id: u64)
    ensures
        spec_cancel(spec_cancel(m, id), id) == spec_cancel(m, id),
{
    let m1 = spec_cancel(m, id);
    if m.dom().contains(id) && !is_terminal(m[id].status) {
        assert(m1[id].status is Cancelled);
        assert(spec_cancel(m1, id) =~= m1);
    }
}

/// An exact copy of a task.
pub fn clone_task(t: &Task) -> (r: Task)
    ensures
        task_eq(r, *t),
{
    let mut deps: Vec<TaskId> = Vec::new();
    let mut i: usize = 0;
    while i < t.dependencies.len()
        invariant
            i <= t.dependencies@.len(),
            deps@ =~= t.dependencies@.take(i as int),
        decreases t.dependencies@.len() - i,
    {
        deps.push(t.dependencies[i]);
        i += 1;
    }
    proof {
        assert(deps@ =~= t.dependencies@);
    }
    Task {
        id: t.id,
        priority: t.priority,
        payload: crate::verification::clone_bytes(&t.payload),
        backend_hint: t.backend_hint,
        max_retries: t.max_retries,
        timeout_ms: t.timeout_ms,
        dependencies: deps,
        created_at: t.created_at,
        status: clone_status(&t.status),
    }
}

/// An exact copy of a status.
pub fn clone_status(s: &TaskStatus) -> (r: TaskStatus)
    ensures
        status_eq(r, *s),
{
    match s {
        TaskStatus::Pending => TaskStatus::Pending,
        TaskStatus::Scheduled => TaskStatus::Scheduled,
        TaskStatus::Running => TaskStatus::Running,
        TaskStatus::Completed(v) => TaskStatus::Completed(crate::verification::clone_bytes(v)),
        TaskStatus::Failed(m) => TaskStatus::Failed(m.clone()),
        TaskStatus::Cancelled => TaskStatus::Cancelled,
    }
}

/// The task orchestrator: tracks every submitted task from Pending to a
/// terminal state, serves workers the highest-priority ready task, gates
/// starts on completed dependencies, and reflects cancellations.
pub struct TaskScheduler {
    backends: Vec<Backend>,
    scheduler: AdaptiveScheduler,
    queues: PriorityQueues,
    table: HashMap<u64, TaskRecord>,
    next_id: u64,
    clock: Ghost<nat>,
    num_workers: usize,
    shutdown: bool,
}

impl TaskScheduler {
    pub closed spec fn spec_table(&self) -> Map<u64, TaskRecord> {
        self.table@
    }

    pub closed spec fn spec_clock(&self) -> nat {
        self.clock@
    }

    pub closed spec fn spec_next_id(&self) -> u64 {
        self.next_id
    }

    pub closed spec fn spec_backends(&self) -> Seq<Backend> {
        self.backends@
    }

    pub closed spec fn spec_queue_band(&self, p: Priority) -> Seq<Task> {
        self.queues.spec_band(p)
    }

    pub closed spec fn spec_shutdown(&self) -> bool {
        self.shutdown
    }

    pub closed spec fn spec_num_workers(&self) -> nat {
        self.num_workers as nat
    }

    /// The orchestrator invariant; it carries the dependency-ordering
    /// guarantee for every tracked task.
    pub open spec fn wf(&self) -> bool {
        table_wf(self.spec_table(), self.spec_clock(), self.spec_next_id())
    }

    /// A fresh orchestrator over the given backends, policy and worker
    /// count: nothing tracked, nothing queued.
    pub fn new(backends: Vec<Backend>, strategy: SchedulingPolicy, num_workers: usize) -> (r:
        TaskScheduler)
        ensures
            r.wf(),
            r.spec_table() == Map::<u64, TaskRecord>::empty(),
            r.spec_backends() == backends@,
            r.spec_next_id() == 0,
            r.spec_num_workers() == num_workers as nat,
            !r.spec_shutdown(),
            forall|p: Priority| r.spec_queue_band(p).len() == 0,
    {
        let r = TaskScheduler {
            backends,
            scheduler: AdaptiveScheduler::new(strategy),
            queues: PriorityQueues::new(),
            table: HashMap::new(),
            next_id: 0,
            clock: Ghost(0),
            num_workers,
            shutdown: false,
        };
        proof {
            broadcast use vstd::std_specs::hash::group_hash_axioms;

            assert(r.spec_table() =~= Map::<u64, TaskRecord>::empty());
        }
        r
    }

    /// Submits a task: it is stamped with a fresh id and the submission
    /// counter, recorded as Pending, and appended to the tail of its
    /// priority band. Fails with a capacity error only when the id space is
    /// exhausted.
    pub fn submit(&mut self, task: Task) -> (r: Result<TaskId, EngineError>)
        requires
            old(self).wf(),
        ensures
            final(self).wf(),
            final(self).spec_backends() == old(self).spec_backends(),
            final(self).spec_clock() == old(self).spec_clock(),
            old(self).spec_next_id() == u64::MAX ==> r == Err::<TaskId, EngineError>(
                EngineError::Capacity,
            ) && final(self).spec_table() == old(self).spec_table(),
            old(self).spec_next_id() < u64::MAX ==> {
                let id = old(self).spec_next_id();
                let stamped = (Task {
                    id: TaskId(id),
                    created_at: id,
                    status: TaskStatus::Pending,
                    ..task
                });
                &&& r == Ok::<TaskId, EngineError>(TaskId(id))
                &&& final(self).spec_next_id() == id + 1
                &&& final(self).spec_table().dom().contains(id)
                &&& final(self).spec_table().remove(id) == old(self).spec_table().remove(id)
                &&& task_eq(final(self).spec_table()[id].task, stamped)
                &&& final(self).spec_table()[id].status is Pending
                &&& final(self).spec_table()[id].start_time@ is None
                &&& final(self).spec_table()[id].complete_time@ is None
                &&& ({
                    let band = final(self).spec_queue_band(task.priority);
                    let prev = old(self).spec_queue_band(task.priority);
                    &&& band.len() == prev.len() + 1
                    &&& band.take(prev.len() as int) == prev
                    &&& task_eq(band.last(), stamped)
                })
                &&& forall|p: Priority|
                    p != task.priority ==> final(self).spec_queue_band(p) == old(
                        self,
                    ).spec_queue_band(p)
            },
    {
        proof {
            broadcast use vstd::std_specs::hash::group_hash_axioms;
        }
        if self.next_id == u64::MAX {
            return Err(EngineError::Capacity);
        }
        let id = self.next_id;
        self.next_id = id + 1;
        let stamped = Task {
            id: TaskId(id),
            created_at: id,
            status: TaskStatus::Pending,
            ..task
        };
        let for_queue = clone_task(&stamped);
        let record = TaskRecord {
            task: stamped,
            status: TaskStatus::Pending,
            start_time: Ghost(None),
            complete_time: Ghost(None),
        };
        proof {
            assert(!old(self).spec_table().dom().contains(id)) by {
                if old(self).spec_table().dom().contains(id) {
                    assert(record_wf(old(self).spec_table(), id, old(self).spec_clock(), id));
                }
            }
            lemma_table_wf_update(
                old(self).spec_table(),
                id,
                record,
                old(self).spec_clock(),
                old(self).spec_clock(),
                id,
                (id + 1) as u64,
            );
        }
        self.table.insert(id, record);
        self.queues.push(for_queue);
        proof {
            assert(self.spec_table().remove(id) =~= old(self).spec_table().remove(id));
        }
        Ok(TaskId(id))
    }

    /// The task's current status, or nothing for an unknown id.
    pub fn status(&self, id: TaskId) -> (r: Option<TaskStatus>)
        ensures
            r is Some <==> self.spec_table().dom().contains(id.0),
            r matches Some(s) ==> status_eq(s, self.spec_table()[id.0].status),
    {
        proof {
            broadcast use vstd::std_specs::hash::group_hash_axioms;
        }
        match self.table.get(&id.0) {
            Some(rec) => Some(clone_status(&rec.status)),
            None => None,
        }
    }

    /// Cancels a task. A tracked, non-terminal task becomes Cancelled (a
    /// pending one is dropped when it later reaches the head of its queue);
    /// a terminal or unknown task is left exactly as it is, so a second
    /// cancel has no further effect.
    pub fn cancel(&mut self, id: TaskId)
        requires
            old(self).wf(),
        ensures
            final(self).wf(),
            final(self).spec_table() == spec_cancel(old(self).spec_table(), id.0),
            final(self).spec_backends() == old(self).spec_backends(),
            final(self).spec_next_id() == old(self).spec_next_id(),
            final(self).spec_clock() == old(self).spec_clock(),
            forall|p: Priority|
                final(self).spec_queue_band(p) == old(self).spec_queue_band(p),
    {
        proof {
            broadcast use vstd::std_specs::hash::group_hash_axioms;
        }
        let rec = match self.table.remove(&id.0) {
            Some(rec) => rec,
            None => {
                proof {
                    assert(self.spec_table() =~= spec_cancel(old(self).spec_table(), id.0));
                }
                return ;
            },
        };
        let terminal = match &rec.status {
            TaskStatus::Completed(_) => true,
            TaskStatus::Failed(_) => true,
            TaskStatus::Cancelled => true,
            _ => false,
        };
        if terminal {
            self.table.insert(id.0, rec);
            proof {
                assert(self.spec_table() =~= old(self).spec_table());
                assert(self.spec_table() =~= spec_cancel(old(self).spec_table(), id.0));
            }
            return ;
        }
        let cancelled = TaskRecord {
            task: rec.task,
            status: TaskStatus::Cancelled,
            start_time: rec.start_time,
            complete_time: rec.complete_time,
        };
        proof {
            lemma_table_wf_update(
                old(self).spec_table(),
                id.0,
                cancelled,
                old(self).spec_clock(),
                old(self).spec_clock(),
                old(self).spec_next_id(),
                old(self).spec_next_id(),
            );
        }
        self.table.insert(id.0, cancelled);
        proof {
            assert(self.spec_table() =~= old(self).spec_table().insert(id.0, cancelled));
            assert(self.spec_table() =~= spec_cancel(old(self).spec_table(), id.0));
        }
    }

    /// Serves a worker the next job: pops the front of the highest
    /// non-empty band. A popped task that is no longer Pending (it was
    /// cancelled) is dropped; one whose dependencies are not all Completed
    /// is rotated to the tail of its band; a ready one is marked Scheduled
    /// and handed out.
    pub fn next_ready(&mut self) -> (r: Option<Task>)
        requires
            old(self).wf(),
        ensures
            final(self).wf(),
            final(self).spec_backends() == old(self).spec_backends(),
            final(self).spec_next_id() == old(self).spec_next_id(),
            final(self).spec_clock() == old(self).spec_clock(),
            old(self).queues_empty() ==> r is None && final(self).spec_table() == old(
                self,
            ).spec_table(),
            !old(self).queues_empty() ==> {
                let band = old(self).spec_top_band();
                let t0 = old(self).spec_queue_band(band)[0];
                let m = old(self).spec_table();
                &&& final(self).spec_queue_band(band).len() >= old(self).spec_queue_band(
                    band,
                ).len() - 1
                &&& (!(m.dom().contains(t0.id.0) && m[t0.id.0].status is Pending) ==> r is None
                    && final(self).spec_table() == m && final(self).spec_queue_band(band) == old(
                    self,
                ).spec_queue_band(band).skip(1))
                &&& (m.dom().contains(t0.id.0) && m[t0.id.0].status is Pending && !deps_completed(
                    m,
                    t0,
                ) ==> r is None && final(self).spec_table() == m && (if t0.priority == band {
                    final(self).spec_queue_band(band) == old(self).spec_queue_band(band).skip(
                        1,
                    ).push(t0)
                } else {
                    final(self).spec_queue_band(band) == old(self).spec_queue_band(band).skip(1)
                        && final(self).spec_queue_band(t0.priority) == old(self).spec_queue_band(
                        t0.priority,
                    ).push(t0)
                }))
                &&& (m.dom().contains(t0.id.0) && m[t0.id.0].status is Pending && deps_completed(
                    m,
                    t0,
                ) ==> {
                    &&& r matches Some(t) && task_eq(
                        t,
                        (Task { status: TaskStatus::Scheduled, ..t0 }),
                    )
                    &&& final(self).spec_table().dom().contains(t0.id.0)
                    &&& final(self).spec_table().remove(t0.id.0) == m.remove(t0.id.0)
                    &&& final(self).spec_table()[t0.id.0].status is Scheduled
                    &&& final(self).spec_table()[t0.id.0].task == m[t0.id.0].task
                    &&& final(self).spec_table()[t0.id.0].start_time == m[t0.id.0].start_time
                    &&& final(self).spec_table()[t0.id.0].complete_time == m[t0.id.0].complete_time
                    &&& final(self).spec_queue_band(band) == old(self).spec_queue_band(band).skip(1)
                })
            },
    {
        proof {
            broadcast use vstd::std_specs::hash::group_hash_axioms;
        }
        let t0 = match self.queues.pop() {
            Some(t) => t,
            None => {
                return None;
            },
        };
        // The record decides: dropped if no longer pending.
        let rec = match self.table.remove(&t0.id.0) {
            Some(rec) => rec,
            None => {
                proof {
                    assert(self.spec_table() =~= old(self).spec_table());
                }
                return None;
            },
        };
        let pending = match &rec.status {
            TaskStatus::Pending => true,
            _ => false,
        };
        if !pending {
            self.table.insert(t0.id.0, rec);
            proof {
                assert(self.spec_table() =~= old(self).spec_table());
            }
            return None;
        }
        self.table.insert(t0.id.0, rec);
        proof {
            assert(self.spec_table() =~= old(self).spec_table());
        }
        // Dependency gating: a non-ready task rotates to its band's tail.
        if !self.deps_completed_exec(&t0) {
            self.queues.push(t0);
            proof {
                assert(self.spec_table() =~= old(self).spec_table());
            }
            return None;
        }
        // Ready: mark Scheduled and hand it out.
        let rec = match self.table.remove(&t0.id.0) {
            Some(rec) => rec,
            None => {
                return None;
            },
        };
        let updated = TaskRecord {
            task: rec.task,
            status: TaskStatus::Scheduled,
            start_time: rec.start_time,
            complete_time: rec.complete_time,
        };
        proof {
            lemma_table_wf_update(
                old(self).spec_table(),
                t0.id.0,
                updated,
                old(self).spec_clock(),
                old(self).spec_clock(),
                old(self).spec_next_id(),
                old(self).spec_next_id(),
            );
        }
        self.table.insert(t0.id.0, updated);
        proof {
            assert(self.spec_table() =~= old(self).spec_table().insert(t0.id.0, updated));
            assert(self.spec_table().remove(t0.id.0) =~= old(self).spec_table().remove(t0.id.0));
        }
        let mut out = t0;
        out.status = TaskStatus::Scheduled;
        Some(out)
    }

    /// Whether all bands are empty.
    pub open spec fn queues_empty(&self) -> bool {
        &&& self.spec_queue_band(Priority::Critical).len() == 0
        &&& self.spec_queue_band(Priority::High).len() == 0
        &&& self.spec_queue_band(Priority::Normal).len() == 0
        &&& self.spec_queue_band(Priority::Low).len() == 0
    }

    /// The band the next pop serves.
    pub open spec fn spec_top_band(&self) -> Priority {
        if self.spec_queue_band(Priority::Critical).len() > 0 {
            Priority::Critical
        } else if self.spec_queue_band(Priority::High).len() > 0 {
            Priority::High
        } else if self.spec_queue_band(Priority::Normal).len() > 0 {
            Priority::Normal
        } else {
            Priority::Low
        }
    }

    /// Whether every dependency of `t` is tracked and completed.
    fn deps_completed_exec(&self, t: &Task) -> (r: bool)
        ensures
            r == deps_completed(self.spec_table(), *t),
    {
        proof {
            broadcast use vstd::std_specs::hash::group_hash_axioms;
        }
        let mut i: usize = 0;
        while i < t.dependencies.len()
            invariant
                i <= t.dependencies@.len(),
                forall|k: int|
                    0 <= k < i ==> {
                        let d = (#[trigger] t.dependencies@[k]).0;
                        self.spec_table().dom().contains(d) && self.spec_table()[d].status
                            is Completed
                    },
            decreases t.dependencies@.len() - i,
        {
            proof {
                broadcast use vstd::std_specs::hash::group_hash_axioms;
            }
            let d = t.dependencies[i];
            match self.table.get(&d.0) {
                Some(rec) => {
                    match &rec.status {
                        TaskStatus::Completed(_) => {},
                        _ => {
                            return false;
                        },
                    }
                },
                None => {
                    return false;
                },
            }
            i += 1;
        }
        true
    }

    /// Starts a scheduled task whose dependencies are all completed: it
    /// becomes Running and its start instant is the present, which lies
    /// strictly after every dependency's completion instant. Returns false,
    /// changing nothing, when the task is unknown, not Scheduled, or gated.
    pub fn start_task(&mut self, id: TaskId) -> (r: bool)
        requires
            old(self).wf(),
        ensures
            final(self).wf(),
            final(self).spec_backends() == old(self).spec_backends(),
            final(self).spec_next_id() == old(self).spec_next_id(),
            forall|p: Priority|
                final(self).spec_queue_band(p) == old(self).spec_queue_band(p),
            ({
                let m = old(self).spec_table();
                &&& r <==> (m.dom().contains(id.0) && m[id.0].status is Scheduled
                    && deps_completed(m, m[id.0].task))
                &&& (!r ==> final(self).spec_table() == m && final(self).spec_clock() == old(
                    self,
                ).spec_clock())
                &&& (r ==> {
                    &&& final(self).spec_clock() == old(self).spec_clock() + 1
                    &&& final(self).spec_table().dom().contains(id.0)
                    &&& final(self).spec_table().remove(id.0) == m.remove(id.0)
                    &&& final(self).spec_table()[id.0].status is Running
                    &&& final(self).spec_table()[id.0].task == m[id.0].task
                    &&& final(self).spec_table()[id.0].start_time@ == Some(old(self).spec_clock())
                    &&& final(self).spec_table()[id.0].complete_time == m[id.0].complete_time
                    &&& deps_done_before(final(self).spec_table(), m[id.0].task, old(self).spec_clock())
                })
            }),
    {
        proof {
            broadcast use vstd::std_specs::hash::group_hash_axioms;
        }
        let rec = match self.table.remove(&id.0) {
            Some(rec) => rec,
            None => {
                proof {
                    assert(self.spec_table() =~= old(self).spec_table());
                }
                return false;
            },
        };
        let scheduled = match &rec.status {
            TaskStatus::Scheduled => true,
            _ => false,
        };
        if !scheduled {
            self.table.insert(id.0, rec);
            proof {
                assert(self.spec_table() =~= old(self).spec_table());
            }
            return false;
        }
        self.table.insert(id.0, rec);
        proof {
            assert(self.spec_table() =~= old(self).spec_table());
        }
        let rec_ref = match self.table.get(&id.0) {
            Some(rec_ref) => rec_ref,
            None => {
                return false;
            },
        };
        let task_copy = clone_task(&rec_ref.task);
        proof {
            assert(task_copy.dependencies@ == old(self).spec_table()[id.0].task.dependencies@);
        }
        if !self.deps_completed_exec(&task_copy) {
            proof {
                assert(deps_completed(self.spec_table(), self.spec_table()[id.0].task) ==
                    deps_completed(self.spec_table(), task_copy));
            }
            return false;
        }
        let rec = match self.table.remove(&id.0) {
            Some(rec) => rec,
            None => {
                return false;
            },
        };
        let ghost now = self.spec_clock();
        let updated = TaskRecord {
            task: rec.task,
            status: TaskStatus::Running,
            start_time: Ghost(Some(self.spec_clock())),
            complete_time: rec.complete_time,
        };
        proof {
            assert(deps_done_before(old(self).spec_table(), updated.task, now)) by {
                assert forall|k: int|
                    0 <= k < updated.task.dependencies@.len() implies dep_done_before(
                    old(self).spec_table(),
                    (#[trigger] updated.task.dependencies@[k]).0,
                    now,
                ) by {
                    let d = updated.task.dependencies@[k].0;
                    assert(updated.task.dependencies@[k] == task_copy.dependencies@[k]);
                    assert(old(self).spec_table().dom().contains(d) && old(self).spec_table()[
                        d
                    ].status is Completed);
                    assert(record_wf(old(self).spec_table(), d, now, old(self).spec_next_id()));
                }
            }
            lemma_table_wf_update(
                old(self).spec_table(),
                id.0,
                updated,
                old(self).spec_clock(),
                old(self).spec_clock() + 1,
                old(self).spec_next_id(),
                old(self).spec_next_id(),
            );
            self.clock@ = self.clock@ + 1;
        }
        self.table.insert(id.0, updated);
        proof {
            assert(self.spec_table() =~= old(self).spec_table().insert(id.0, updated));
            assert(self.spec_table().remove(id.0) =~= old(self).spec_table().remove(id.0));
            assert(deps_done_before(self.spec_table(), updated.task, now)) by {
                assert forall|k: int|
                    0 <= k < updated.task.dependencies@.len() implies dep_done_before(
                    self.spec_table(),
                    (#[trigger] updated.task.dependencies@[k]).0,
                    now,
                ) by {
                    let d = updated.task.dependencies@[k].0;
                    assert(dep_done_before(old(self).spec_table(), d, now));
                    assert(d != id.0);
                }
            }
        }
        true
    }

    /// Finishes a running task with its output: it becomes Completed at the
    /// present instant. Returns false, changing nothing, when the task is
    /// unknown or not Running.
    pub fn complete_task(&mut self, id: TaskId, output: Vec<u8>) -> (r: bool)
        requires
            old(self).wf(),
        ensures
            final(self).wf(),
            final(self).spec_backends() == old(self).spec_backends(),
            final(self).spec_next_id() == old(self).spec_next_id(),
            forall|p: Priority|
                final(self).spec_queue_band(p) == old(self).spec_queue_band(p),
            ({
                let m = old(self).spec_table();
                &&& r <==> (m.dom().contains(id.0) && m[id.0].status is Running)
                &&& (!r ==> final(self).spec_table() == m && final(self).spec_clock() == old(
                    self,
                ).spec_clock())
                &&& (r ==> {
                    &&& final(self).spec_clock() == old(self).spec_clock() + 1
                    &&& final(self).spec_table().dom().contains(id.0)
                    &&& final(self).spec_table().remove(id.0) == m.remove(id.0)
                    &&& final(self).spec_table()[id.0].status matches TaskStatus::Completed(v)
                        && v@ == output@
                    &&& final(self).spec_table()[id.0].task == m[id.0].task
                    &&& final(self).spec_table()[id.0].start_time == m[id.0].start_time
                    &&& final(self).spec_table()[id.0].complete_time@ == Some(old(self).spec_clock())
                })
            }),
    {
        proof {
            broadcast use vstd::std_specs::hash::group_hash_axioms;
        }
        let rec = match self.table.remove(&id.0) {
            Some(rec) => rec,
            None => {
                proof {
                    assert(self.spec_table() =~= old(self).spec_table());
                }
                return false;
            },
        };
        let running = match &rec.status {
            TaskStatus::Running => true,
            _ => false,
        };
        if !running {
            self.table.insert(id.0, rec);
            proof {
                assert(self.spec_table() =~= old(self).spec_table());
            }
            return false;
        }
        let updated = TaskRecord {
            task: rec.task,
            status: TaskStatus::Completed(output),
            start_time: rec.start_time,
            complete_time: Ghost(Some(self.spec_clock())),
        };
        proof {
            lemma_table_wf_update(
                old(self).spec_table(),
                id.0,
                updated,
                old(self).spec_clock(),
                old(self).spec_clock() + 1,
                old(self).spec_next_id(),
                old(self).spec_next_id(),
            );
            self.clock@ = self.clock@ + 1;
        }
        self.table.insert(id.0, updated);
        proof {
            assert(self.spec_table() =~= old(self).spec_table().insert(id.0, updated));
            assert(self.spec_table().remove(id.0) =~= old(self).spec_table().remove(id.0));
        }
        true
    }

    /// Fails a running task with a reason: it becomes Failed at the present
    /// instant. Returns false, changing nothing, when the task is unknown
    /// or not Running.
    pub fn fail_task(&mut self, id: TaskId, reason: String) -> (r: bool)
        requires
            old(self).wf(),
        ensures
            final(self).wf(),
            final(self).spec_backends() == old(self).spec_backends(),
            final(self).spec_next_id() == old(self).spec_next_id(),
            forall|p: Priority|
                final(self).spec_queue_band(p) == old(self).spec_queue_band(p),
            ({
                let m = old(self).spec_table();
                &&& r <==> (m.dom().contains(id.0) && m[id.0].status is Running)
                &&& (!r ==> final(self).spec_table() == m && final(self).spec_clock() == old(
                    self,
                ).spec_clock())
                &&& (r ==> {
                    &&& final(self).spec_clock() == old(self).spec_clock() + 1
                    &&& final(self).spec_table().dom().contains(id.0)
                    &&& final(self).spec_table().remove(id.0) == m.remove(id.0)
                    &&& final(self).spec_table()[id.0].status matches TaskStatus::Failed(v)
                        && v@ == reason@
                    &&& final(self).spec_table()[id.0].task == m[id.0].task
                    &&& final(self).spec_table()[id.0].start_time == m[id.0].start_time
                    &&& final(self).spec_table()[id.0].complete_time@ == Some(old(self).spec_clock())
                })
            }),
    {
        proof {
            broadcast use vstd::std_specs::hash::group_hash_axioms;
        }
        let rec = match self.table.remove(&id.0) {
            Some(rec) => rec,
            None => {
                proof {
                    assert(self.spec_table() =~= old(self).spec_table());
                }
                return false;
            },
        };
        let running = match &rec.status {
            TaskStatus::Running => true,
            _ => false,
        };
        if !running {
            self.table.insert(id.0, rec);
            proof {
                assert(self.spec_table() =~= old(self).spec_table());
            }
            return false;
        }
        let updated = TaskRecord {
            task: rec.task,
            status: TaskStatus::Failed(reason),
            start_time: rec.start_time,
            complete_time: Ghost(Some(self.spec_clock())),
        };
        proof {
            lemma_table_wf_update(
                old(self).spec_table(),
                id.0,
                updated,
                old(self).spec_clock(),
                old(self).spec_clock() + 1,
                old(self).spec_next_id(),
                old(self).spec_next_id(),
            );
            self.clock@ = self.clock@ + 1;
        }
        self.table.insert(id.0, updated);
        proof {
            assert(self.spec_table() =~= old(self).spec_table().insert(id.0, updated));
            assert(self.spec_table().remove(id.0) =~= old(self).spec_table().remove(id.0));
        }
        true
    }

    pub closed spec fn spec_scheduler(&self) -> AdaptiveScheduler {
        self.scheduler
    }

    /// Picks a backend for a task under the configured policy, consulting
    /// its hint first: exactly the choice `spec_backend_choice` names over
    /// the task's hint and payload size, or `BackendUnavailable` when it
    /// names none.
    pub fn select_backend(&mut self, task: &Task) -> (r: Result<usize, EngineError>)
        ensures
            final(self).spec_table() == old(self).spec_table(),
            final(self).spec_backends() == old(self).spec_backends(),
            r matches Ok(i) ==> (i as int) < old(self).spec_backends().len() && backend_usable(
                old(self).spec_backends()[i as int],
            ),
            match spec_backend_choice(
                old(self).spec_scheduler(),
                old(self).spec_backends(),
                spec_task_hints(*task),
                task.payload@.len(),
            ) {
                Some(i) => r == Ok::<usize, EngineError>(i as usize),
                None => r == Err::<usize, EngineError>(EngineError::BackendUnavailable),
            },
    {
        let mut hints: Vec<BackendType> = Vec::new();
        if let Some(tag) = task.backend_hint {
            hints.push(tag);
        }
        proof {
            assert(hints@ =~= spec_task_hints(*task));
        }
        let input_len = task.payload.len();
        self.scheduler.select_for(&self.backends, &hints, input_len)
    }

    /// Notes one more job in flight on a backend.
    pub fn backend_started(&mut self, i: usize)
        requires
            (i as int) < old(self).spec_backends().len(),
            old(self).spec_backends()[i as int].in_flight < usize::MAX,
        ensures
            final(self).spec_backends() == old(self).spec_backends().update(
                i as int,
                (Backend {
                    in_flight: (old(self).spec_backends()[i as int].in_flight + 1) as usize,
                    ..old(self).spec_backends()[i as int]
                }),
            ),
            final(self).spec_table() == old(self).spec_table(),
            final(self).spec_clock() == old(self).spec_clock(),
            final(self).spec_next_id() == old(self).spec_next_id(),
            forall|p: Priority|
                final(self).spec_queue_band(p) == old(self).spec_queue_band(p),
            old(self).wf() ==> final(self).wf(),
    {
        let b = self.backends[i];
        self.backends.set(i, Backend { in_flight: b.in_flight + 1, ..b });
    }

    /// Notes one job done on a backend.
    pub fn backend_finished(&mut self, i: usize)
        requires
            (i as int) < old(self).spec_backends().len(),
            old(self).spec_backends()[i as int].in_flight > 0,
        ensures
            final(self).spec_backends() == old(self).spec_backends().update(
                i as int,
                (Backend {
                    in_flight: (old(self).spec_backends()[i as int].in_flight - 1) as usize,
                    ..old(self).spec_backends()[i as int]
                }),
            ),
            final(self).spec_table() == old(self).spec_table(),
            final(self).spec_clock() == old(self).spec_clock(),
            final(self).spec_next_id() == old(self).spec_next_id(),
            forall|p: Priority|
                final(self).spec_queue_band(p) == old(self).spec_queue_band(p),
            old(self).wf() ==> final(self).wf(),
    {
        let b = self.backends[i];
        self.backends.set(i, Backend { in_flight: b.in_flight - 1, ..b });
    }

    /// The registered backend at an index.
    pub fn backend_at(&self, i: usize) -> (r: Backend)
        requires
            (i as int) < self.spec_backends().len(),
        ensures
            r == self.spec_backends()[i as int],
    {
        self.backends[i]
    }

    /// How many backends are registered.
    pub fn backend_count(&self) -> (r: usize)
        ensures
            r as nat == self.spec_backends().len(),
    {
        self.backends.len()
    }

    /// Quiesces the orchestrator: the shutdown flag is raised and every
    /// backend is closed, so nothing further is scheduled onto them.
    pub fn shutdown(&mut self)
        requires
            old(self).wf(),
        ensures
            final(self).wf(),
            final(self).spec_shutdown(),
            final(self).spec_table() == old(self).spec_table(),
            final(self).spec_backends().len() == old(self).spec_backends().len(),
            forall|k: int|
                0 <= k < old(self).spec_backends().len() ==> final(self).spec_backends()[k] == (
                Backend { closed: true, ..old(self).spec_backends()[k] }),
    {
        self.shutdown = true;
        let mut i: usize = 0;
        while i < self.backends.len()
            invariant
                old(self).wf(),
                i <= self.backends@.len(),
                self.backends@.len() == old(self).spec_backends().len(),
                self.table@ == old(self).spec_table(),
                self.clock@ == old(self).spec_clock(),
                self.next_id == old(self).spec_next_id(),
                self.shutdown,
                forall|k: int|
                    0 <= k < i ==> self.backends@[k] == (Backend {
                        closed: true,
                        ..old(self).spec_backends()[k]
                    }),
                forall|k: int|
                    i <= k < self.backends@.len() ==> self.backends@[k] == old(
                        self,
                    ).spec_backends()[k],
            decreases self.backends@.len() - i,
        {
            let b = self.backends[i];
            self.backends.set(i, Backend { closed: true, ..b });
            i += 1;
        }
    }

    /// Whether the orchestrator has been shut down.
    pub fn is_shutdown(&self) -> (r: bool)
        ensures
            r == self.spec_shutdown(),
    {
        self.shutdown
    }

    /// Dependency ordering: in a well-formed orchestrator, every task that
    /// has started did so strictly after each of its dependencies
    /// completed.
    pub proof fn lemma_dependency_ordering(&self, id: u64, k: int)
        requires
            self.wf(),
            self.spec_table().dom().contains(id),
            self.spec_table()[id].start_time@ is Some,
            0 <= k < self.spec_table()[id].task.dependencies@.len(),
        ensures
            ({
                let m = self.spec_table();
                let s = m[id].start_time@->Some_0;
                let d = m[id].task.dependencies@[k].0;
                &&& m.dom().contains(d)
                &&& m[d].status is Completed
                &&& m[d].complete_time@ matches Some(c) && c < s
            }),
    {
        let m = self.spec_table();
        assert(record_wf(m, id, self.spec_clock(), self.spec_next_id()));
        let s = m[id].start_time@->Some_0;
        assert(dep_done_before(m, m[id].task.dependencies@[k].0, s));
    }
}



/// What the worker does with a failed attempt.
#[derive(Debug, Clone, Copy, PartialEq, Eq, Structural)]
pub enum RetryAction {
    /// Re-queue the job after the given backoff.
    Retry { backoff_ms: u64 },
    /// Mark the job terminally failed.
    Fail,
    /// Mark the job cancelled.
    Cancel,
}

/// The base of the exponential backoff, in milliseconds.
pub const BASE_BACKOFF_MS: u64 = 100;

/// The exponential backoff before the given retry: the base doubled per
/// attempt, capped at the sixteenth doubling.
pub open spec fn spec_backoff_ms(attempts: u32) -> u64 {
    if attempts >= 16 {
        (BASE_BACKOFF_MS * 65536) as u64
    } else {
        (BASE_BACKOFF_MS * vstd::arithmetic::power2::pow2(attempts as nat)) as u64
    }
}

/// The exponential backoff before the given retry.
pub fn backoff_ms(attempts: u32) -> (r: u64)
    ensures
        r == spec_backoff_ms(attempts),
{
    let exponent: u32 = if attempts >= 16 {
        16
    } else {
        attempts
    };
    proof {
        lemma_small_pow2(exponent as nat);
    }
    let factor: u64 = 1u64 << (exponent as u64);
    proof {
        vstd::arithmetic::power2::lemma2_to64();
        vstd::bits::lemma_u64_shl_is_mul(1u64, exponent as u64);
    }
    BASE_BACKOFF_MS * factor
}

proof fn lemma_small_pow2(e: nat)
    requires
        e <= 16,
    ensures
        vstd::arithmetic::power2::pow2(e) <= 65536,
{
    vstd::arithmetic::power2::lemma2_to64();
    if e == 16 {
        vstd::arithmetic::power2::lemma_pow2_unfold(16);
    }
}

/// How a failed attempt propagates: errors that are a property of the job
/// end it at once (cancellation as Cancelled, the rest as Failed);
/// engine-invariant violations end it and are never retried; backend
/// ill-health and an unavailable backend earn another attempt with
/// exponential backoff, until the retry budget runs out.
pub open spec fn spec_retry_decision(error: EngineError, attempts: u32, max_retries: u32) -> RetryAction {
    match error {
        EngineError::Cancelled => RetryAction::Cancel,
        EngineError::Capacity => RetryAction::Fail,
        EngineError::Module => RetryAction::Fail,
        EngineError::Timeout => RetryAction::Fail,
        EngineError::Verify => RetryAction::Fail,
        EngineError::DependencyFailed => RetryAction::Fail,
        EngineError::Concurrency => RetryAction::Fail,
        EngineError::RouteMismatch => RetryAction::Fail,
        EngineError::BackendClosed => RetryAction::Fail,
        EngineError::Backend(_, _) => if attempts < max_retries {
            RetryAction::Retry { backoff_ms: spec_backoff_ms(attempts) }
        } else {
            RetryAction::Fail
        },
        EngineError::Provider => if attempts < max_retries {
            RetryAction::Retry { backoff_ms: spec_backoff_ms(attempts) }
        } else {
            RetryAction::Fail
        },
        EngineError::BackendUnavailable => if attempts < max_retries {
            RetryAction::Retry { backoff_ms: spec_backoff_ms(attempts) }
        } else {
            RetryAction::Fail
        },
    }
}

/// Decides what a failed attempt means for the job; see
/// [`spec_retry_decision`].
pub fn retry_decision(error: &EngineError, attempts: u32, max_retries: u32) -> (r: RetryAction)
    ensures
        r == spec_retry_decision(*error, attempts, max_retries),
{
    match error {
        EngineError::Cancelled => RetryAction::Cancel,
        EngineError::Capacity => RetryAction::Fail,
        EngineError::Module => RetryAction::Fail,
        EngineError::Timeout => RetryAction::Fail,
        EngineError::Verify => RetryAction::Fail,
        EngineError::DependencyFailed => RetryAction::Fail,
        EngineError::Concurrency => RetryAction::Fail,
        EngineError::RouteMismatch => RetryAction::Fail,
        EngineError::BackendClosed => RetryAction::Fail,
        EngineError::Backend(_, _) | EngineError::Provider | EngineError::BackendUnavailable => {
            if attempts < max_retries {
                RetryAction::Retry { backoff_ms: backoff_ms(attempts) }
            } else {
                RetryAction::Fail
            }
        },
    }
}

} // verus!
