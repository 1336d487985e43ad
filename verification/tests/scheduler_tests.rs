//! The priority queue, the policy scheduler and the task orchestrator.

use reassembly::backends::Backend;
use reassembly::backends::BackendCapabilities;
use reassembly::scheduler::AdaptiveScheduler;
use reassembly::scheduler::Priority;
use reassembly::scheduler::PriorityQueues;
use reassembly::scheduler::Task;
use reassembly::scheduler::TaskScheduler;
use reassembly::scheduler::TaskStatus;
use reassembly::scheduler::backoff_ms;
use reassembly::scheduler::retry_decision;
use reassembly::scheduler::RetryAction;
use reassembly::types::BackendType;
use reassembly::types::EngineError;
use reassembly::types::SchedulingPolicy;

fn plain_backend(tag: BackendType) -> Backend {
    Backend {
        backend_type: tag,
        capabilities: BackendCapabilities {
            max_memory: 1024 * 1024,
            max_threads: 4,
            supports_float16: false,
            supports_float32: true,
            supports_float64: true,
            supports_int8: true,
            supports_tensor_ops: false,
            supports_async: true,
        },
        available: true,
        closed: false,
        in_flight: 0,
    }
}

#[test]
fn test_priority_queues() {
    let mut queues = PriorityQueues::new();

    let critical = Task::new(vec![]).with_priority(Priority::Critical);
    let high = Task::new(vec![]).with_priority(Priority::High);
    let normal = Task::new(vec![]).with_priority(Priority::Normal);
    let low = Task::new(vec![]).with_priority(Priority::Low);

    queues.push(low);
    queues.push(normal);
    queues.push(critical);
    queues.push(high);

    // Should pop in priority order
    assert_eq!(queues.pop().unwrap().priority, Priority::Critical);
    assert_eq!(queues.pop().unwrap().priority, Priority::High);
    assert_eq!(queues.pop().unwrap().priority, Priority::Normal);
    assert_eq!(queues.pop().unwrap().priority, Priority::Low);
    assert!(queues.is_empty());
}

#[test]
fn test_task_scheduler() {
    let mut scheduler = TaskScheduler::new(Vec::new(), SchedulingPolicy::RoundRobin, 4);

    // Submit tasks
    let task1 = Task::new(vec![1, 2, 3]).with_priority(Priority::High);
    let id1 = scheduler.submit(task1).unwrap();

    let task2 = Task::new(vec![4, 5, 6])
        .with_priority(Priority::Normal)
        .with_dependencies(vec![id1]);
    let id2 = scheduler.submit(task2).unwrap();

    // Check status
    assert!(scheduler.status(id1).is_some());
    assert!(scheduler.status(id2).is_some());
}

#[test]
fn priority_preemption_single_worker() {
    // A critical job submitted after a low one still completes first.
    let mut orch = TaskScheduler::new(Vec::new(), SchedulingPolicy::RoundRobin, 1);
    let low_id = orch.submit(Task::new(vec![2]).with_priority(Priority::Low)).unwrap();
    let critical_id = orch.submit(Task::new(vec![3]).with_priority(Priority::Critical)).unwrap();

    let mut completion_order = Vec::new();
    while let Some(task) = orch.next_ready() {
        assert!(orch.start_task(task.id));
        assert!(orch.complete_task(task.id, task.payload.clone()));
        completion_order.push(task.id);
    }
    assert_eq!(completion_order, vec![critical_id, low_id]);
}

#[test]
fn fifo_within_a_band() {
    let mut orch = TaskScheduler::new(Vec::new(), SchedulingPolicy::RoundRobin, 1);
    let first = orch.submit(Task::new(vec![1]).with_priority(Priority::Normal)).unwrap();
    let second = orch.submit(Task::new(vec![2]).with_priority(Priority::Normal)).unwrap();
    let t1 = orch.next_ready().unwrap();
    assert_eq!(t1.id, first);
    orch.start_task(t1.id);
    orch.complete_task(t1.id, vec![]);
    let t2 = orch.next_ready().unwrap();
    assert_eq!(t2.id, second);
}

#[test]
fn dependency_gates_start() {
    let mut orch = TaskScheduler::new(Vec::new(), SchedulingPolicy::RoundRobin, 1);
    let a = orch.submit(Task::new(vec![4])).unwrap();
    let b = orch.submit(Task::new(vec![5]).with_dependencies(vec![a])).unwrap();

    // Only the predecessor is ready at first.
    let first = orch.next_ready().unwrap();
    assert_eq!(first.id, a);
    // The dependent cannot start before the predecessor completed.
    assert!(!orch.start_task(b));
    assert!(orch.start_task(a));
    assert!(orch.complete_task(a, vec![42]));

    let second = orch.next_ready().unwrap();
    assert_eq!(second.id, b);
    assert!(orch.start_task(b));
    assert!(orch.complete_task(b, vec![43]));
    match orch.status(b).unwrap() {
        TaskStatus::Completed(bytes) => assert_eq!(bytes, vec![43]),
        other => panic!("unexpected status {:?}", other),
    }
}

#[test]
fn timeout_marks_failed() {
    // The worker observes the deadline and fails the task with "timeout".
    let mut orch = TaskScheduler::new(Vec::new(), SchedulingPolicy::RoundRobin, 1);
    let id = orch.submit(Task::new(vec![9])).unwrap();
    let t = orch.next_ready().unwrap();
    assert!(orch.start_task(t.id));
    assert!(orch.fail_task(id, "timeout".to_string()));
    match orch.status(id).unwrap() {
        TaskStatus::Failed(reason) => assert_eq!(reason, "timeout"),
        other => panic!("unexpected status {:?}", other),
    }
}

#[test]
fn cancel_is_idempotent() {
    let mut orch = TaskScheduler::new(Vec::new(), SchedulingPolicy::RoundRobin, 1);
    let id = orch.submit(Task::new(vec![7])).unwrap();
    orch.cancel(id);
    assert_eq!(orch.status(id), Some(TaskStatus::Cancelled));
    orch.cancel(id);
    assert_eq!(orch.status(id), Some(TaskStatus::Cancelled));
    // A cancelled pending task is dropped at the queue head, never run.
    assert!(orch.next_ready().is_none());
    assert!(!orch.start_task(id));
}

#[test]
fn cancel_unknown_task_changes_nothing() {
    let mut orch = TaskScheduler::new(Vec::new(), SchedulingPolicy::RoundRobin, 1);
    orch.cancel(reassembly::scheduler::TaskId(99));
    assert!(orch.status(reassembly::scheduler::TaskId(99)).is_none());
}

#[test]
fn fastest_policy_ranks_backends() {
    let backends = vec![
        plain_backend(BackendType::Cpu),
        plain_backend(BackendType::Cuda),
        plain_backend(BackendType::Vulkan),
    ];
    let mut sched = AdaptiveScheduler::new(SchedulingPolicy::Fastest);
    let chosen = sched.select_for(&backends, &Vec::new(), 16).unwrap();
    assert_eq!(chosen, 1);

    let mut cost = AdaptiveScheduler::new(SchedulingPolicy::CostOptimized);
    let cheapest = cost.select_for(&backends, &Vec::new(), 16).unwrap();
    assert_eq!(cheapest, 0);
}

#[test]
fn hints_win_over_policy() {
    let backends = vec![plain_backend(BackendType::Cpu), plain_backend(BackendType::Cuda)];
    let mut sched = AdaptiveScheduler::new(SchedulingPolicy::Fastest);
    let chosen = sched.select_for(&backends, &vec![BackendType::Cpu], 16).unwrap();
    assert_eq!(chosen, 0);
}

#[test]
fn least_loaded_prefers_idle_backend() {
    let mut busy = plain_backend(BackendType::Cpu);
    busy.in_flight = 5;
    let idle = plain_backend(BackendType::Cuda);
    let backends = vec![busy, idle];
    let mut sched = AdaptiveScheduler::new(SchedulingPolicy::LeastLoaded);
    assert_eq!(sched.select_for(&backends, &Vec::new(), 16).unwrap(), 1);
}

#[test]
fn adaptive_prefers_cpu_for_small_inputs() {
    let backends = vec![plain_backend(BackendType::Cuda), plain_backend(BackendType::Cpu)];
    let mut sched = AdaptiveScheduler::new(SchedulingPolicy::Adaptive);
    assert_eq!(sched.select_for(&backends, &Vec::new(), 64).unwrap(), 1);
}

#[test]
fn round_robin_rotates() {
    let backends = vec![plain_backend(BackendType::Cpu), plain_backend(BackendType::Cuda)];
    let mut sched = AdaptiveScheduler::new(SchedulingPolicy::RoundRobin);
    let first = sched.select_for(&backends, &Vec::new(), 1).unwrap();
    let second = sched.select_for(&backends, &Vec::new(), 1).unwrap();
    assert_eq!(first, 0);
    assert_eq!(second, 1);
}

#[test]
fn no_usable_backend_is_reported() {
    let mut closed = plain_backend(BackendType::Cpu);
    closed.closed = true;
    let mut sched = AdaptiveScheduler::new(SchedulingPolicy::Fastest);
    assert!(sched.select_for(&vec![closed], &Vec::new(), 1).is_err());
}

#[test]
fn retry_policy_follows_the_error_taxonomy() {
    // Job-property errors end the job at once.
    assert_eq!(retry_decision(&EngineError::Timeout, 0, 3), RetryAction::Fail);
    assert_eq!(retry_decision(&EngineError::Module, 0, 3), RetryAction::Fail);
    assert_eq!(retry_decision(&EngineError::Cancelled, 0, 3), RetryAction::Cancel);
    // Engine-invariant violations are never retried.
    assert_eq!(retry_decision(&EngineError::RouteMismatch, 0, 3), RetryAction::Fail);
    assert_eq!(retry_decision(&EngineError::Concurrency, 0, 3), RetryAction::Fail);
    // Backend ill-health earns retries with exponential backoff until the
    // budget runs out.
    assert_eq!(
        retry_decision(&EngineError::BackendUnavailable, 0, 3),
        RetryAction::Retry { backoff_ms: 100 }
    );
    assert_eq!(
        retry_decision(&EngineError::Backend(BackendType::Cuda, "device fault".to_string()), 2, 3),
        RetryAction::Retry { backoff_ms: 400 }
    );
    assert_eq!(retry_decision(&EngineError::Provider, 3, 3), RetryAction::Fail);
    // The backoff doubles per attempt and caps.
    assert_eq!(backoff_ms(0), 100);
    assert_eq!(backoff_ms(4), 1600);
    assert_eq!(backoff_ms(20), 100 * 65536);
}
