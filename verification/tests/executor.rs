use std::sync::Arc;

use flock::apply_join;
use flock::fork_task;
use flock::remote_step;
use flock::ByteCode;
use flock::ConditionFlags;
use flock::Executor;
use flock::ExecutionError;
use flock::OpCode;
use flock::RemoteAction;
use flock::RunError;
use flock::Task;
use flock::TaskOrder;
use flock::TaskQueue;
use flock::VmHandle;

fn vm_with(ops: Vec<OpCode>) -> (TaskQueue<TaskOrder>, Arc<VmHandle>, Executor) {
    let queue = TaskQueue::new();
    let shared = Arc::new(VmHandle::new());
    shared.register_bytecode(0, Arc::new(ByteCode::new(ops)));
    let executor = Executor::new(queue.handle(), shared.clone());
    (queue, shared, executor)
}

fn root() -> TaskOrder {
    TaskOrder { id: 0, task: Task::new(), bytecode_id: 0 }
}

#[test]
fn fork_join_sum_scenario() {
    // Fork; the child pushes 7 and halts; the parent joins the child
    // with count 1: its stack ends with 7.
    let (_queue, _shared, mut executor) = vm_with(vec![
        OpCode::Fork,
        OpCode::Jump(ConditionFlags::fork(), Some(4)),
        OpCode::Join(1),
        OpCode::Halt,
        OpCode::Push(7),
        OpCode::Halt,
    ]);
    let done = executor.run_to_completion(root()).unwrap();
    assert_eq!(done.id, 0);
    assert_eq!(done.task.stack.last(), Some(&7));
}

#[test]
fn fork_pushes_id_pair_on_both_stacks() {
    let mut parent = TaskOrder { id: 17, task: Task::new(), bytecode_id: 0 };
    parent.task.stack.push(99);
    parent.task.forked = true;
    let child = fork_task(&mut parent, 41);
    assert_eq!(parent.task.stack, vec![99, 17, 41]);
    assert_eq!(child.task.stack, vec![99, 17, 41]);
    assert!(child.task.forked);
    assert!(!parent.task.forked);
    assert_eq!(child.id, 41);
    assert_eq!(child.bytecode_id, 0);
    assert_eq!(parent.id, 17);
}

#[test]
fn join_appends_last_count_in_order() {
    let mut task = Task::new();
    task.stack.push(1);
    let joined = vec![10, 20, 30, 40];
    apply_join(&mut task, &joined, 2);
    assert_eq!(task.stack, vec![1, 30, 40]);
}

#[test]
fn join_count_beyond_length_takes_all() {
    let mut task = Task::new();
    let joined = vec![5, 6];
    apply_join(&mut task, &joined, 10);
    assert_eq!(task.stack, vec![5, 6]);
}

#[test]
fn deadlock_detection_scenario() {
    // A join on a task id that never appears, with no other work
    // enqueued, fails with UnableToProgress instead of hanging.
    let (_queue, _shared, mut executor) = vm_with(vec![
        OpCode::Push(123456),
        OpCode::Join(1),
        OpCode::Halt,
    ]);
    let result = executor.run_to_completion(root());
    assert_eq!(result.unwrap_err(), ExecutionError::UnableToProgress);
}

#[test]
fn shared_memory_visible_after_join() {
    // The child stores 42 at 0x100 and halts; the parent joins it and
    // then loads 0x100: the parent's top of stack is 42.
    let (_queue, _shared, mut executor) = vm_with(vec![
        OpCode::Fork,
        OpCode::Jump(ConditionFlags::fork(), Some(5)),
        OpCode::Join(0),
        OpCode::Load(0x100),
        OpCode::Halt,
        OpCode::Push(42),
        OpCode::Store(0x100),
        OpCode::Halt,
    ]);
    let done = executor.run_to_completion(root()).unwrap();
    assert_eq!(done.task.stack.last(), Some(&42));
}

#[test]
fn store_and_load_roundtrip() {
    let shared = VmHandle::new();
    assert_eq!(shared.load(0x500), 0);
    shared.store(0x500, -9);
    assert_eq!(shared.load(0x500), -9);
    shared.store(0x500, 11);
    assert_eq!(shared.load(0x500), 11);
}

#[test]
fn child_failure_propagates_to_joiner() {
    // The child panics; the parent's join surfaces the child's error.
    let (_queue, _shared, mut executor) = vm_with(vec![
        OpCode::Fork,
        OpCode::Jump(ConditionFlags::fork(), Some(4)),
        OpCode::Join(1),
        OpCode::Halt,
        OpCode::Panic,
    ]);
    let result = executor.run_to_completion(root());
    assert_eq!(result.unwrap_err(), ExecutionError::Panic);
}

#[test]
fn finished_map_consumed_exactly_once() {
    let (_queue, shared, mut executor) = vm_with(vec![
        OpCode::Fork,
        OpCode::Jump(ConditionFlags::fork(), Some(4)),
        OpCode::Join(1),
        OpCode::Halt,
        OpCode::Push(7),
        OpCode::Halt,
    ]);
    let _ = executor.run_to_completion(root()).unwrap();
    // Every forked task's result was published once and consumed once.
    assert_eq!(shared.pending_results(), 0);
}

#[test]
fn take_finished_removes_the_entry() {
    let shared = VmHandle::new();
    shared.publish_finished(9, Ok(TaskOrder { id: 9, task: Task::new(), bytecode_id: 0 }));
    assert_eq!(shared.pending_results(), 1);
    assert!(shared.take_finished(9).is_some());
    assert!(shared.take_finished(9).is_none());
    assert_eq!(shared.pending_results(), 0);
}

#[test]
fn publish_reports_previous_entry() {
    let shared = VmHandle::new();
    assert!(shared.publish_finished(3, Err(ExecutionError::Panic)).is_none());
    assert!(shared.publish_finished(3, Err(ExecutionError::Panic)).is_some());
}

#[test]
fn run_drives_root_to_completion() {
    let result = flock::run(ByteCode::new(vec![
        OpCode::Push(2),
        OpCode::Push(3),
        OpCode::Add,
        OpCode::Halt,
    ]));
    assert!(result.is_ok());
}

#[test]
fn run_reports_root_error() {
    let result = flock::run(ByteCode::new(vec![OpCode::Panic]));
    assert_eq!(result.unwrap_err(), ExecutionError::Panic);
}

#[test]
fn unregistered_bytecode_cannot_progress() {
    let queue = TaskQueue::new();
    let shared = Arc::new(VmHandle::new());
    let mut executor = Executor::new(queue.handle(), shared);
    let result = executor.run_to_completion(root());
    assert_eq!(result.unwrap_err(), ExecutionError::UnableToProgress);
}

#[test]
fn nested_fork_join() {
    // The parent forks; the child forks again; each joins its own child.
    let (_queue, shared, mut executor) = vm_with(vec![
        OpCode::Fork,
        OpCode::Jump(ConditionFlags::fork(), Some(4)),
        OpCode::Join(1),
        OpCode::Halt,
        // first child: fork a grandchild, join it, push its value + halt
        OpCode::Fork,
        OpCode::Jump(ConditionFlags::fork(), Some(8)),
        OpCode::Join(1),
        OpCode::Halt,
        // grandchild
        OpCode::Push(99),
        OpCode::Halt,
    ]);
    let done = executor.run_to_completion(root()).unwrap();
    assert_eq!(done.task.stack.last(), Some(&99));
    assert_eq!(shared.pending_results(), 0);
}

#[test]
fn nonworker_pushes_reach_an_executor() {
    // Work pushed from outside the worker pool is picked up by a
    // worker's tick and its result published under the task's id.
    let queue = TaskQueue::new();
    let shared = Arc::new(VmHandle::new());
    shared.register_bytecode(0, Arc::new(ByteCode::new(vec![OpCode::Push(5), OpCode::Halt])));
    let mut executor = Executor::new(queue.handle(), shared.clone());

    let mut outside = queue.handle();
    outside.push_nonworker(TaskOrder {
        id: 77,
        task: Task::new(),
        bytecode_id: 0,
    });

    // A joining task waiting on 77 makes the executor service the
    // queue until 77's result appears, then imports its top value.
    shared.register_bytecode(9, Arc::new(ByteCode::new(vec![OpCode::Join(1), OpCode::Halt])));
    let mut waiting_task = Task::new();
    waiting_task.stack.push(77);
    let waiting = TaskOrder {
        id: 1,
        task: waiting_task,
        bytecode_id: 9,
    };
    let done = executor.run_to_completion(waiting).unwrap();
    assert_eq!(done.task.stack.last(), Some(&5));
    assert_eq!(shared.pending_results(), 0);
}

#[test]
fn run_to_completion_with_uses_the_given_image() {
    // The bytecode-passing driver ties the outcome to the interpreter:
    // the arithmetic program really terminates with [5].
    let queue = TaskQueue::new();
    let shared = Arc::new(VmHandle::new());
    let mut executor = Executor::new(queue.handle(), shared);
    let image = ByteCode::new(vec![OpCode::Push(2), OpCode::Push(3), OpCode::Add, OpCode::Halt]);
    let done = executor.run_to_completion_with(root(), &image).unwrap();
    assert_eq!(done.task.stack, vec![5]);
    assert_eq!(done.id, 0);
}

#[test]
fn run_to_completion_with_reports_interpreter_errors() {
    let queue = TaskQueue::new();
    let shared = Arc::new(VmHandle::new());
    let mut executor = Executor::new(queue.handle(), shared);
    let image = ByteCode::new(vec![OpCode::Panic]);
    let result = executor.run_to_completion_with(root(), &image);
    assert_eq!(result.unwrap_err(), ExecutionError::Panic);
}

#[test]
fn no_duplicate_publications_in_fork_join() {
    let (_queue, _shared, mut executor) = vm_with(vec![
        OpCode::Fork,
        OpCode::Jump(ConditionFlags::fork(), Some(4)),
        OpCode::Join(1),
        OpCode::Halt,
        OpCode::Push(7),
        OpCode::Halt,
    ]);
    let _ = executor.run_to_completion(root()).unwrap();
    // Ids are globally unique and published once: no collision was seen.
    assert_eq!(executor.duplicate_publications(), 0);
}

#[test]
fn huge_ids_survive_the_stack() {
    // Ids beyond i64::MAX are pushed in two's complement and recovered
    // exactly when a join pops them back.
    let mut parent = TaskOrder { id: u64::MAX, task: Task::new(), bytecode_id: 0 };
    let child = fork_task(&mut parent, u64::MAX - 1);
    assert_eq!(parent.task.stack, vec![-1, -2]);

    let bytecode = ByteCode::new(vec![OpCode::Join(0)]);
    let mut task = Task::new();
    task.stack.push(-2);
    match task.tick(&bytecode) {
        Ok(flock::Execution::Join { task_id, count }) => {
            assert_eq!(task_id, child.id);
            assert_eq!(count, 0);
        }
        other => panic!("expected a join request, got {:?}", other),
    }
}

#[test]
fn remote_step_publishes_success() {
    let order = TaskOrder { id: 4, task: Task::new(), bytecode_id: 0 };
    match remote_step(Ok(order)) {
        RemoteAction::Publish(Ok(done)) => assert_eq!(done.id, 4),
        _ => panic!("expected a published success"),
    }
}

#[test]
fn remote_step_publishes_execution_error() {
    match remote_step(Err(RunError::Execution(ExecutionError::Panic))) {
        RemoteAction::Publish(Err(e)) => assert_eq!(e, ExecutionError::Panic),
        _ => panic!("expected a published error"),
    }
}

#[test]
fn remote_step_retires_on_connection_reset() {
    assert!(matches!(remote_step(Err(RunError::ConnectionReset)), RemoteAction::RequeueAndStop));
}

#[test]
fn remote_step_retries_on_unknown() {
    assert!(matches!(remote_step(Err(RunError::Unknown)), RemoteAction::RequeueAndRetry));
}
