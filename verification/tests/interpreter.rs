use flock::ByteCode;
use flock::ConditionFlags;
use flock::Execution;
use flock::ExecutionError;
use flock::OpCode;
use flock::Task;

fn code(ops: Vec<OpCode>) -> ByteCode {
    ByteCode::new(ops)
}

fn run_task(ops: Vec<OpCode>) -> (Task, Result<Execution, ExecutionError>) {
    let bytecode = code(ops);
    let mut task = Task::new();
    let result = task.run(&bytecode);
    (task, result)
}

#[test]
fn push_advances_and_stacks() {
    let bytecode = code(vec![OpCode::Push(7), OpCode::Halt]);
    let mut task = Task::new();
    assert_eq!(task.tick(&bytecode), Ok(Execution::Continue));
    assert_eq!(task.stack, vec![7]);
    assert_eq!(task.program_counter, 1);
}

#[test]
fn arithmetic_scenario() {
    let (task, result) = run_task(vec![
        OpCode::Push(2),
        OpCode::Push(3),
        OpCode::Add,
        OpCode::Halt,
    ]);
    assert_eq!(result, Ok(Execution::Terminated));
    assert_eq!(task.stack, vec![5]);
}

#[test]
fn add_wraps_on_overflow() {
    let (task, result) = run_task(vec![
        OpCode::Push(i64::MAX),
        OpCode::Push(1),
        OpCode::Add,
        OpCode::Halt,
    ]);
    assert_eq!(result, Ok(Execution::Terminated));
    assert_eq!(task.stack, vec![i64::MIN]);
}

#[test]
fn add_wraps_on_underflow() {
    let (task, _) = run_task(vec![
        OpCode::Push(i64::MIN),
        OpCode::Push(-1),
        OpCode::Add,
        OpCode::Halt,
    ]);
    assert_eq!(task.stack, vec![i64::MAX]);
}

#[test]
fn add_needs_two_operands() {
    let (_, result) = run_task(vec![OpCode::Push(1), OpCode::Add]);
    assert_eq!(result, Err(ExecutionError::PopFromEmptyStack));
}

#[test]
fn conditional_jump_scenario() {
    // Jump taken because the top is 0; the zero condition peeks, not pops.
    let (task, result) = run_task(vec![
        OpCode::Push(0),
        OpCode::Jump(ConditionFlags::zero(), Some(4)),
        OpCode::Push(1),
        OpCode::Halt,
        OpCode::Push(2),
        OpCode::Halt,
    ]);
    assert_eq!(result, Ok(Execution::Terminated));
    assert_eq!(task.stack, vec![0, 2]);
}

#[test]
fn conditional_jump_not_taken() {
    let (task, _) = run_task(vec![
        OpCode::Push(1),
        OpCode::Jump(ConditionFlags::zero(), Some(4)),
        OpCode::Push(9),
        OpCode::Halt,
        OpCode::Push(2),
        OpCode::Halt,
    ]);
    assert_eq!(task.stack, vec![1, 9]);
}

#[test]
fn empty_flags_jump_always() {
    let (task, _) = run_task(vec![
        OpCode::Jump(ConditionFlags::empty(), Some(2)),
        OpCode::Push(1),
        OpCode::Push(2),
        OpCode::Halt,
    ]);
    assert_eq!(task.stack, vec![2]);
}

#[test]
fn jump_consumes_popped_target_even_when_not_taken() {
    // Target comes from the stack; condition fails, but the target is
    // still consumed.
    let (task, _) = run_task(vec![
        OpCode::Push(1),
        OpCode::Push(40),
        OpCode::Jump(ConditionFlags::zero(), None),
        OpCode::Halt,
    ]);
    // zero condition peeked 40 (nonzero): no jump; 40 popped as target.
    assert_eq!(task.stack, vec![1]);
    assert_eq!(task.program_counter, 3);
}

#[test]
fn jump_fork_condition() {
    let bytecode = code(vec![
        OpCode::Jump(ConditionFlags::fork(), Some(3)),
        OpCode::Push(1),
        OpCode::Halt,
        OpCode::Push(2),
        OpCode::Halt,
    ]);
    let mut not_forked = Task::new();
    let _ = not_forked.run(&bytecode);
    assert_eq!(not_forked.stack, vec![1]);

    let mut forked = Task::new();
    forked.forked = true;
    let _ = forked.run(&bytecode);
    assert_eq!(forked.stack, vec![2]);
}

#[test]
fn jump_zero_peeks_empty_stack() {
    let (_, result) = run_task(vec![OpCode::Jump(ConditionFlags::zero(), Some(0))]);
    assert_eq!(result, Err(ExecutionError::PeekFromEmptyStack));
}

#[test]
fn subroutine_scenario() {
    // A balanced subroutine: dredge the argument above the return
    // address, add 1, bury the sum back under it, return.
    let (task, result) = run_task(vec![
        OpCode::Push(10),
        OpCode::JumpToSubroutine(Some(3)),
        OpCode::Halt,
        OpCode::Dredge(1),
        OpCode::Push(1),
        OpCode::Add,
        OpCode::Bury(1),
        OpCode::Return,
    ]);
    assert_eq!(result, Ok(Execution::Terminated));
    assert_eq!(task.stack, vec![11]);
}

#[test]
fn jsr_pushes_following_index() {
    let bytecode = code(vec![
        OpCode::Push(10),
        OpCode::JumpToSubroutine(Some(4)),
        OpCode::Halt,
        OpCode::Halt,
        OpCode::Halt,
    ]);
    let mut task = Task::new();
    let _ = task.tick(&bytecode);
    let _ = task.tick(&bytecode);
    assert_eq!(task.stack, vec![10, 2]);
    assert_eq!(task.program_counter, 4);
}

#[test]
fn jsr_popped_target_pushes_return_after_pop() {
    let bytecode = code(vec![OpCode::Push(5), OpCode::JumpToSubroutine(None), OpCode::Halt]);
    let mut task = Task::new();
    let _ = task.tick(&bytecode);
    let _ = task.tick(&bytecode);
    // The target 5 was popped first, then the return index 2 pushed.
    assert_eq!(task.stack, vec![2]);
    assert_eq!(task.program_counter, 5);
}

#[test]
fn ret_restores_popped_index() {
    let (task, result) = run_task(vec![OpCode::Push(2), OpCode::Return, OpCode::Halt]);
    assert_eq!(result, Ok(Execution::Terminated));
    assert_eq!(task.stack, Vec::<i64>::new());
    assert_eq!(task.program_counter, 2);
}

#[test]
fn duplicate_and_pop() {
    let (task, _) = run_task(vec![
        OpCode::Push(4),
        OpCode::Duplicate,
        OpCode::Push(9),
        OpCode::Pop,
        OpCode::Halt,
    ]);
    assert_eq!(task.stack, vec![4, 4]);
}

#[test]
fn duplicate_empty_stack_peeks() {
    let (_, result) = run_task(vec![OpCode::Duplicate]);
    assert_eq!(result, Err(ExecutionError::PeekFromEmptyStack));
}

#[test]
fn bury_inserts_at_depth() {
    let (task, _) = run_task(vec![
        OpCode::Push(1),
        OpCode::Push(2),
        OpCode::Push(3),
        OpCode::Bury(2),
        OpCode::Halt,
    ]);
    // 3 popped and inserted at depth 2 of the remaining [1, 2].
    assert_eq!(task.stack, vec![3, 1, 2]);
}

#[test]
fn bury_zero_is_identity() {
    let (task, _) = run_task(vec![OpCode::Push(1), OpCode::Push(2), OpCode::Bury(0), OpCode::Halt]);
    assert_eq!(task.stack, vec![1, 2]);
}

#[test]
fn bury_out_of_range() {
    let (_, result) = run_task(vec![OpCode::Push(1), OpCode::Push(2), OpCode::Bury(2)]);
    assert_eq!(result, Err(ExecutionError::BuryOutOfRange(2)));
}

#[test]
fn bury_empty_stack_pops() {
    let (_, result) = run_task(vec![OpCode::Bury(0)]);
    assert_eq!(result, Err(ExecutionError::PopFromEmptyStack));
}

#[test]
fn dredge_moves_to_top() {
    let (task, _) = run_task(vec![
        OpCode::Push(1),
        OpCode::Push(2),
        OpCode::Push(3),
        OpCode::Dredge(2),
        OpCode::Halt,
    ]);
    assert_eq!(task.stack, vec![2, 3, 1]);
}

#[test]
fn dredge_out_of_range() {
    let (_, result) = run_task(vec![OpCode::Push(1), OpCode::Dredge(1)]);
    assert_eq!(result, Err(ExecutionError::DredgeOutOfRange(1)));
}

#[test]
fn panic_opcode_fails() {
    let (_, result) = run_task(vec![OpCode::Panic]);
    assert_eq!(result, Err(ExecutionError::Panic));
}

#[test]
fn out_of_range_pc_terminates() {
    let (task, result) = run_task(vec![OpCode::Push(1)]);
    assert_eq!(result, Ok(Execution::Terminated));
    assert_eq!(task.stack, vec![1]);
}

#[test]
fn fork_yields_after_advancing() {
    let bytecode = code(vec![OpCode::Fork, OpCode::Halt]);
    let mut task = Task::new();
    assert_eq!(task.tick(&bytecode), Ok(Execution::Fork));
    assert_eq!(task.program_counter, 1);
}

#[test]
fn join_pops_task_id() {
    let bytecode = code(vec![OpCode::Push(77), OpCode::Join(2), OpCode::Halt]);
    let mut task = Task::new();
    let _ = task.tick(&bytecode);
    assert_eq!(task.tick(&bytecode), Ok(Execution::Join { task_id: 77, count: 2 }));
    assert_eq!(task.stack, Vec::<i64>::new());
}

#[test]
fn join_negative_count_clamps_to_zero() {
    let bytecode = code(vec![OpCode::Push(1), OpCode::Join(-3)]);
    let mut task = Task::new();
    let _ = task.tick(&bytecode);
    assert_eq!(task.tick(&bytecode), Ok(Execution::Join { task_id: 1, count: 0 }));
}

#[test]
fn store_yields_popped_value() {
    let bytecode = code(vec![OpCode::Push(42), OpCode::Store(0x100)]);
    let mut task = Task::new();
    let _ = task.tick(&bytecode);
    assert_eq!(task.tick(&bytecode), Ok(Execution::Store { addr: 0x100, value: 42 }));
    assert_eq!(task.stack, Vec::<i64>::new());
}

#[test]
fn store_relative_adds_base() {
    let bytecode = code(vec![
        OpCode::Push(5),
        OpCode::Push(0x100),
        OpCode::StoreRelative(0x10),
    ]);
    let mut task = Task::new();
    let _ = task.tick(&bytecode);
    let _ = task.tick(&bytecode);
    assert_eq!(task.tick(&bytecode), Ok(Execution::Store { addr: 0x110, value: 5 }));
}

#[test]
fn load_yields_address() {
    let bytecode = code(vec![OpCode::Load(0x200)]);
    let mut task = Task::new();
    assert_eq!(task.tick(&bytecode), Ok(Execution::Load { addr: 0x200 }));
}

#[test]
fn load_relative_pops_base() {
    let bytecode = code(vec![OpCode::Push(0x80), OpCode::LoadRelative(0x20)]);
    let mut task = Task::new();
    let _ = task.tick(&bytecode);
    assert_eq!(task.tick(&bytecode), Ok(Execution::Load { addr: 0xA0 }));
    assert_eq!(task.stack, Vec::<i64>::new());
}

#[test]
fn dump_debug_keeps_stack() {
    let (task, _) = run_task(vec![OpCode::Push(3), OpCode::DumpDebug, OpCode::Halt]);
    assert_eq!(task.stack, vec![3]);
}

#[test]
fn pop_from_empty_stack() {
    let (_, result) = run_task(vec![OpCode::Pop]);
    assert_eq!(result, Err(ExecutionError::PopFromEmptyStack));
}

#[test]
fn error_leaves_state_unchanged() {
    let bytecode = code(vec![OpCode::Push(1), OpCode::Add]);
    let mut task = Task::new();
    let _ = task.tick(&bytecode);
    let result = task.tick(&bytecode);
    assert_eq!(result, Err(ExecutionError::PopFromEmptyStack));
    assert_eq!(task.stack, vec![1]);
    assert_eq!(task.program_counter, 1);
}
