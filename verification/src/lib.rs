//! Flock: a stack-oriented bytecode virtual machine with lightweight
//! fork/join tasks, a work-stealing task queue, and a small assembler
//! back end that turns parsed statements into bytecode.

mod bytecode;
mod compiler;
mod statement;
mod task;
mod task_queue;
mod vm;

pub use compiler::compile_action;
pub use compiler::parse_jump_arg;
pub use compiler::resolve;
pub use compiler::spec_compile_action;
pub use compiler::spec_recognized;
pub use compiler::spec_statement_error;
pub use compiler::spec_compile_all;
pub use compiler::spec_jump_flags;
pub use compiler::spec_lookup;
pub use compiler::spec_pass1_error;
pub use compiler::spec_resolve;
pub use compiler::spec_table;
pub use compiler::spec_to_bytecode;
pub use compiler::to_bytecode;
pub use compiler::CompilationError;
pub use compiler::LabelTable;
pub use statement::Argument;
pub use statement::Statement;

pub use bytecode::ByteCode;
pub use bytecode::ConditionFlags;
pub use bytecode::OpCode;
pub use task::continue_trace;
pub use task::halts_within;
pub use task::initial_task_view;
pub use task::lemma_reaches_counted;
pub use task::lemma_reaches_n_trans;
pub use task::lemma_reaches_trans;
pub use task::lemma_scheduler_free_step;
pub use task::lemma_yield_stops;
pub use task::scheduler_free;
pub use task::join_count;
pub use task::lemma_add_wraps;
pub use task::lemma_jsr_ret;
pub use task::lemma_jump;
pub use task::lemma_pc_roundtrip;
pub use task::lemma_reaches_n_refl;
pub use task::lemma_reaches_n_step;
pub use task::lemma_reaches_n_to_reaches;
pub use task::lemma_state_unique;
pub use task::lemma_yield_deterministic;
pub use task::reaches;
pub use task::reaches_n;
pub use task::rel_address;
pub use task::stack_value;
pub use task::step;
pub use task::target_pc;
pub use task::Execution;
pub use task::ExecutionError;
pub use task::Task;
pub use task::TaskView;
pub use task_queue::classify_receive;
pub use task_queue::drain_step;
pub use task_queue::overflow_amount;
pub use task_queue::should_overflow;
pub use task_queue::ControlFlow;
pub use task_queue::DrainStep;
pub use task_queue::Handle;
pub use task_queue::NextStep;
pub use task_queue::RecvFailure;
pub use task_queue::TaskQueue;
pub use vm::apply_join;
pub use vm::completion_action;
pub use vm::fork_task;
pub use vm::join_adopt;
pub use vm::join_poll;
pub use vm::memory_value;
pub use vm::peer_step;
pub use vm::pull_action;
pub use vm::run;
pub use vm::store_mirror_step;
pub use vm::CompletionAction;
pub use vm::Executor;
pub use vm::JoinAdopt;
pub use vm::JoinPoll;
pub use vm::PeerAction;
pub use vm::PeerReply;
pub use vm::Progress;
pub use vm::PullAction;
pub use vm::RemoteAction;
pub use vm::RunError;
pub use vm::StoreAction;
pub use vm::StoreReply;
pub use vm::TaskOrder;
pub use vm::VmHandle;
pub use vm::remote_step;

