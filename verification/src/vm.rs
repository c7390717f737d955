//! The shared virtual-machine state and the local executor.
//!
//! A [`VmHandle`] holds the process-wide concurrent maps: the finished
//! map (the single-assignment rendezvous between a terminating task and
//! its joiner), the bytecode registry, and the shared memory. An
//! [`Executor`] pulls task orders from the queue and drives the
//! interpreter; it services forks by enqueueing a sibling and joins by
//! busy-ticking other work until the joined task's result appears.
//!
//! The maps are shared between threads, so no call on them can promise
//! what a later call will see; the functional guarantees live in the
//! task-state transformations ([`fork_task`], [`apply_join`]) and in the
//! interpreter itself.

use vstd::prelude::*;

use crate::bytecode::ByteCode;
use crate::bytecode::OpCode;
use crate::task::halts_within;
use crate::task::initial_task_view;
use crate::task::lemma_reaches_counted;
use crate::task::lemma_reaches_n_refl;
use crate::task::lemma_reaches_n_to_reaches;
use crate::task::lemma_reaches_n_trans;
use crate::task::lemma_reaches_trans;
use crate::task::lemma_scheduler_free_step;
use crate::task::lemma_yield_deterministic;
use crate::task::lemma_yield_stops;
use crate::task::reaches;
use crate::task::reaches_n;
use crate::task::scheduler_free;
use crate::task::stack_value;
use crate::task::step;
use crate::task::Execution;
use crate::task::ExecutionError;
use crate::task::Task;
use crate::task::TaskView;
use crate::task_queue::ControlFlow;
use crate::task_queue::Handle;
use crate::task_queue::TaskQueue;

use std::sync::Arc;

verus! {

#[verifier::external_type_specification]
#[verifier::external_body]
#[verifier::reject_recursive_types(K)]
#[verifier::reject_recursive_types(V)]
#[verifier::reject_recursive_types(S)]
pub struct ExDashMap<K, V, S>(dashmap::DashMap<K, V, S>);

/// Relies on dashmap::DashMap::new: an empty concurrent map.
#[verifier::external_body]
fn map_new<K: core::cmp::Eq + core::hash::Hash, V>() -> dashmap::DashMap<K, V> {
    dashmap::DashMap::new()
}

/// Relies on dashmap::DashMap::insert: associates the value with the
/// key, handing back whatever value the key held before. Other threads
/// may change the map at any time.
#[verifier::external_body]
fn map_insert<K: core::cmp::Eq + core::hash::Hash, V>(
    map: &dashmap::DashMap<K, V>,
    key: K,
    value: V,
) -> Option<V> {
    map.insert(key, value)
}

/// Relies on dashmap::DashMap::remove: takes the entry for the key out
/// of the map, if one was there at the moment of the call.
#[verifier::external_body]
fn map_remove<K: core::cmp::Eq + core::hash::Hash, V>(
    map: &dashmap::DashMap<K, V>,
    key: &K,
) -> Option<(K, V)> {
    map.remove(key)
}

/// Relies on dashmap::DashMap::get: a clone of the value the key held at
/// the moment of the call, if any.
#[verifier::external_body]
fn map_get_cloned<K: core::cmp::Eq + core::hash::Hash, V: Clone>(
    map: &dashmap::DashMap<K, V>,
    key: &K,
) -> Option<V> {
    match map.get(key) {
        Some(entry) => Some(entry.value().clone()),
        None => None,
    }
}

/// Relies on dashmap::DashMap::len: how many entries the map held at
/// some moment during the call.
#[verifier::external_body]
fn map_len<K: core::cmp::Eq + core::hash::Hash, V>(map: &dashmap::DashMap<K, V>) -> usize {
    map.len()
}

/// Relies on rand::random: a fresh task id drawn from the 64-bit space.
/// Nothing is promised of the value.
#[verifier::external_body]
fn fresh_task_id() -> u64 {
    rand::random()
}

/// The scheduler-visible envelope around a task: its globally unique id,
/// the task state, and the id of the bytecode it runs.
#[derive(Debug)]
pub struct TaskOrder {
    pub id: u64,
    pub task: Task,
    pub bytecode_id: u64,
}

impl Clone for TaskOrder {
    /// Cloning keeps the id, the task state and the bytecode id.
    fn clone(&self) -> (r: TaskOrder)
        ensures
            r.id == self.id,
            r.task@ == self.task@,
            r.bytecode_id == self.bytecode_id,
    {
        TaskOrder { id: self.id, task: self.task.clone(), bytecode_id: self.bytecode_id }
    }
}

/// The state every worker shares: the finished map, the bytecode
/// registry and the shared memory.
pub struct VmHandle {
    finished: dashmap::DashMap<u64, Result<TaskOrder, ExecutionError>>,
    bytecode_registry: dashmap::DashMap<u64, Arc<ByteCode>>,
    memory: dashmap::DashMap<u64, i64>,
}

impl VmHandle {
    /// Fresh shared state: no finished tasks, no bytecode, empty memory.
    pub fn new() -> VmHandle {
        VmHandle { finished: map_new(), bytecode_registry: map_new(), memory: map_new() }
    }

    /// Register a bytecode image under an id, shared by every worker.
    pub fn register_bytecode(&self, id: u64, bytecode: Arc<ByteCode>) {
        map_insert(&self.bytecode_registry, id, bytecode);
    }

    /// The bytecode image registered under `id`, if any.
    pub fn get_bytecode(&self, id: u64) -> Option<Arc<ByteCode>> {
        map_get_cloned(&self.bytecode_registry, &id)
    }

    /// Publish a task's result under its id for a joiner to collect.
    /// Hands back a previous result for the id, which the design promises
    /// never exists (ids are globally unique and published once).
    pub fn publish_finished(&self, id: u64, result: Result<TaskOrder, ExecutionError>) -> Option<
        Result<TaskOrder, ExecutionError>,
    > {
        map_insert(&self.finished, id, result)
    }

    /// Remove and return the result published under `id`, if it has
    /// appeared.
    pub fn take_finished(&self, id: u64) -> Option<Result<TaskOrder, ExecutionError>> {
        match map_remove(&self.finished, &id) {
            Some(entry) => Some(entry.1),
            None => None,
        }
    }

    /// How many published results nobody has collected yet. Zero at an
    /// orderly shutdown: every task was joined or was the root.
    pub fn pending_results(&self) -> usize {
        map_len(&self.finished)
    }

    /// `Store`: write a value to shared memory, last writer wins.
    pub fn store(&self, addr: u64, value: i64) {
        map_insert(&self.memory, addr, value);
    }

    /// `Load`: read shared memory; the defaulting of a never-written
    /// address is [`memory_value`]'s contract.
    pub fn load(&self, addr: u64) -> i64 {
        memory_value(map_get_cloned(&self.memory, &addr))
    }
}

/// Service a `Fork`: the child is a clone of the parent with a fresh id
/// and its `forked` flag set; the parent's flag is cleared. Both tasks
/// end with the pair `(parent_id, child_id)` on top of their stacks,
/// `child_id` on top, so bytecode on either side of the fork can find
/// its sibling.
pub fn fork_task(parent: &mut TaskOrder, child_id: u64) -> (child: TaskOrder)
    ensures
        final(parent).id == old(parent).id,
        final(parent).bytecode_id == old(parent).bytecode_id,
        child.id == child_id,
        child.bytecode_id == old(parent).bytecode_id,
        final(parent).task@.pc == old(parent).task@.pc,
        child.task@.pc == old(parent).task@.pc,
        !final(parent).task@.forked,
        child.task@.forked,
        final(parent).task@.stack == old(parent).task@.stack.push(
            stack_value(old(parent).id),
        ).push(stack_value(child_id)),
        child.task@.stack == final(parent).task@.stack,
{
    let parent_id_value = 0i64.wrapping_add_unsigned(parent.id);
    let child_id_value = 0i64.wrapping_add_unsigned(child_id);
    parent.task.stack.push(parent_id_value);
    parent.task.stack.push(child_id_value);
    let mut child_task = parent.task.clone();
    child_task.forked = true;
    parent.task.forked = false;
    TaskOrder { id: child_id, task: child_task, bytecode_id: parent.bytecode_id }
}

/// Service a successful `Join`: append the last `count` values of the
/// joined task's final stack to the joining task's stack, in their
/// original order. A `count` beyond the joined stack's length imports
/// the whole stack.
pub fn apply_join(task: &mut Task, joined_stack: &Vec<i64>, count: usize)
    ensures
        final(task)@.pc == old(task)@.pc,
        final(task)@.forked == old(task)@.forked,
        final(task)@.stack == old(task)@.stack + joined_stack@.skip(
            if count <= joined_stack@.len() {
                joined_stack@.len() - count
            } else {
                0
            },
        ),
{
    let start = if count <= joined_stack.len() {
        joined_stack.len() - count
    } else {
        0
    };
    let mut i = start;
    while i < joined_stack.len()
        invariant
            start <= i <= joined_stack.len(),
            task.program_counter == old(task).program_counter,
            task.forked == old(task).forked,
            task.stack@ == old(task)@.stack + joined_stack@.subrange(start as int, i as int),
        decreases joined_stack.len() - i,
    {
        task.stack.push(joined_stack[i]);
        proof {
            assert(task.stack@ =~= old(task)@.stack + joined_stack@.subrange(
                start as int,
                i + 1,
            ));
        }
        i += 1;
    }
    proof {
        assert(joined_stack@.subrange(start as int, joined_stack@.len() as int) =~= joined_stack@
            .skip(start as int));
    }
}

/// A yield reported from a run over a scheduler-free program cannot be
/// a fork, join or memory request: the yield is a [`step`] at a
/// reachable state, and no such step exists.
proof fn lemma_no_scheduler_yield(
    code: Seq<OpCode>,
    pre: TaskView,
    cur: TaskView,
    outcome: Result<Execution, ExecutionError>,
)
    requires
        scheduler_free(code),
        exists|mid: TaskView|
            {
                &&& #[trigger] reaches(code, pre, mid)
                &&& step(code, mid).0 == cur
                &&& step(code, mid).1 == outcome
            },
    ensures
        !(outcome matches Ok(Execution::Fork)),
        !(outcome matches Ok(Execution::Join { .. })),
        !(outcome matches Ok(Execution::Store { .. })),
        !(outcome matches Ok(Execution::Load { .. })),
{
    let mid = choose|mid: TaskView|
        {
            &&& #[trigger] reaches(code, pre, mid)
            &&& step(code, mid).0 == cur
            &&& step(code, mid).1 == outcome
        };
    lemma_scheduler_free_step(code, mid);
}

/// What one attempt to pull and finish a piece of work came to.
#[derive(Clone, Copy, Debug, PartialEq, Eq, Structural)]
pub enum Progress {
    /// A task was pulled and run to completion.
    DidWork,
    /// No work was available right now.
    NoWork,
    /// The queue is shutting down.
    Finished,
}

/// The missing-key default of shared memory: an address never written
/// reads as 0.
pub fn memory_value(read: Option<i64>) -> (r: i64)
    ensures
        r == (match read {
            Some(value) => value,
            None => 0i64,
        }),
{
    match read {
        Some(value) => value,
        None => 0,
    }
}

/// What a worker does with one pull from the queue.
#[derive(Debug)]
pub enum PullAction {
    /// A pulled task: drive it to completion and publish its result
    /// under its id.
    Run(TaskOrder),
    /// No work right now; an idle round.
    Idle,
    /// The queue is shutting down; the worker stops.
    Stop,
}

/// The policy a worker's tick applies to a pull: an item is run and its
/// result published; `Retry` is an idle tick; `Finish` stops the worker.
pub fn pull_action(pulled: ControlFlow<TaskOrder>) -> (r: PullAction)
    ensures
        (pulled matches ControlFlow::Continue(order) ==> (r matches PullAction::Run(o2) && o2
            == order)),
        (pulled matches ControlFlow::Retry ==> r is Idle),
        (pulled matches ControlFlow::Finish ==> r is Stop),
{
    match pulled {
        ControlFlow::Continue(order) => PullAction::Run(order),
        ControlFlow::Retry => PullAction::Idle,
        ControlFlow::Finish => PullAction::Stop,
    }
}

/// What the executor does after one interpreter yield.
#[derive(Debug)]
pub enum CompletionAction {
    /// The task still runs; keep ticking it.
    KeepRunning,
    /// The task terminated normally: it is the function's success.
    FinishTask,
    /// Make a sibling task and enqueue it.
    Spawn,
    /// Wait for `task_id` and import the last `count` values of its
    /// final stack.
    Await { task_id: u64, count: usize },
    /// Write the value to shared memory.
    WriteMemory { addr: u64, value: i64 },
    /// Read shared memory and push the value read.
    ReadMemory { addr: u64 },
    /// The task failed: the error is the function's own result.
    Fail(ExecutionError),
}

/// The policy the executor applies to an interpreter yield: success is
/// handed out only on `Terminated`; an interpreter error becomes the
/// executor's own error; every other outcome is serviced and the task
/// resumed.
pub fn completion_action(outcome: Result<Execution, ExecutionError>) -> (r: CompletionAction)
    ensures
        (outcome matches Ok(Execution::Continue) ==> r is KeepRunning),
        (outcome matches Ok(Execution::Terminated) ==> r is FinishTask),
        (outcome matches Ok(Execution::Fork) ==> r is Spawn),
        (outcome matches Ok(Execution::Join { task_id, count }) ==> (r
            matches CompletionAction::Await { task_id: t2, count: c2 } && t2 == task_id && c2
            == count)),
        (outcome matches Ok(Execution::Store { addr, value }) ==> (r
            matches CompletionAction::WriteMemory { addr: a2, value: v2 } && a2 == addr && v2
            == value)),
        (outcome matches Ok(Execution::Load { addr }) ==> (r matches CompletionAction::ReadMemory {
            addr: a2,
        } && a2 == addr)),
        (outcome matches Err(e) ==> (r matches CompletionAction::Fail(e2) && e2 == e)),
{
    match outcome {
        Ok(Execution::Continue) => CompletionAction::KeepRunning,
        Ok(Execution::Terminated) => CompletionAction::FinishTask,
        Ok(Execution::Fork) => CompletionAction::Spawn,
        Ok(Execution::Join { task_id, count }) => CompletionAction::Await { task_id, count },
        Ok(Execution::Store { addr, value }) => CompletionAction::WriteMemory { addr, value },
        Ok(Execution::Load { addr }) => CompletionAction::ReadMemory { addr },
        Err(e) => CompletionAction::Fail(e),
    }
}

/// What a joiner does with the joined task's published result.
#[derive(Debug)]
pub enum JoinAdopt {
    /// The sibling succeeded: import from its final stack.
    Import(TaskOrder),
    /// The sibling failed: its error becomes the joiner's own.
    Fail(ExecutionError),
}

/// The policy a join applies to the result it collected: a successful
/// sibling is imported; a failed sibling's error is adopted as the
/// joining task's own error.
pub fn join_adopt(joined: Result<TaskOrder, ExecutionError>) -> (r: JoinAdopt)
    ensures
        (joined matches Ok(done) ==> (r matches JoinAdopt::Import(d2) && d2 == done)),
        (joined matches Err(e) ==> (r matches JoinAdopt::Fail(e2) && e2 == e)),
{
    match joined {
        Ok(done) => JoinAdopt::Import(done),
        Err(e) => JoinAdopt::Fail(e),
    }
}

/// What one round of waiting for a joined task decides.
#[derive(Clone, Copy, Debug, PartialEq, Eq, Structural)]
pub enum JoinPoll {
    /// The awaited result is there: take it.
    TakeResult,
    /// Keep waiting, with the given failure flag.
    Wait { last_failed: bool },
    /// Two rounds in a row made no progress: the join cannot advance.
    GiveUp,
}

/// The deadlock policy of a waiting join: the awaited result is taken
/// as soon as it appears; a round that ran other work resets the
/// failure flag; a round that found no work at all sets it, and two
/// such rounds in a row give up.
pub fn join_poll(found: bool, progress: Progress, last_failed: bool) -> (r: JoinPoll)
    ensures
        found ==> r is TakeResult,
        (!found && progress is DidWork) ==> (r matches JoinPoll::Wait { last_failed: lf } && !lf),
        (!found && !(progress is DidWork) && last_failed) ==> r is GiveUp,
        (!found && !(progress is DidWork) && !last_failed) ==> (r matches JoinPoll::Wait {
            last_failed: lf,
        } && lf),
{
    if found {
        JoinPoll::TakeResult
    } else {
        match progress {
            Progress::DidWork => JoinPoll::Wait { last_failed: false },
            _ => {
                if last_failed {
                    JoinPoll::GiveUp
                } else {
                    JoinPoll::Wait { last_failed: true }
                }
            },
        }
    }
}

/// A local worker: a queue handle plus the shared state. It pulls task
/// orders and drives each to completion on the calling thread.
pub struct Executor {
    handle: Handle<TaskOrder>,
    shared: Arc<VmHandle>,
    duplicate_publications: u64,
}

impl Executor {
    /// How many times this worker has seen `publish_finished` hand back
    /// a previous entry. The design promises ids are globally unique and
    /// published once, so this should stay 0; an id collision is
    /// recorded here rather than silently dropped.
    pub closed spec fn spec_duplicate_publications(&self) -> u64 {
        self.duplicate_publications
    }

    /// How many work items this worker has ever moved into the shared
    /// channel (its handle's sent log).
    pub closed spec fn spec_sent_count(&self) -> nat {
        self.handle@.sent.len()
    }

    /// A worker over the given queue handle and shared state.
    pub fn new(handle: Handle<TaskOrder>, shared: Arc<VmHandle>) -> (r: Executor)
        ensures
            r.spec_duplicate_publications() == 0,
    {
        Executor { handle, shared, duplicate_publications: 0 }
    }

    /// How many duplicate publications this worker has witnessed: the
    /// observable trace of the finished map's single-assignment rule.
    pub fn duplicate_publications(&self) -> (r: u64)
        ensures
            r == self.spec_duplicate_publications(),
    {
        self.duplicate_publications
    }

    /// The worker loop: pull and run work until shutdown. Its effects
    /// flow entirely through the shared queue and maps, so little holds
    /// of every outcome; the policy of each round is
    /// [`Executor::busy_tick`]'s contract, and the worker never retracts
    /// work it has moved to the shared pool.
    pub fn run(&mut self)
        ensures
            final(self).spec_sent_count() >= old(self).spec_sent_count(),
    {
        let mut budget: u64 = u64::MAX;
        loop
            invariant
                self.handle@.sent.len() >= old(self).handle@.sent.len(),
            decreases budget,
        {
            if budget == 0 {
                return ;
            }
            budget = budget - 1;
            match self.busy_tick(u64::MAX) {
                Progress::Finished => {
                    return ;
                },
                _ => {},
            }
        }
    }

    /// Pull one task order and apply [`pull_action`]: run the pulled
    /// task to completion and publish its result (success or error)
    /// under its id, so a joiner always sees an outcome. A round with
    /// local work waiting always does that work; the worker only stops
    /// when its own deque is empty and the shared channel says so.
    /// `fuel` bounds the re-entrant depth of join servicing.
    fn busy_tick(&mut self, fuel: u64) -> (r: Progress)
        ensures
            fuel == 0 ==> r is NoWork,
            (fuel > 0 && old(self).handle@.local.len() > 0) ==> r is DidWork,
            r is Finished ==> final(self).handle@.local.len() == 0,
            final(self).handle@.sent.len() >= old(self).handle@.sent.len(),
        decreases fuel, 0int,
    {
        if fuel == 0 {
            return Progress::NoWork;
        }
        match pull_action(self.handle.next()) {
            PullAction::Run(next) => {
                let id = next.id;
                let result = self.run_to_completion_fueled(next, fuel - 1);
                let previous = self.shared.publish_finished(id, result);
                match previous {
                    Some(_) => {
                        if self.duplicate_publications < u64::MAX {
                            self.duplicate_publications = self.duplicate_publications + 1;
                        }
                    },
                    None => {},
                }
                Progress::DidWork
            },
            PullAction::Stop => Progress::Finished,
            PullAction::Idle => Progress::NoWork,
        }
    }

    /// Drive one task to termination, servicing its forks, joins and
    /// memory traffic; the bytecode comes from the shared registry. On
    /// success the returned order is the same task (same id, same
    /// bytecode) in its terminal state.
    pub fn run_to_completion(&mut self, task_order: TaskOrder) -> (r: Result<
        TaskOrder,
        ExecutionError,
    >)
        ensures
            (r matches Ok(done) ==> done.id == task_order.id && done.bytecode_id
                == task_order.bytecode_id),
            final(self).spec_sent_count() >= old(self).spec_sent_count(),
    {
        self.run_to_completion_fueled(task_order, u64::MAX)
    }

    /// [`Executor::run_to_completion`] against a given bytecode image,
    /// which ties the result to the interpreter's semantics: for a
    /// scheduler-free program, success means the task really reached a
    /// terminating state and carries that state; an error is either the
    /// interpreter's own error at a reachable state, or the executor
    /// giving up; and a task that provably halts within the step budget
    /// is driven to success.
    pub fn run_to_completion_with(
        &mut self,
        task_order: TaskOrder,
        bytecode: &ByteCode,
    ) -> (r: Result<TaskOrder, ExecutionError>)
        ensures
            (r matches Ok(done) ==> done.id == task_order.id && done.bytecode_id
                == task_order.bytecode_id),
            scheduler_free(bytecode@) ==> (match r {
                Ok(done) => exists|mid: TaskView|
                    {
                        &&& #[trigger] reaches(bytecode@, task_order.task@, mid)
                        &&& step(bytecode@, mid).1 == Ok::<Execution, ExecutionError>(
                            Execution::Terminated,
                        )
                        &&& done.task@ == step(bytecode@, mid).0
                    },
                Err(e) => e == ExecutionError::UnableToProgress || exists|mid: TaskView|
                    {
                        &&& #[trigger] reaches(bytecode@, task_order.task@, mid)
                        &&& step(bytecode@, mid).1 == Err::<Execution, ExecutionError>(e)
                    },
            }),
            (scheduler_free(bytecode@) && halts_within(
                bytecode@,
                task_order.task@,
                u64::MAX as nat,
            )) ==> r is Ok,
            final(self).spec_sent_count() >= old(self).spec_sent_count(),
    {
        self.drive_fueled(task_order, bytecode, u64::MAX)
    }

    /// [`Executor::run_to_completion`], with a bound on the re-entrant
    /// depth of join servicing. Exhausted fuel reads as an inability to
    /// progress; no real execution gets anywhere near it.
    fn run_to_completion_fueled(&mut self, task_order: TaskOrder, fuel: u64) -> (r: Result<
        TaskOrder,
        ExecutionError,
    >)
        ensures
            (r matches Ok(done) ==> done.id == task_order.id && done.bytecode_id
                == task_order.bytecode_id),
            final(self).handle@.sent.len() >= old(self).handle@.sent.len(),
        decreases fuel, 3int,
    {
        let bytecode = match self.shared.get_bytecode(task_order.bytecode_id) {
            Some(bytecode) => bytecode,
            None => {
                // No bytecode is registered under this id, so the task cannot advance.
                return Err(ExecutionError::UnableToProgress);
            },
        };
        self.drive_fueled(task_order, &bytecode, fuel)
    }

    /// The executor's core loop, against a given bytecode image, with
    /// the fuel bound. Carries [`Executor::run_to_completion_with`]'s
    /// contract.
    fn drive_fueled(&mut self, task_order: TaskOrder, bytecode: &ByteCode, fuel: u64) -> (r:
        Result<TaskOrder, ExecutionError>)
        ensures
            (r matches Ok(done) ==> done.id == task_order.id && done.bytecode_id
                == task_order.bytecode_id),
            scheduler_free(bytecode@) ==> (match r {
                Ok(done) => exists|mid: TaskView|
                    {
                        &&& #[trigger] reaches(bytecode@, task_order.task@, mid)
                        &&& step(bytecode@, mid).1 == Ok::<Execution, ExecutionError>(
                            Execution::Terminated,
                        )
                        &&& done.task@ == step(bytecode@, mid).0
                    },
                Err(e) => e == ExecutionError::UnableToProgress || exists|mid: TaskView|
                    {
                        &&& #[trigger] reaches(bytecode@, task_order.task@, mid)
                        &&& step(bytecode@, mid).1 == Err::<Execution, ExecutionError>(e)
                    },
            }),
            (scheduler_free(bytecode@) && halts_within(
                bytecode@,
                task_order.task@,
                u64::MAX as nat,
            )) ==> r is Ok,
            final(self).handle@.sent.len() >= old(self).handle@.sent.len(),
        decreases fuel, 2int,
    {
        let mut order = task_order;
        let ghost init = task_order.task@;
        proof {
            lemma_reaches_n_refl(bytecode@, init);
            lemma_reaches_n_to_reaches(bytecode@, init, init, 0);
        }
        let mut budget: u64 = u64::MAX;
        loop
            invariant
                order.id == task_order.id,
                order.bytecode_id == task_order.bytecode_id,
                init == task_order.task@,
                scheduler_free(bytecode@) ==> reaches(bytecode@, init, order.task@),
                (scheduler_free(bytecode@) && halts_within(bytecode@, init, u64::MAX as nat))
                    ==> budget == u64::MAX,
                self.handle@.sent.len() >= old(self).handle@.sent.len(),
            decreases budget,
        {
            if budget == 0 {
                return Err(ExecutionError::UnableToProgress);
            }
            budget = budget - 1;
            let ghost pre = order.task@;
            let outcome = order.task.run(bytecode);
            proof {
                if scheduler_free(bytecode@) && outcome != Ok::<Execution, ExecutionError>(
                    Execution::Continue,
                ) {
                    let mid = choose|mid: TaskView|
                        {
                            &&& #[trigger] reaches(bytecode@, pre, mid)
                            &&& step(bytecode@, mid).0 == order.task@
                            &&& step(bytecode@, mid).1 == outcome
                        };
                    lemma_reaches_trans(bytecode@, init, pre, mid);
                    if halts_within(bytecode@, init, u64::MAX as nat) {
                        // The unique yield point must be the terminating
                        // one: any other outcome is contradictory.
                        let (halt_mid, halt_n): (TaskView, nat) = choose|hm: TaskView, hn: nat|
                            {
                                &&& hn < u64::MAX
                                &&& #[trigger] reaches_n(bytecode@, init, hm, hn)
                                &&& step(bytecode@, hm).1 == Ok::<Execution, ExecutionError>(
                                    Execution::Terminated,
                                )
                            };
                        let mid_n = lemma_reaches_counted(bytecode@, init, mid);
                        lemma_yield_deterministic(
                            bytecode@,
                            init,
                            mid,
                            mid_n,
                            halt_mid,
                            halt_n,
                        );
                        assert(outcome == Ok::<Execution, ExecutionError>(Execution::Terminated));
                    }
                }
            }
            match completion_action(outcome) {
                CompletionAction::KeepRunning => {
                    proof {
                        if scheduler_free(bytecode@) {
                            lemma_reaches_n_to_reaches(bytecode@, pre, order.task@, u64::MAX as nat);
                            lemma_reaches_trans(bytecode@, init, pre, order.task@);
                            if halts_within(bytecode@, init, u64::MAX as nat) {
                                // A halting point below the budget leaves no
                                // room for a full budget of continuing steps.
                                let (halt_mid, halt_n): (TaskView, nat) = choose|
                                    hm: TaskView,
                                    hn: nat,
                                |
                                    {
                                        &&& hn < u64::MAX
                                        &&& #[trigger] reaches_n(bytecode@, init, hm, hn)
                                        &&& step(bytecode@, hm).1 == Ok::<
                                            Execution,
                                            ExecutionError,
                                        >(Execution::Terminated)
                                    };
                                let pre_n = lemma_reaches_counted(bytecode@, init, pre);
                                lemma_reaches_n_trans(
                                    bytecode@,
                                    init,
                                    pre,
                                    order.task@,
                                    pre_n,
                                    u64::MAX as nat,
                                );
                                lemma_yield_stops(
                                    bytecode@,
                                    init,
                                    halt_mid,
                                    halt_n,
                                    order.task@,
                                    pre_n + u64::MAX as nat,
                                );
                            }
                        }
                    }
                },
                CompletionAction::FinishTask => {
                    return Ok(order);
                },
                CompletionAction::Fail(e) => {
                    return Err(e);
                },
                CompletionAction::Spawn => {
                    proof {
                        if scheduler_free(bytecode@) {
                            lemma_no_scheduler_yield(bytecode@, pre, order.task@, outcome);
                        }
                    }
                    let child_id = fresh_task_id();
                    let child = fork_task(&mut order, child_id);
                    self.handle.push(child);
                },
                CompletionAction::Await { task_id, count } => {
                    proof {
                        if scheduler_free(bytecode@) {
                            lemma_no_scheduler_yield(bytecode@, pre, order.task@, outcome);
                        }
                    }
                    if fuel == 0 {
                        return Err(ExecutionError::UnableToProgress);
                    }
                    match join_adopt(self.busy_until_task_done(task_id, fuel - 1)) {
                        JoinAdopt::Import(joined) => {
                            apply_join(&mut order.task, &joined.task.stack, count);
                        },
                        JoinAdopt::Fail(e) => {
                            return Err(e);
                        },
                    }
                },
                CompletionAction::WriteMemory { addr, value } => {
                    proof {
                        if scheduler_free(bytecode@) {
                            lemma_no_scheduler_yield(bytecode@, pre, order.task@, outcome);
                        }
                    }
                    self.shared.store(addr, value);
                },
                CompletionAction::ReadMemory { addr } => {
                    proof {
                        if scheduler_free(bytecode@) {
                            lemma_no_scheduler_yield(bytecode@, pre, order.task@, outcome);
                        }
                    }
                    let value = self.shared.load(addr);
                    order.task.stack.push(value);
                },
            }
        }
    }

    /// Wait for `task_id`'s result while making progress on other work:
    /// repeatedly pull and finish another task, rechecking the finished
    /// map in between. Each round applies [`join_poll`]: an appeared
    /// result is taken; two consecutive rounds that find no work at all
    /// fail the join with `UnableToProgress` rather than hanging the
    /// worker. The heuristic trades false positives under heavy
    /// contention for liveness.
    fn busy_until_task_done(&mut self, task_id: u64, fuel: u64) -> (r: Result<
        TaskOrder,
        ExecutionError,
    >)
        ensures
            fuel == 0 ==> r == Err::<TaskOrder, ExecutionError>(ExecutionError::UnableToProgress),
            final(self).handle@.sent.len() >= old(self).handle@.sent.len(),
        decreases fuel, 1int,
    {
        if fuel == 0 {
            return Err(ExecutionError::UnableToProgress);
        }
        let mut last_failed = false;
        let mut budget: u64 = u64::MAX;
        loop
            invariant
                fuel >= 1,
                self.handle@.sent.len() >= old(self).handle@.sent.len(),
            decreases budget,
        {
            if budget == 0 {
                return Err(ExecutionError::UnableToProgress);
            }
            budget = budget - 1;
            match self.shared.take_finished(task_id) {
                Some(done) => {
                    // join_poll with the result found decides TakeResult
                    // whatever the rest of the round would have seen.
                    return done;
                },
                None => {},
            }
            match join_poll(false, self.busy_tick(fuel - 1), last_failed) {
                JoinPoll::GiveUp => {
                    return Err(ExecutionError::UnableToProgress);
                },
                JoinPoll::Wait { last_failed: flag } => {
                    last_failed = flag;
                },
                JoinPoll::TakeResult => {},
            }
        }
    }
}

/// Drive a bytecode image on the calling thread: register it, make a
/// root task, and run it to completion, servicing any tasks it forks.
/// The result is the root task's outcome.
/// Relies on Clone for std::sync::Arc: a new reference to the same
/// shared image.
#[verifier::external_body]
fn clone_bytecode_ref(bytecode: &Arc<ByteCode>) -> (r: Arc<ByteCode>)
    ensures
        r == *bytecode,
{
    bytecode.clone()
}

pub fn run(bytecode: ByteCode) -> (r: Result<(), ExecutionError>)
    ensures
        scheduler_free(bytecode@) ==> (match r {
            Ok(u) => exists|mid: TaskView|
                {
                    &&& #[trigger] reaches(bytecode@, initial_task_view(), mid)
                    &&& step(bytecode@, mid).1 == Ok::<Execution, ExecutionError>(
                        Execution::Terminated,
                    )
                },
            Err(e) => e == ExecutionError::UnableToProgress || exists|mid: TaskView|
                {
                    &&& #[trigger] reaches(bytecode@, initial_task_view(), mid)
                    &&& step(bytecode@, mid).1 == Err::<Execution, ExecutionError>(e)
                },
        }),
        (scheduler_free(bytecode@) && halts_within(
            bytecode@,
            initial_task_view(),
            u64::MAX as nat,
        )) ==> r is Ok,
{
    let queue = TaskQueue::<TaskOrder>::new();
    let shared = Arc::new(VmHandle::new());
    let bytecode_id: u64 = 0;
    let image = Arc::new(bytecode);
    shared.register_bytecode(bytecode_id, clone_bytecode_ref(&image));
    let mut executor = Executor::new(queue.handle(), shared);
    let root = TaskOrder { id: 0, task: Task::new(), bytecode_id };
    proof {
        assert(root.task@ == initial_task_view());
    }
    match executor.run_to_completion_with(root, &image) {
        Ok(_) => Ok(()),
        Err(e) => Err(e),
    }
}

/// How a remote attempt to run a task can fail.
#[derive(Debug)]
pub enum RunError {
    /// The task itself failed on the peer.
    Execution(ExecutionError),
    /// The transport to the peer is gone for good.
    ConnectionReset,
    /// A transient failure; the attempt may be retried.
    Unknown,
}

/// What a remote worker does after one attempt to run a task on a peer.
#[derive(Debug)]
pub enum RemoteAction {
    /// Publish this outcome under the task's id.
    Publish(Result<TaskOrder, ExecutionError>),
    /// Put the task back on the shared queue and retire this worker: the
    /// peer is gone.
    RequeueAndStop,
    /// Put the task back on the shared queue, back off briefly, and try
    /// again.
    RequeueAndRetry,
}

/// What a peer answers to a remote run request.
#[derive(Debug)]
pub enum PeerReply {
    /// The task ran remotely to termination, with this outcome.
    Done(Result<TaskOrder, ExecutionError>),
    /// The peer does not know this bytecode id yet.
    UnknownByteCode(u64),
}

/// What the caller does with a peer's answer.
#[derive(Debug)]
pub enum PeerAction {
    /// Hand the remote outcome back.
    Return(Result<TaskOrder, ExecutionError>),
    /// Send the peer the bytecode it named, then run the task again.
    DefineAndRetry(u64),
}

/// The retry policy of a remote run: a finished outcome is handed back;
/// a peer that does not know the bytecode is taught it and the run is
/// retried until the peer accepts the work.
pub fn peer_step(reply: PeerReply) -> (r: PeerAction)
    ensures
        (reply matches PeerReply::Done(res) ==> (r matches PeerAction::Return(x) && x == res)),
        (reply matches PeerReply::UnknownByteCode(id) ==> (r matches PeerAction::DefineAndRetry(d)
            && d == id)),
{
    match reply {
        PeerReply::Done(res) => PeerAction::Return(res),
        PeerReply::UnknownByteCode(id) => PeerAction::DefineAndRetry(id),
    }
}

/// What one attempt to mirror a store to a peer came to.
#[derive(Clone, Copy, Debug, PartialEq, Eq, Structural)]
pub enum StoreReply {
    /// The peer accepted the write.
    Stored,
    /// The transport to the peer is gone for good.
    ConnectionLost,
    /// A transient failure; the write may be retried.
    TransientError,
}

/// What the replication loop does next.
#[derive(Clone, Copy, Debug, PartialEq, Eq, Structural)]
pub enum StoreAction {
    /// The write is replicated; move on.
    Done,
    /// The peer is gone: replication to it ends, best-effort.
    GiveUp,
    /// Try the same write again.
    Retry,
}

/// The policy of mirroring a `Store` to a peer: an accepted write is
/// done; a lost connection ends replication to that peer; a transient
/// error retries the same write.
pub fn store_mirror_step(reply: StoreReply) -> (r: StoreAction)
    ensures
        reply is Stored ==> r is Done,
        reply is ConnectionLost ==> r is GiveUp,
        reply is TransientError ==> r is Retry,
{
    match reply {
        StoreReply::Stored => StoreAction::Done,
        StoreReply::ConnectionLost => StoreAction::GiveUp,
        StoreReply::TransientError => StoreAction::Retry,
    }
}

/// The remote executor's decision for one attempt: successes and
/// bytecode-level failures are published so joiners see them; a lost
/// connection retires the worker; a transient error retries.
pub fn remote_step(attempt: Result<TaskOrder, RunError>) -> (r: RemoteAction)
    ensures
        (attempt matches Ok(done) ==> r matches RemoteAction::Publish(p) && p matches Ok(t) && t
            == done),
        (attempt matches Err(RunError::Execution(e)) ==> r matches RemoteAction::Publish(p)
            && p matches Err(pe) && pe == e),
        (attempt matches Err(RunError::ConnectionReset) ==> r is RequeueAndStop),
        (attempt matches Err(RunError::Unknown) ==> r is RequeueAndRetry),
{
    match attempt {
        Ok(done) => RemoteAction::Publish(Ok(done)),
        Err(RunError::Execution(e)) => RemoteAction::Publish(Err(e)),
        Err(RunError::ConnectionReset) => RemoteAction::RequeueAndStop,
        Err(RunError::Unknown) => RemoteAction::RequeueAndRetry,
    }
}

} // verus!
