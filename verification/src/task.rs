//! Per-task execution state and the bytecode interpreter.
//!
//! A task owns a program counter, a value stack and a "forked" flag. It
//! executes one instruction per `tick`; `run` ticks until the task yields
//! to its executor (fork, join, memory traffic, termination) or fails.
//! The meaning of every instruction is given by the spec function [`step`],
//! and `tick` is proved to implement it exactly.

use vstd::prelude::*;

use crate::bytecode::ByteCode;
use crate::bytecode::OpCode;

verus! {

/// The ways a task can fail at run time.
#[derive(Clone, Copy, Debug, PartialEq, Eq, Structural)]
pub enum ExecutionError {
    /// An instruction needed an operand from an empty stack.
    PopFromEmptyStack,
    /// An instruction needed to read the top of an empty stack.
    PeekFromEmptyStack,
    /// `Bury` was given a depth outside the stack.
    BuryOutOfRange(i64),
    /// `Dredge` was given a depth outside the stack.
    DredgeOutOfRange(i64),
    /// A join target that never appeared in the finished map.
    UnknownTaskId(u64),
    /// No ready work exists and a joining task cannot advance.
    UnableToProgress,
    /// The `Panic` opcode was executed.
    Panic,
    /// The interpreter met an opcode it cannot execute.
    UnknownOpCode,
}

/// What a single instruction asked of the executor.
#[derive(Clone, Copy, Debug, PartialEq, Eq, Structural)]
pub enum Execution {
    /// The instruction completed within the task; keep ticking.
    Continue,
    /// The task terminated normally.
    Terminated,
    /// The task requests a sibling task.
    Fork,
    /// The task waits for `task_id` and wants the last `count` values of
    /// that task's final stack appended to its own.
    Join { task_id: u64, count: usize },
    /// Write `value` to shared memory at `addr`.
    Store { addr: u64, value: i64 },
    /// Read shared memory at `addr`; the executor pushes the value read.
    Load { addr: u64 },
}

/// The mathematical state of a task: program counter, stack (top last)
/// and the "forked" flag.
pub struct TaskView {
    pub pc: u64,
    pub stack: Seq<i64>,
    pub forked: bool,
}

/// A schedulable unit of execution: its own value stack, a program
/// counter into the bytecode image, and a flag that is set on the child
/// side of a `Fork`.
#[derive(Debug)]
pub struct Task {
    pub program_counter: u64,
    pub stack: Vec<i64>,
    pub forked: bool,
}

impl View for Task {
    type V = TaskView;

    open spec fn view(&self) -> TaskView {
        TaskView { pc: self.program_counter, stack: self.stack@, forked: self.forked }
    }
}

impl Clone for Task {
    /// Cloning keeps the program counter, the stack and the flag.
    fn clone(&self) -> (r: Task)
        ensures
            r@ == self@,
    {
        let stack = self.stack.clone();
        proof {
            assert(stack@ =~= self.stack@);
        }
        Task { program_counter: self.program_counter, stack, forked: self.forked }
    }
}

/// The program counter a jump target denotes: the target value read as an
/// unsigned 64-bit index, in two's complement.
pub open spec fn target_pc(v: i64) -> u64 {
    0u64.wrapping_add_signed(v)
}

/// A program counter pushed onto the value stack, in two's complement.
pub open spec fn stack_value(v: u64) -> i64 {
    0i64.wrapping_add_unsigned(v)
}

/// The number of stack values a `Join` imports, clamped to `usize`.
pub open spec fn join_count(v: i64) -> usize {
    if v < 0 {
        0usize
    } else if v > usize::MAX {
        usize::MAX
    } else {
        v as usize
    }
}

/// The absolute address of a relative memory access: the popped base read
/// as an address, plus the operand, wrapping.
pub open spec fn rel_address(base: i64, offset: u64) -> u64 {
    target_pc(base).wrapping_add(offset)
}

/// One instruction of the machine, as a function from task state to the
/// next task state and the instruction's outcome. `tick` implements this
/// exactly. A program counter outside the image terminates the task
/// normally; on an error the state is unchanged.
pub open spec fn step(code: Seq<OpCode>, t: TaskView) -> (TaskView, Result<
    Execution,
    ExecutionError,
>) {
    if t.pc >= code.len() {
        (t, Ok(Execution::Terminated))
    } else {
        let n = t.stack.len() as int;
        match code[t.pc as int] {
            OpCode::Push(v) => (
                TaskView { pc: (t.pc + 1) as u64, stack: t.stack.push(v), ..t },
                Ok(Execution::Continue),
            ),
            OpCode::Add => {
                if n < 2 {
                    (t, Err(ExecutionError::PopFromEmptyStack))
                } else {
                    let a = t.stack[n - 1];
                    let b = t.stack[n - 2];
                    (
                        TaskView {
                            pc: (t.pc + 1) as u64,
                            stack: t.stack.take(n - 2).push(b.wrapping_add(a)),
                            ..t
                        },
                        Ok(Execution::Continue),
                    )
                }
            },
            OpCode::DumpDebug => (
                TaskView { pc: (t.pc + 1) as u64, ..t },
                Ok(Execution::Continue),
            ),
            OpCode::Jump(flags, operand) => {
                if flags.zero && n == 0 {
                    (t, Err(ExecutionError::PeekFromEmptyStack))
                } else {
                    let conditions_hold = (flags.zero ==> t.stack[n - 1] == 0) && (flags.fork
                        ==> t.forked);
                    match operand {
                        Some(target) => {
                            if conditions_hold {
                                (
                                    TaskView { pc: target_pc(target), ..t },
                                    Ok(Execution::Continue),
                                )
                            } else {
                                (
                                    TaskView { pc: (t.pc + 1) as u64, ..t },
                                    Ok(Execution::Continue),
                                )
                            }
                        },
                        None => {
                            if n == 0 {
                                (t, Err(ExecutionError::PopFromEmptyStack))
                            } else {
                                let target = t.stack[n - 1];
                                let popped = t.stack.take(n - 1);
                                if conditions_hold {
                                    (
                                        TaskView { pc: target_pc(target), stack: popped, ..t },
                                        Ok(Execution::Continue),
                                    )
                                } else {
                                    (
                                        TaskView { pc: (t.pc + 1) as u64, stack: popped, ..t },
                                        Ok(Execution::Continue),
                                    )
                                }
                            }
                        },
                    }
                }
            },
            OpCode::JumpToSubroutine(operand) => {
                match operand {
                    Some(target) => (
                        TaskView {
                            pc: target_pc(target),
                            stack: t.stack.push(stack_value((t.pc + 1) as u64)),
                            ..t
                        },
                        Ok(Execution::Continue),
                    ),
                    None => {
                        if n == 0 {
                            (t, Err(ExecutionError::PopFromEmptyStack))
                        } else {
                            let target = t.stack[n - 1];
                            (
                                TaskView {
                                    pc: target_pc(target),
                                    stack: t.stack.take(n - 1).push(stack_value((t.pc + 1) as u64)),
                                    ..t
                                },
                                Ok(Execution::Continue),
                            )
                        }
                    },
                }
            },
            OpCode::Bury(depth) => {
                if n == 0 {
                    (t, Err(ExecutionError::PopFromEmptyStack))
                } else if depth < 0 || depth > n - 1 {
                    (t, Err(ExecutionError::BuryOutOfRange(depth)))
                } else {
                    let v = t.stack[n - 1];
                    let rest = t.stack.take(n - 1);
                    (
                        TaskView {
                            pc: (t.pc + 1) as u64,
                            stack: rest.insert(n - 1 - depth, v),
                            ..t
                        },
                        Ok(Execution::Continue),
                    )
                }
            },
            OpCode::Dredge(depth) => {
                if depth < 0 || depth > n - 1 {
                    (t, Err(ExecutionError::DredgeOutOfRange(depth)))
                } else {
                    let v = t.stack[n - 1 - depth];
                    (
                        TaskView {
                            pc: (t.pc + 1) as u64,
                            stack: t.stack.remove(n - 1 - depth).push(v),
                            ..t
                        },
                        Ok(Execution::Continue),
                    )
                }
            },
            OpCode::Duplicate => {
                if n == 0 {
                    (t, Err(ExecutionError::PeekFromEmptyStack))
                } else {
                    (
                        TaskView { pc: (t.pc + 1) as u64, stack: t.stack.push(t.stack[n - 1]), ..t },
                        Ok(Execution::Continue),
                    )
                }
            },
            OpCode::Return => {
                if n == 0 {
                    (t, Err(ExecutionError::PopFromEmptyStack))
                } else {
                    (
                        TaskView { pc: target_pc(t.stack[n - 1]), stack: t.stack.take(n - 1), ..t },
                        Ok(Execution::Continue),
                    )
                }
            },
            OpCode::Pop => {
                if n == 0 {
                    (t, Err(ExecutionError::PopFromEmptyStack))
                } else {
                    (
                        TaskView { pc: (t.pc + 1) as u64, stack: t.stack.take(n - 1), ..t },
                        Ok(Execution::Continue),
                    )
                }
            },
            OpCode::Fork => (
                TaskView { pc: (t.pc + 1) as u64, ..t },
                Ok(Execution::Fork),
            ),
            OpCode::Join(count) => {
                if n == 0 {
                    (t, Err(ExecutionError::PopFromEmptyStack))
                } else {
                    (
                        TaskView { pc: (t.pc + 1) as u64, stack: t.stack.take(n - 1), ..t },
                        Ok(
                            Execution::Join {
                                task_id: target_pc(t.stack[n - 1]),
                                count: join_count(count),
                            },
                        ),
                    )
                }
            },
            OpCode::Halt => (t, Ok(Execution::Terminated)),
            OpCode::Store(addr) => {
                if n == 0 {
                    (t, Err(ExecutionError::PopFromEmptyStack))
                } else {
                    (
                        TaskView { pc: (t.pc + 1) as u64, stack: t.stack.take(n - 1), ..t },
                        Ok(Execution::Store { addr, value: t.stack[n - 1] }),
                    )
                }
            },
            OpCode::StoreRelative(offset) => {
                if n < 2 {
                    (t, Err(ExecutionError::PopFromEmptyStack))
                } else {
                    (
                        TaskView { pc: (t.pc + 1) as u64, stack: t.stack.take(n - 2), ..t },
                        Ok(
                            Execution::Store {
                                addr: rel_address(t.stack[n - 1], offset),
                                value: t.stack[n - 2],
                            },
                        ),
                    )
                }
            },
            OpCode::Load(addr) => (
                TaskView { pc: (t.pc + 1) as u64, ..t },
                Ok(Execution::Load { addr }),
            ),
            OpCode::LoadRelative(offset) => {
                if n == 0 {
                    (t, Err(ExecutionError::PopFromEmptyStack))
                } else {
                    (
                        TaskView { pc: (t.pc + 1) as u64, stack: t.stack.take(n - 1), ..t },
                        Ok(Execution::Load { addr: rel_address(t.stack[n - 1], offset) }),
                    )
                }
            },
            OpCode::Panic => (t, Err(ExecutionError::Panic)),
        }
    }
}

impl Task {
    /// A fresh task: empty stack, program counter 0, not forked.
    pub fn new() -> (r: Task)
        ensures
            r@.pc == 0,
            r@.stack == Seq::<i64>::empty(),
            !r@.forked,
    {
        Task { program_counter: 0, stack: Vec::new(), forked: false }
    }

    /// Execute the single instruction under the program counter. The new
    /// state and the outcome are exactly those of [`step`].
    pub fn tick(&mut self, code: &ByteCode) -> (r: Result<Execution, ExecutionError>)
        ensures
            final(self)@ == step(code@, old(self)@).0,
            r == step(code@, old(self)@).1,
    {
        let ghost pre = self@;
        if self.program_counter >= code.len() as u64 {
            return Ok(Execution::Terminated);
        }
        let op = *(code.get(self.program_counter as usize).unwrap());
        match op {
            OpCode::Push(v) => {
                self.stack.push(v);
                self.program_counter = self.program_counter + 1;
                Ok(Execution::Continue)
            },
            OpCode::Add => {
                if self.stack.len() < 2 {
                    return Err(ExecutionError::PopFromEmptyStack);
                }
                let a = self.stack.pop().unwrap();
                let b = self.stack.pop().unwrap();
                self.stack.push(b.wrapping_add(a));
                self.program_counter = self.program_counter + 1;
                proof {
                    assert(self@.stack =~= step(code@, pre).0.stack);
                }
                Ok(Execution::Continue)
            },
            OpCode::DumpDebug => {
                self.program_counter = self.program_counter + 1;
                Ok(Execution::Continue)
            },
            OpCode::Jump(flags, operand) => {
                if flags.zero && self.stack.len() == 0 {
                    return Err(ExecutionError::PeekFromEmptyStack);
                }
                let mut conditions_hold = true;
                if flags.zero {
                    conditions_hold = conditions_hold && self.stack[self.stack.len() - 1] == 0;
                }
                if flags.fork {
                    conditions_hold = conditions_hold && self.forked;
                }
                let target: i64;
                match operand {
                    Some(v) => {
                        target = v;
                    },
                    None => {
                        match self.stack.pop() {
                            Some(v) => {
                                target = v;
                            },
                            None => {
                                return Err(ExecutionError::PopFromEmptyStack);
                            },
                        }
                    },
                }
                if conditions_hold {
                    self.program_counter = 0u64.wrapping_add_signed(target);
                } else {
                    self.program_counter = self.program_counter + 1;
                }
                proof {
                    assert(self@.stack =~= step(code@, pre).0.stack);
                }
                Ok(Execution::Continue)
            },
            OpCode::JumpToSubroutine(operand) => {
                let target: i64;
                match operand {
                    Some(v) => {
                        target = v;
                    },
                    None => {
                        match self.stack.pop() {
                            Some(v) => {
                                target = v;
                            },
                            None => {
                                return Err(ExecutionError::PopFromEmptyStack);
                            },
                        }
                    },
                }
                let return_to = 0i64.wrapping_add_unsigned(self.program_counter + 1);
                self.stack.push(return_to);
                self.program_counter = 0u64.wrapping_add_signed(target);
                proof {
                    assert(self@.stack =~= step(code@, pre).0.stack);
                }
                Ok(Execution::Continue)
            },
            OpCode::Bury(depth) => {
                if self.stack.len() == 0 {
                    return Err(ExecutionError::PopFromEmptyStack);
                }
                if depth < 0 || (depth as u64) > ((self.stack.len() - 1) as u64) {
                    return Err(ExecutionError::BuryOutOfRange(depth));
                }
                let v = self.stack.pop().unwrap();
                let at = self.stack.len() - (depth as usize);
                self.stack.insert(at, v);
                self.program_counter = self.program_counter + 1;
                proof {
                    assert(self@.stack =~= step(code@, pre).0.stack);
                }
                Ok(Execution::Continue)
            },
            OpCode::Dredge(depth) => {
                if depth < 0 || (depth as u64) >= (self.stack.len() as u64) {
                    return Err(ExecutionError::DredgeOutOfRange(depth));
                }
                let at = self.stack.len() - 1 - (depth as usize);
                let v = self.stack.remove(at);
                self.stack.push(v);
                self.program_counter = self.program_counter + 1;
                proof {
                    assert(self@.stack =~= step(code@, pre).0.stack);
                }
                Ok(Execution::Continue)
            },
            OpCode::Duplicate => {
                if self.stack.len() == 0 {
                    return Err(ExecutionError::PeekFromEmptyStack);
                }
                let v = self.stack[self.stack.len() - 1];
                self.stack.push(v);
                self.program_counter = self.program_counter + 1;
                Ok(Execution::Continue)
            },
            OpCode::Return => {
                match self.stack.pop() {
                    Some(v) => {
                        self.program_counter = 0u64.wrapping_add_signed(v);
                        proof {
                            assert(self@.stack =~= step(code@, pre).0.stack);
                        }
                        Ok(Execution::Continue)
                    },
                    None => Err(ExecutionError::PopFromEmptyStack),
                }
            },
            OpCode::Pop => {
                match self.stack.pop() {
                    Some(_) => {
                        self.program_counter = self.program_counter + 1;
                        proof {
                            assert(self@.stack =~= step(code@, pre).0.stack);
                        }
                        Ok(Execution::Continue)
                    },
                    None => Err(ExecutionError::PopFromEmptyStack),
                }
            },
            OpCode::Fork => {
                self.program_counter = self.program_counter + 1;
                Ok(Execution::Fork)
            },
            OpCode::Join(count) => {
                match self.stack.pop() {
                    Some(id) => {
                        self.program_counter = self.program_counter + 1;
                        let clamped: usize = if count < 0 {
                            0
                        } else if count as u64 > usize::MAX as u64 {
                            usize::MAX
                        } else {
                            count as usize
                        };
                        proof {
                            assert(self@.stack =~= step(code@, pre).0.stack);
                        }
                        Ok(Execution::Join { task_id: 0u64.wrapping_add_signed(id), count: clamped })
                    },
                    None => Err(ExecutionError::PopFromEmptyStack),
                }
            },
            OpCode::Halt => Ok(Execution::Terminated),
            OpCode::Store(addr) => {
                match self.stack.pop() {
                    Some(value) => {
                        self.program_counter = self.program_counter + 1;
                        proof {
                            assert(self@.stack =~= step(code@, pre).0.stack);
                        }
                        Ok(Execution::Store { addr, value })
                    },
                    None => Err(ExecutionError::PopFromEmptyStack),
                }
            },
            OpCode::StoreRelative(offset) => {
                if self.stack.len() < 2 {
                    return Err(ExecutionError::PopFromEmptyStack);
                }
                let base = self.stack.pop().unwrap();
                let value = self.stack.pop().unwrap();
                self.program_counter = self.program_counter + 1;
                proof {
                    assert(self@.stack =~= step(code@, pre).0.stack);
                }
                Ok(Execution::Store { addr: 0u64.wrapping_add_signed(base).wrapping_add(offset), value })
            },
            OpCode::Load(addr) => {
                self.program_counter = self.program_counter + 1;
                Ok(Execution::Load { addr })
            },
            OpCode::LoadRelative(offset) => {
                match self.stack.pop() {
                    Some(base) => {
                        self.program_counter = self.program_counter + 1;
                        proof {
                            assert(self@.stack =~= step(code@, pre).0.stack);
                        }
                        Ok(Execution::Load { addr: 0u64.wrapping_add_signed(base).wrapping_add(offset) })
                    },
                    None => Err(ExecutionError::PopFromEmptyStack),
                }
            },
            OpCode::Panic => Err(ExecutionError::Panic),
        }
    }

    /// Tick until the task yields. Unless the result is
    /// `Ok(Execution::Continue)`, the final state is one [`step`] past a
    /// state reachable from the initial one by `Continue` steps alone,
    /// and the result is that step's outcome. By
    /// [`lemma_yield_deterministic`] that pins the final state and the
    /// result exactly.
    ///
    /// `Ok(Execution::Continue)` is a cooperative yield, taken only
    /// after `u64::MAX` instructions in one go — out of reach of any
    /// real execution, but it bounds every run; the task can simply be
    /// resumed.
    pub fn run(&mut self, code: &ByteCode) -> (r: Result<Execution, ExecutionError>)
        ensures
            r == Ok::<Execution, ExecutionError>(Execution::Continue) ==> reaches_n(
                code@,
                old(self)@,
                final(self)@,
                u64::MAX as nat,
            ),
            r != Ok::<Execution, ExecutionError>(Execution::Continue) ==> exists|mid: TaskView|
                {
                    &&& #[trigger] reaches(code@, old(self)@, mid)
                    &&& step(code@, mid).0 == final(self)@
                    &&& step(code@, mid).1 == r
                },
    {
        proof {
            lemma_reaches_n_refl(code@, self@);
        }
        let mut budget: u64 = u64::MAX;
        loop
            invariant
                budget <= u64::MAX,
                reaches_n(code@, old(self)@, self@, (u64::MAX - budget) as nat),
            decreases budget,
        {
            if budget == 0 {
                return Ok(Execution::Continue);
            }
            budget = budget - 1;
            let ghost steps_taken = (u64::MAX - budget - 1) as nat;
            let ghost before = self@;
            let outcome = self.tick(code);
            match outcome {
                Ok(Execution::Continue) => {
                    proof {
                        lemma_reaches_n_step(code@, old(self)@, before, self@, steps_taken);
                    }
                },
                Ok(e) => {
                    proof {
                        lemma_reaches_n_to_reaches(code@, old(self)@, before, steps_taken);
                    }
                    return Ok(e);
                },
                Err(e) => {
                    proof {
                        lemma_reaches_n_to_reaches(code@, old(self)@, before, steps_taken);
                    }
                    return Err(e);
                },
            }
        }
    }
}

/// `Add` obeys wrapping two's-complement semantics for all `i64` inputs:
/// it pops two values and pushes the representative of their exact sum
/// modulo 2^64, taken in `[i64::MIN, i64::MAX]`.
pub proof fn lemma_add_wraps(code: Seq<OpCode>, t: TaskView)
    requires
        t.pc < code.len(),
        code[t.pc as int] == OpCode::Add,
        t.stack.len() >= 2,
    ensures
        ({
            let n = t.stack.len() as int;
            let a = t.stack[n - 1];
            let b = t.stack[n - 2];
            let s = a + b;
            let wrapped: int = if s > i64::MAX {
                s - 0x1_0000_0000_0000_0000
            } else if s < i64::MIN {
                s + 0x1_0000_0000_0000_0000
            } else {
                s
            };
            &&& step(code, t).1 == Ok::<Execution, ExecutionError>(Execution::Continue)
            &&& step(code, t).0.stack == t.stack.take(n - 2).push((wrapped as i64))
            &&& step(code, t).0.pc == (t.pc + 1) as u64
            &&& step(code, t).0.forked == t.forked
        }),
{
    let n = t.stack.len() as int;
    let a = t.stack[n - 1];
    let b = t.stack[n - 2];
    let s = a + b;
    let wrapped: int = if s > i64::MAX {
        s - 0x1_0000_0000_0000_0000
    } else if s < i64::MIN {
        s + 0x1_0000_0000_0000_0000
    } else {
        s
    };
    assert(b.wrapping_add(a) == wrapped as i64);
    assert(step(code, t).0.stack == t.stack.take(n - 2).push(b.wrapping_add(a)));
}

/// `Jump` with the empty condition set always jumps; with a nonempty set
/// it jumps iff every listed condition holds (`zero`: the top of the
/// stack, peeked, equals 0; `fork`: the task's flag is set). In either
/// case the target is consumed from the stack iff the operand is absent.
pub proof fn lemma_jump(code: Seq<OpCode>, t: TaskView)
    requires
        t.pc < code.len(),
        code[t.pc as int] matches OpCode::Jump(flags, operand),
        (code[t.pc as int] matches OpCode::Jump(flags, _) && flags.zero) ==> t.stack.len() > 0,
        (code[t.pc as int] matches OpCode::Jump(_, operand) && operand is None) ==> t.stack.len()
            > 0,
    ensures
        ({
            let n = t.stack.len() as int;
            let flags = code[t.pc as int]->Jump_0;
            let operand = code[t.pc as int]->Jump_1;
            let taken = (flags.zero ==> t.stack[n - 1] == 0) && (flags.fork ==> t.forked);
            let target = match operand {
                Some(v) => v,
                None => t.stack[n - 1],
            };
            &&& flags.spec_is_empty() ==> taken
            &&& step(code, t).1 == Ok::<Execution, ExecutionError>(Execution::Continue)
            &&& step(code, t).0.stack == (if operand is Some {
                t.stack
            } else {
                t.stack.take(n - 1)
            })
            &&& step(code, t).0.pc == (if taken {
                target_pc(target)
            } else {
                (t.pc + 1) as u64
            })
            &&& step(code, t).0.forked == t.forked
        }),
{
}

/// Reading a pushed program counter back as a jump target restores the
/// program counter exactly.
pub proof fn lemma_pc_roundtrip(u: u64)
    ensures
        target_pc(stack_value(u)) == u,
{
}

/// `JumpToSubroutine` and `Return` form a stack-disciplined call: the
/// jump pushes the index of the following instruction, and a `Return`
/// reached later with that value still on top hands control back to the
/// instruction after the `JumpToSubroutine`, consuming the value.
pub proof fn lemma_jsr_ret(code: Seq<OpCode>, t: TaskView, s: TaskView, target: i64)
    requires
        t.pc < code.len(),
        code[t.pc as int] == OpCode::JumpToSubroutine(Some(target)),
        s.pc < code.len(),
        code[s.pc as int] == OpCode::Return,
        s.stack.len() > 0,
        s.stack.last() == stack_value((t.pc + 1) as u64),
    ensures
        step(code, t).1 == Ok::<Execution, ExecutionError>(Execution::Continue),
        step(code, t).0.pc == target_pc(target),
        step(code, t).0.stack == t.stack.push(stack_value((t.pc + 1) as u64)),
        step(code, s).1 == Ok::<Execution, ExecutionError>(Execution::Continue),
        step(code, s).0.pc == (t.pc + 1) as u64,
        step(code, s).0.stack == s.stack.take(s.stack.len() - 1),
{
    lemma_pc_roundtrip((t.pc + 1) as u64);
}

/// Every adjacent pair of states in the trace is one [`step`] with
/// outcome `Continue`.
pub open spec fn continue_trace(code: Seq<OpCode>, tr: Seq<TaskView>) -> bool {
    forall|i: int|
        0 <= i < tr.len() - 1 ==> #[trigger] step(code, tr[i]) == (
            tr[i + 1],
            Ok::<Execution, ExecutionError>(Execution::Continue),
        )
}

/// `b` is reachable from `a` by exactly `n` steps that all continue
/// within the task.
pub open spec fn reaches_n(code: Seq<OpCode>, a: TaskView, b: TaskView, n: nat) -> bool {
    exists|tr: Seq<TaskView>|
        {
            &&& tr.len() == n + 1
            &&& tr.first() == a
            &&& tr.last() == b
            &&& #[trigger] continue_trace(code, tr)
        }
}

/// `b` is reachable from `a` by zero or more steps that all continue
/// within the task.
pub open spec fn reaches(code: Seq<OpCode>, a: TaskView, b: TaskView) -> bool {
    exists|tr: Seq<TaskView>|
        {
            &&& tr.len() >= 1
            &&& tr.first() == a
            &&& tr.last() == b
            &&& #[trigger] continue_trace(code, tr)
        }
}

/// Reachability is reflexive: the one-state trace.
pub proof fn lemma_reaches_n_refl(code: Seq<OpCode>, a: TaskView)
    ensures
        reaches_n(code, a, a, 0),
{
    let tr = seq![a];
    assert(continue_trace(code, tr));
    assert(tr.len() == 1 && tr.first() == a && tr.last() == a);
}

/// Counted reachability is plain reachability.
pub proof fn lemma_reaches_n_to_reaches(code: Seq<OpCode>, a: TaskView, b: TaskView, n: nat)
    requires
        reaches_n(code, a, b, n),
    ensures
        reaches(code, a, b),
{
    let tr = choose|tr: Seq<TaskView>|
        {
            &&& tr.len() == n + 1
            &&& tr.first() == a
            &&& tr.last() == b
            &&& #[trigger] continue_trace(code, tr)
        };
    assert(tr.len() >= 1 && tr.first() == a && tr.last() == b && continue_trace(code, tr));
}

/// Reachability extends by one `Continue` step.
pub proof fn lemma_reaches_n_step(code: Seq<OpCode>, a: TaskView, b: TaskView, c: TaskView, n: nat)
    requires
        reaches_n(code, a, b, n),
        step(code, b).0 == c,
        step(code, b).1 == Ok::<Execution, ExecutionError>(Execution::Continue),
    ensures
        reaches_n(code, a, c, n + 1),
{
    let tr = choose|tr: Seq<TaskView>|
        {
            &&& tr.len() == n + 1
            &&& tr.first() == a
            &&& tr.last() == b
            &&& #[trigger] continue_trace(code, tr)
        };
    let tr2 = tr.push(c);
    assert forall|i: int| 0 <= i < tr2.len() - 1 implies #[trigger] step(code, tr2[i]) == (
        tr2[i + 1],
        Ok::<Execution, ExecutionError>(Execution::Continue),
    ) by {
        if i < tr.len() - 1 {
            assert(tr2[i] == tr[i] && tr2[i + 1] == tr[i + 1]);
        } else {
            assert(tr2[i] == tr.last() && tr2[i + 1] == c);
            assert(step(code, b) == (c, Ok::<Execution, ExecutionError>(Execution::Continue)));
        }
    }
    assert(tr2.len() == n + 2 && tr2.first() == a && tr2.last() == c);
    assert(continue_trace(code, tr2));
}

/// The state after `n` continuing steps is unique: [`step`] is a
/// function, so a task's execution is deterministic.
pub proof fn lemma_state_unique(code: Seq<OpCode>, a: TaskView, b1: TaskView, b2: TaskView, n: nat)
    requires
        reaches_n(code, a, b1, n),
        reaches_n(code, a, b2, n),
    ensures
        b1 == b2,
    decreases n,
{
    let tr1 = choose|tr: Seq<TaskView>|
        {
            &&& tr.len() == n + 1
            &&& tr.first() == a
            &&& tr.last() == b1
            &&& #[trigger] continue_trace(code, tr)
        };
    let tr2 = choose|tr: Seq<TaskView>|
        {
            &&& tr.len() == n + 1
            &&& tr.first() == a
            &&& tr.last() == b2
            &&& #[trigger] continue_trace(code, tr)
        };
    if n == 0 {
        assert(b1 == a && b2 == a);
    } else {
        let p1 = tr1.drop_last();
        let p2 = tr2.drop_last();
        assert forall|i: int| 0 <= i < p1.len() - 1 implies #[trigger] step(code, p1[i]) == (
            p1[i + 1],
            Ok::<Execution, ExecutionError>(Execution::Continue),
        ) by {
            assert(p1[i] == tr1[i] && p1[i + 1] == tr1[i + 1]);
        }
        assert(continue_trace(code, p1));
        assert forall|i: int| 0 <= i < p2.len() - 1 implies #[trigger] step(code, p2[i]) == (
            p2[i + 1],
            Ok::<Execution, ExecutionError>(Execution::Continue),
        ) by {
            assert(p2[i] == tr2[i] && p2[i + 1] == tr2[i + 1]);
        }
        assert(continue_trace(code, p2));
        assert(p1.len() == n && p1.first() == a && p1.last() == tr1[n - 1]);
        assert(p2.len() == n && p2.first() == a && p2.last() == tr2[n - 1]);
        assert(reaches_n(code, a, tr1[n - 1], (n - 1) as nat));
        assert(reaches_n(code, a, tr2[n - 1], (n - 1) as nat));
        lemma_state_unique(code, a, tr1[n - 1], tr2[n - 1], (n - 1) as nat);
        assert(step(code, tr1[n - 1]) == (tr1[n as int], Ok::<Execution, ExecutionError>(
            Execution::Continue,
        )));
        assert(step(code, tr2[n - 1]) == (tr2[n as int], Ok::<Execution, ExecutionError>(
            Execution::Continue,
        )));
    }
}

/// A task has at most one yield point: if two states are both reachable
/// by continuing steps and both yield (their next step is anything but
/// `Continue`), they are the same state, reached after the same number
/// of steps. With [`Task::run`]'s contract this pins a run's final state
/// and result exactly.
pub proof fn lemma_yield_deterministic(
    code: Seq<OpCode>,
    a: TaskView,
    b1: TaskView,
    n1: nat,
    b2: TaskView,
    n2: nat,
)
    requires
        reaches_n(code, a, b1, n1),
        reaches_n(code, a, b2, n2),
        step(code, b1).1 != Ok::<Execution, ExecutionError>(Execution::Continue),
        step(code, b2).1 != Ok::<Execution, ExecutionError>(Execution::Continue),
    ensures
        n1 == n2,
        b1 == b2,
{
    lemma_yield_stops(code, a, b1, n1, b2, n2);
    lemma_yield_stops(code, a, b2, n2, b1, n1);
    lemma_state_unique(code, a, b1, b2, n1);
}

/// A yielding state ends its task's run: no longer trace of continuing
/// steps from the same start exists.
pub proof fn lemma_yield_stops(
    code: Seq<OpCode>,
    a: TaskView,
    yielded: TaskView,
    n: nat,
    b: TaskView,
    m: nat,
)
    requires
        reaches_n(code, a, yielded, n),
        step(code, yielded).1 != Ok::<Execution, ExecutionError>(Execution::Continue),
        reaches_n(code, a, b, m),
    ensures
        m <= n,
{
    if m > n {
        // The yield point would sit on the longer trace, where its step
        // continues: contradiction.
        let tr2 = choose|tr: Seq<TaskView>|
            {
                &&& tr.len() == m + 1
                &&& tr.first() == a
                &&& tr.last() == b
                &&& #[trigger] continue_trace(code, tr)
            };
        let prefix = tr2.take(n + 1int);
        assert forall|i: int| 0 <= i < prefix.len() - 1 implies #[trigger] step(code, prefix[i])
            == (prefix[i + 1], Ok::<Execution, ExecutionError>(Execution::Continue)) by {
            assert(prefix[i] == tr2[i] && prefix[i + 1] == tr2[i + 1]);
        }
        assert(continue_trace(code, prefix));
        assert(prefix.len() == n + 1 && prefix.first() == a && prefix.last() == tr2[n as int]);
        assert(reaches_n(code, a, tr2[n as int], n));
        lemma_state_unique(code, a, yielded, tr2[n as int], n);
        assert(step(code, tr2[n as int]) == (tr2[n + 1int], Ok::<Execution, ExecutionError>(
            Execution::Continue,
        )));
    }
}

/// A counted trace behind plain reachability.
pub proof fn lemma_reaches_counted(code: Seq<OpCode>, a: TaskView, b: TaskView) -> (n: nat)
    requires
        reaches(code, a, b),
    ensures
        reaches_n(code, a, b, n),
{
    let tr = choose|tr: Seq<TaskView>|
        {
            &&& tr.len() >= 1
            &&& tr.first() == a
            &&& tr.last() == b
            &&& #[trigger] continue_trace(code, tr)
        };
    let n = (tr.len() - 1) as nat;
    assert(tr.len() == n + 1);
    n
}

/// Counted reachability concatenates: traces compose end to end.
pub proof fn lemma_reaches_n_trans(
    code: Seq<OpCode>,
    a: TaskView,
    b: TaskView,
    c: TaskView,
    n1: nat,
    n2: nat,
)
    requires
        reaches_n(code, a, b, n1),
        reaches_n(code, b, c, n2),
    ensures
        reaches_n(code, a, c, n1 + n2),
{
    let tr1 = choose|tr: Seq<TaskView>|
        {
            &&& tr.len() == n1 + 1
            &&& tr.first() == a
            &&& tr.last() == b
            &&& #[trigger] continue_trace(code, tr)
        };
    let tr2 = choose|tr: Seq<TaskView>|
        {
            &&& tr.len() == n2 + 1
            &&& tr.first() == b
            &&& tr.last() == c
            &&& #[trigger] continue_trace(code, tr)
        };
    let tr = tr1 + tr2.skip(1);
    assert(tr.len() == n1 + n2 + 1);
    assert(tr.first() == tr1[0]);
    if n2 == 0 {
        assert(tr =~= tr1);
        assert(tr.last() == b && b == c);
    } else {
        assert(tr.last() == tr2.skip(1)[n2 - 1]);
        assert(tr2.skip(1)[n2 - 1] == tr2[n2 as int]);
    }
    assert forall|i: int| 0 <= i < tr.len() - 1 implies #[trigger] step(code, tr[i]) == (
        tr[i + 1],
        Ok::<Execution, ExecutionError>(Execution::Continue),
    ) by {
        if i < n1 {
            assert(tr[i] == tr1[i]);
            assert(tr[i + 1] == tr1[i + 1]);
        } else {
            if i == n1 {
                assert(tr[i] == tr1[i]);
                assert(tr1[i] == tr1.last() && tr1.last() == b && b == tr2[0]);
            } else {
                assert(tr[i] == tr2.skip(1)[i - (n1 + 1)]);
                assert(tr2.skip(1)[i - (n1 + 1)] == tr2[i - n1]);
            }
            assert(tr[i] == tr2[i - n1]);
            assert(tr[i + 1] == tr2.skip(1)[i - n1] && tr2.skip(1)[i - n1] == tr2[i - n1 + 1]);
            assert(step(code, tr2[i - n1]) == (tr2[i - n1 + 1], Ok::<Execution, ExecutionError>(
                Execution::Continue,
            )));
        }
    }
    assert(continue_trace(code, tr));
    assert(tr.len() == (n1 + n2) + 1 && tr.first() == a && tr.last() == c);
}

/// Plain reachability concatenates.
pub proof fn lemma_reaches_trans(code: Seq<OpCode>, a: TaskView, b: TaskView, c: TaskView)
    requires
        reaches(code, a, b),
        reaches(code, b, c),
    ensures
        reaches(code, a, c),
{
    let n1 = lemma_reaches_counted(code, a, b);
    let n2 = lemma_reaches_counted(code, b, c);
    lemma_reaches_n_trans(code, a, b, c, n1, n2);
    lemma_reaches_n_to_reaches(code, a, c, n1 + n2);
}

/// The state of a task that has not run yet: program counter 0, empty
/// stack, not forked.
pub open spec fn initial_task_view() -> TaskView {
    TaskView { pc: 0, stack: Seq::empty(), forked: false }
}

/// A program whose every instruction stays within the task: no `Fork`,
/// `Join` or shared-memory access, so the only yields are termination
/// and errors, and a whole run is one uninterrupted trace of [`step`].
pub open spec fn scheduler_free(code: Seq<OpCode>) -> bool {
    forall|i: int|
        0 <= i < code.len() ==> {
            &&& !((#[trigger] code[i]) is Fork)
            &&& !(code[i] is Join)
            &&& !(code[i] is Store)
            &&& !(code[i] is StoreRelative)
            &&& !(code[i] is Load)
            &&& !(code[i] is LoadRelative)
        }
}

/// In a scheduler-free program no state can yield a fork, join or
/// memory request.
pub proof fn lemma_scheduler_free_step(code: Seq<OpCode>, t: TaskView)
    requires
        scheduler_free(code),
    ensures
        !(step(code, t).1 matches Ok(Execution::Fork)),
        !(step(code, t).1 matches Ok(Execution::Join { .. })),
        !(step(code, t).1 matches Ok(Execution::Store { .. })),
        !(step(code, t).1 matches Ok(Execution::Load { .. })),
{
    if t.pc < code.len() {
        assert(!(code[t.pc as int] is Fork) && !(code[t.pc as int] is Join) && !(code[t.pc as int]
            is Store) && !(code[t.pc as int] is StoreRelative) && !(code[t.pc as int] is Load)
            && !(code[t.pc as int] is LoadRelative));
    }
}

/// The task halts within `bound` steps: some state fewer than `bound`
/// continuing steps away terminates normally.
pub open spec fn halts_within(code: Seq<OpCode>, start: TaskView, bound: nat) -> bool {
    exists|mid: TaskView, n: nat|
        {
            &&& n < bound
            &&& #[trigger] reaches_n(code, start, mid, n)
            &&& step(code, mid).1 == Ok::<Execution, ExecutionError>(Execution::Terminated)
        }
}

} // verus!
