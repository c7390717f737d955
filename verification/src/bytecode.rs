//! The immutable bytecode image and its opcodes.

use vstd::prelude::*;

verus! {

/// The conditions a `Jump` may be predicated on. An empty set means the
/// jump is unconditional; otherwise every listed condition must hold.
#[derive(Clone, Copy, Debug, PartialEq, Eq, Structural)]
pub struct ConditionFlags {
    /// Jump only if the top of the stack equals zero (peeked, not popped).
    pub zero: bool,
    /// Jump only if the task's "forked" flag is set.
    pub fork: bool,
}

impl ConditionFlags {
    /// The empty set of conditions: an unconditional jump.
    pub fn empty() -> (r: ConditionFlags)
        ensures
            r == (ConditionFlags { zero: false, fork: false }),
    {
        ConditionFlags { zero: false, fork: false }
    }

    /// The condition "top of stack is zero".
    pub fn zero() -> (r: ConditionFlags)
        ensures
            r == (ConditionFlags { zero: true, fork: false }),
    {
        ConditionFlags { zero: true, fork: false }
    }

    /// The condition "the task's forked flag is set".
    pub fn fork() -> (r: ConditionFlags)
        ensures
            r == (ConditionFlags { zero: false, fork: true }),
    {
        ConditionFlags { zero: false, fork: true }
    }

    pub open spec fn spec_is_empty(&self) -> bool {
        !self.zero && !self.fork
    }

    /// True iff no condition is listed, so a jump fires unconditionally.
    #[verifier::when_used_as_spec(spec_is_empty)]
    pub fn is_empty(&self) -> (r: bool)
        ensures
            r == self.spec_is_empty(),
    {
        !self.zero && !self.fork
    }

    /// The union of two condition sets.
    pub fn union(self, other: ConditionFlags) -> (r: ConditionFlags)
        ensures
            r.zero == (self.zero || other.zero),
            r.fork == (self.fork || other.fork),
    {
        ConditionFlags { zero: self.zero || other.zero, fork: self.fork || other.fork }
    }
}

/// One instruction of the virtual machine.
#[derive(Clone, Copy, Debug, PartialEq, Eq, Structural)]
pub enum OpCode {
    /// Push the literal onto the stack.
    Push(i64),
    /// Pop two values and push their wrapping sum.
    Add,
    /// Emit a diagnostic dump; program counter advances, stack is untouched.
    DumpDebug,
    /// Conditional jump. When the operand is `None` the target is popped
    /// from the stack, whether or not the jump is taken.
    Jump(ConditionFlags, Option<i64>),
    /// Push the index of the following instruction, then jump.
    JumpToSubroutine(Option<i64>),
    /// Pop the top and insert it at the given depth from the top.
    Bury(i64),
    /// Remove the element at the given depth (0 = top) and push it on top.
    Dredge(i64),
    /// Duplicate the top of the stack.
    Duplicate,
    /// Pop a target from the stack and jump to it.
    Return,
    /// Discard the top of the stack.
    Pop,
    /// Yield to the scheduler, requesting a sibling task.
    Fork,
    /// Pop a task id; wait for that task and append the last `count`
    /// values of its final stack to ours.
    Join(i64),
    /// Terminate the task normally.
    Halt,
    /// Pop a value and write it to shared memory at the given address.
    Store(u64),
    /// Pop a base address, add the offset, pop a value and store it there.
    StoreRelative(u64),
    /// Push the shared-memory value at the given address (0 if unwritten).
    Load(u64),
    /// Pop a base address, add the offset, and load from there.
    LoadRelative(u64),
    /// Terminate the task with an execution error.
    Panic,
}

/// An immutable indexed sequence of opcodes, registered once under a
/// bytecode id and then shared by every worker.
#[derive(Debug)]
pub struct ByteCode {
    opcodes: Vec<OpCode>,
}

impl View for ByteCode {
    type V = Seq<OpCode>;

    closed spec fn view(&self) -> Seq<OpCode> {
        self.opcodes@
    }
}

impl ByteCode {
    /// Wrap a sequence of opcodes as a bytecode image.
    pub fn new(opcodes: Vec<OpCode>) -> (r: ByteCode)
        ensures
            r@ == opcodes@,
    {
        ByteCode { opcodes }
    }

    /// The number of opcodes in the image.
    pub fn len(&self) -> (r: usize)
        ensures
            r == self@.len(),
    {
        self.opcodes.len()
    }

    /// The opcode at `index`, or `None` past the end of the image.
    pub fn get(&self, index: usize) -> (r: Option<&OpCode>)
        ensures
            index < self@.len() ==> (r matches Some(op) && *op == self@[index as int]),
            index >= self@.len() ==> r is None,
    {
        if index < self.opcodes.len() {
            Some(&self.opcodes[index])
        } else {
            None
        }
    }

    /// The first index of the debug window around `index`.
    pub open spec fn window_start(index: int, bounds: int) -> int {
        if index - bounds > 0 {
            index - bounds
        } else {
            0
        }
    }

    /// One past the last index of the debug window around `index`.
    pub open spec fn window_end(index: int, bounds: int, len: int) -> int {
        if index + bounds + 1 < len {
            index + bounds + 1
        } else {
            len
        }
    }

    /// The window of opcodes within `bounds` of `index`, clipped to the
    /// image, each paired with its index. Used for diagnostic dumps.
    pub fn surrounding(&self, index: usize, bounds: usize) -> (r: Vec<(usize, OpCode)>)
        ensures
            ({
                let start = Self::window_start(index as int, bounds as int);
                let end = Self::window_end(index as int, bounds as int, self@.len() as int);
                &&& r@.len() == (if start < end {
                    end - start
                } else {
                    0
                })
                &&& forall|i: int|
                    0 <= i < r@.len() ==> r@[i] == (((start + i) as usize), self@[start + i])
            }),
    {
        let mut out: Vec<(usize, OpCode)> = Vec::new();
        let start = if index >= bounds {
            index - bounds
        } else {
            0
        };
        let end = if bounds <= usize::MAX - index && index + bounds < self.opcodes.len() {
            index + bounds + 1
        } else {
            self.opcodes.len()
        };
        let mut i = start;
        while i < end
            invariant
                start <= i <= end || i == start,
                end <= self.opcodes.len(),
                out@.len() == (if i > start {
                    i - start
                } else {
                    0
                }),
                forall|j: int|
                    0 <= j < out@.len() ==> out@[j] == (((start + j) as usize), self@[start + j]),
            decreases end - i,
    {
            out.push((i, self.opcodes[i]));
            i += 1;
        }
        out
    }
}

} // verus!
