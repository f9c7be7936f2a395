//! The machine as a mathematical value, and what each instruction does to it.
//!
//! [`Machine`] is the state that [`crate::vm::VM`] holds, with sequences in
//! place of vectors. [`execute`] gives the state after the instruction under
//! the instruction pointer, or the fault that it raises; [`run`] repeats it.
//! An instruction that faults changes nothing.

use vstd::prelude::*;
use crate::fault::VmFault;
use crate::heap::{spec_allocate, spec_get, spec_put, zeros};
use crate::op::OP;

verus! {

/// What the machine does with a word that encodes no instruction.
#[derive(Clone, Copy, Debug, PartialEq, Eq, Structural)]
pub enum DecodePolicy {
    /// It is a fault.
    Strict,
    /// It is skipped: the instruction pointer moves on by one, nothing else changes.
    LenientSkipUnknown,
}

/// Whether a machine can go on.
#[derive(Clone, Copy, Debug, PartialEq, Eq, Structural)]
pub enum Status {
    /// The instruction pointer is inside the code.
    Running,
    /// The instruction pointer is at or beyond the end of the code.
    Halted,
}

/// A call frame as a mathematical value.
#[verifier::ext_equal]
pub struct FrameView {
    /// Where execution resumes when the frame is left.
    pub return_address: nat,
    /// The stack height below which the frame may not pop.
    pub stack_ptr: nat,
    /// The frame's local slots.
    pub locals: Seq<u64>,
}

/// The state of the machine as a mathematical value.
#[verifier::ext_equal]
pub struct Machine {
    /// The code: opcodes and operands.
    pub code: Seq<u64>,
    /// The operand stack, bottom first.
    pub stack: Seq<u64>,
    /// How many values the operand stack may hold.
    pub stack_capacity: nat,
    /// How many local slots a new frame gets.
    pub locals: nat,
    /// The heap.
    pub heap: Seq<u64>,
    /// How many words the heap may hold.
    pub heap_limit: nat,
    /// The offset of the next instruction.
    pub ip: nat,
    /// The call frames, the root first and the current one last.
    pub frames: Seq<FrameView>,
    /// The values printed so far, in order.
    pub output: Seq<u64>,
    /// What a word that encodes no instruction does.
    pub policy: DecodePolicy,
}

impl Machine {
    /// Whether there is an instruction to execute.
    pub open spec fn running(self) -> bool {
        self.ip < self.code.len()
    }

    /// Whether the machine can go on.
    pub open spec fn status(self) -> Status {
        if self.running() {
            Status::Running
        } else {
            Status::Halted
        }
    }

    /// The invariant of a machine that was built from a program and then run.
    ///
    /// The stack and the heap are within their limits, which are such that
    /// a word can hold any stack height or heap address. Every frame has the
    /// configured number of local slots, and the frames' bases rise from the
    /// root to the current frame and do not exceed the stack height. The root
    /// frame returns to the end of the code, and a running machine has a frame.
    pub open spec fn wf(self) -> bool {
        &&& self.stack.len() <= self.stack_capacity <= usize::MAX
        &&& self.heap.len() <= self.heap_limit <= u64::MAX
        &&& forall|i: int|
            0 <= i < self.frames.len() ==> (#[trigger] self.frames[i]).locals.len() == self.locals
        &&& forall|i: int|
            0 <= i < self.frames.len() ==> (#[trigger] self.frames[i]).stack_ptr
                <= self.stack.len()
        &&& forall|i: int, j: int|
            0 <= i <= j < self.frames.len() ==> (#[trigger] self.frames[i]).stack_ptr <= (
            #[trigger] self.frames[j]).stack_ptr
        &&& self.frames.len() > 0 ==> self.frames[0].return_address == self.code.len()
        &&& self.running() ==> self.frames.len() > 0
    }

    /// The operand `k` words after the opcode under the instruction pointer.
    pub open spec fn operand(self, k: nat) -> Result<u64, VmFault> {
        if self.ip + k < self.code.len() {
            Ok(self.code[(self.ip + k) as int])
        } else {
            Err(VmFault::TruncatedInstruction)
        }
    }

    /// The stack height `offset` away from the present one, provided that the
    /// current frame may reach it: it is a height at all, there is a current
    /// frame, and the height is not below that frame's base.
    pub open spec fn stack_position(self, offset: int) -> Result<nat, VmFault> {
        let target = self.stack.len() + offset;
        if target < 0 || target > usize::MAX {
            Err(VmFault::StackUnderflow)
        } else if self.frames.len() == 0 {
            Err(VmFault::FrameUnderflow)
        } else if target < self.frames.last().stack_ptr {
            Err(VmFault::StackUnderflow)
        } else {
            Ok(target as nat)
        }
    }

    /// The machine with `value` pushed, unless the stack is at its capacity.
    pub open spec fn push(self, value: u64) -> Result<Machine, VmFault> {
        if self.stack.len() < self.stack_capacity {
            Ok(Machine { stack: self.stack.push(value), ..self })
        } else {
            Err(VmFault::StackOverflow)
        }
    }

    /// The machine with the topmost `n` values popped, provided that the
    /// current frame owns that many.
    pub open spec fn pop(self, n: nat) -> Result<Machine, VmFault> {
        match self.stack_position(-(n as int)) {
            Err(fault) => Err(fault),
            Ok(height) => Ok(Machine { stack: self.stack.take(height as int), ..self }),
        }
    }

    /// The value `depth` places below the top of the stack.
    pub open spec fn peek(self, depth: nat) -> u64 {
        self.stack[self.stack.len() - 1 - depth]
    }

    /// The machine with the instruction pointer at `ip`.
    pub open spec fn jump(self, ip: nat) -> Machine {
        Machine { ip, ..self }
    }

    /// The machine with the instruction pointer moved on by `words`.
    pub open spec fn advance(self, words: nat) -> Machine {
        self.jump(self.ip + words)
    }
}

/// `PUSH v`: push the operand.
pub open spec fn exec_push(m: Machine) -> Result<Machine, VmFault> {
    match m.operand(1) {
        Err(fault) => Err(fault),
        Ok(value) => match m.push(value) {
            Err(fault) => Err(fault),
            Ok(next) => Ok(next.advance(2)),
        },
    }
}

/// `POP`: discard the top of the stack.
pub open spec fn exec_pop(m: Machine) -> Result<Machine, VmFault> {
    match m.pop(1) {
        Err(fault) => Err(fault),
        Ok(next) => Ok(next.advance(1)),
    }
}

/// `PRINT`: append the top of the stack to the output, leaving it on the stack.
pub open spec fn exec_print(m: Machine) -> Result<Machine, VmFault> {
    match m.pop(1) {
        Err(fault) => Err(fault),
        Ok(_) => Ok(Machine { output: m.output.push(m.peek(0)), ..m }.advance(1)),
    }
}

/// The sum of two words, wrapping around at the word size.
pub open spec fn wrapping_sum(a: u64, b: u64) -> u64 {
    ((a + b) % 0x1_0000_0000_0000_0000) as u64
}

/// `ADD`: replace the two topmost values by their wrapping sum.
pub open spec fn exec_add(m: Machine) -> Result<Machine, VmFault> {
    match m.pop(2) {
        Err(fault) => Err(fault),
        Ok(popped) => match popped.push(wrapping_sum(m.peek(0), m.peek(1))) {
            Err(fault) => Err(fault),
            Ok(next) => Ok(next.advance(1)),
        },
    }
}

/// `STORE r`: pop a value into local slot `r` of the current frame.
pub open spec fn exec_store(m: Machine) -> Result<Machine, VmFault> {
    match m.operand(1) {
        Err(fault) => Err(fault),
        Ok(slot) => match m.pop(1) {
            Err(fault) => Err(fault),
            Ok(popped) => {
                let frame = m.frames.last();
                if slot < frame.locals.len() {
                    let stored = FrameView {
                        locals: frame.locals.update(slot as int, m.peek(0)),
                        ..frame
                    };
                    Ok(
                        Machine {
                            frames: m.frames.update(m.frames.len() - 1, stored),
                            ..popped
                        }.advance(2),
                    )
                } else {
                    Err(VmFault::LocalOutOfRange)
                }
            },
        },
    }
}

/// `LOAD r`: push a copy of local slot `r` of the current frame.
pub open spec fn exec_load(m: Machine) -> Result<Machine, VmFault> {
    match m.operand(1) {
        Err(fault) => Err(fault),
        Ok(slot) => if m.frames.len() == 0 {
            Err(VmFault::FrameUnderflow)
        } else if slot >= m.frames.last().locals.len() {
            Err(VmFault::LocalOutOfRange)
        } else {
            match m.push(m.frames.last().locals[slot as int]) {
                Err(fault) => Err(fault),
                Ok(next) => Ok(next.advance(2)),
            }
        },
    }
}

/// `ALLOC`: pop a size, append that many zero words to the heap, push the
/// address of the first.
pub open spec fn exec_alloc(m: Machine) -> Result<Machine, VmFault> {
    match m.pop(1) {
        Err(fault) => Err(fault),
        Ok(popped) => {
            let size = m.peek(0);
            if m.heap.len() + size > m.heap_limit {
                Err(VmFault::HeapExhausted)
            } else {
                match popped.push(m.heap.len() as u64) {
                    Err(fault) => Err(fault),
                    Ok(next) => Ok(
                        Machine { heap: spec_allocate(m.heap, size as nat), ..next }.advance(1),
                    ),
                }
            }
        },
    }
}

/// `PUT`: pop a value, pop an address, write the value at the address.
pub open spec fn exec_put(m: Machine) -> Result<Machine, VmFault> {
    match m.pop(2) {
        Err(fault) => Err(fault),
        Ok(popped) => match spec_put(m.heap, m.peek(1) as int, m.peek(0)) {
            Err(fault) => Err(fault),
            Ok(heap) => Ok(Machine { heap, ..popped }.advance(1)),
        },
    }
}

/// `GET`: pop an address, push the heap word at the address.
pub open spec fn exec_get(m: Machine) -> Result<Machine, VmFault> {
    match m.pop(1) {
        Err(fault) => Err(fault),
        Ok(popped) => match spec_get(m.heap, m.peek(0) as int) {
            Err(fault) => Err(fault),
            Ok(value) => match popped.push(value) {
                Err(fault) => Err(fault),
                Ok(next) => Ok(next.advance(1)),
            },
        },
    }
}

/// The machine after leaving the current frame: execution resumes at the
/// frame's return address with the stack cut back to the frame's base.
pub open spec fn leave_frame(m: Machine) -> Result<Machine, VmFault> {
    if m.frames.len() == 0 {
        Err(VmFault::FrameUnderflow)
    } else if m.frames.last().stack_ptr > m.stack.len() {
        Err(VmFault::StackUnderflow)
    } else {
        Ok(
            Machine {
                stack: m.stack.take(m.frames.last().stack_ptr as int),
                frames: m.frames.drop_last(),
                ..m
            }.jump(m.frames.last().return_address),
        )
    }
}

/// `RET`: leave the current frame.
pub open spec fn exec_ret(m: Machine) -> Result<Machine, VmFault> {
    leave_frame(m)
}

/// `POPRET`: pop the return value, leave the current frame, push the return value.
pub open spec fn exec_popret(m: Machine) -> Result<Machine, VmFault> {
    match m.pop(1) {
        Err(fault) => Err(fault),
        Ok(popped) => match leave_frame(popped) {
            Err(fault) => Err(fault),
            Ok(left) => left.push(m.peek(0)),
        },
    }
}

/// The local slots of a frame entered with the arguments `args`: the
/// arguments in the order in which they were pushed, then zeros.
pub open spec fn argument_slots(args: Seq<u64>, locals: nat) -> Seq<u64> {
    args + zeros((locals - args.len()) as nat)
}

/// `CALL target argc`: move the topmost `argc` values into the first local
/// slots of a new frame, which returns to the instruction after this one and
/// has the reduced stack height as its base, and jump to `target`.
pub open spec fn exec_call(m: Machine) -> Result<Machine, VmFault> {
    match m.operand(1) {
        Err(fault) => Err(fault),
        Ok(target) => match m.operand(2) {
            Err(fault) => Err(fault),
            Ok(argc) => match m.pop(argc as nat) {
                Err(fault) => Err(fault),
                Ok(popped) => if argc > m.locals {
                    Err(VmFault::LocalOutOfRange)
                } else {
                    let frame = FrameView {
                        return_address: m.ip + 3,
                        stack_ptr: popped.stack.len(),
                        locals: argument_slots(
                            m.stack.skip(popped.stack.len() as int),
                            m.locals,
                        ),
                    };
                    Ok(Machine { frames: m.frames.push(frame), ..popped }.jump(target as nat))
                },
            },
        },
    }
}

/// `GOTO target`: jump to `target`.
pub open spec fn exec_goto(m: Machine) -> Result<Machine, VmFault> {
    match m.operand(1) {
        Err(fault) => Err(fault),
        Ok(target) => Ok(m.jump(target as nat)),
    }
}

/// What a word that encodes no instruction does.
pub open spec fn exec_unknown(m: Machine, word: u64) -> Result<Machine, VmFault> {
    match m.policy {
        DecodePolicy::Strict => Err(VmFault::InvalidOpcode(word)),
        DecodePolicy::LenientSkipUnknown => Ok(m.advance(1)),
    }
}

/// What the instruction `op` does to `m`.
pub open spec fn exec_op(m: Machine, op: OP) -> Result<Machine, VmFault> {
    match op {
        OP::PUSH => exec_push(m),
        OP::POP => exec_pop(m),
        OP::PRINT => exec_print(m),
        OP::ADD => exec_add(m),
        OP::STORE => exec_store(m),
        OP::LOAD => exec_load(m),
        OP::ALLOC => exec_alloc(m),
        OP::PUT => exec_put(m),
        OP::GET => exec_get(m),
        OP::RET => exec_ret(m),
        OP::POPRET => exec_popret(m),
        OP::CALL => exec_call(m),
        OP::GOTO => exec_goto(m),
    }
}

/// The machine after the instruction under the instruction pointer of the
/// running machine `m`, or the fault that the instruction raises.
pub open spec fn execute(m: Machine) -> Result<Machine, VmFault> {
    let word = m.code[m.ip as int];
    match OP::spec_from_u64(word) {
        Some(op) => exec_op(m, op),
        None => exec_unknown(m, word),
    }
}

/// How a run of at most `fuel` instructions ends: the machine it leaves, and
/// either the machine's status or the fault that stopped it. A fault leaves
/// the machine as it was before the faulting instruction.
pub open spec fn run(m: Machine, fuel: nat) -> (Machine, Result<Status, VmFault>)
    decreases fuel,
{
    if !m.running() {
        (m, Ok(Status::Halted))
    } else if fuel == 0 {
        (m, Ok(Status::Running))
    } else {
        match execute(m) {
            Err(fault) => (m, Err(fault)),
            Ok(next) => run(next, (fuel - 1) as nat),
        }
    }
}

/// A run of `fuel` instructions is one instruction, then a run of one fewer
/// from where that instruction left the machine.
pub proof fn lemma_run_split(m: Machine, fuel: nat)
    requires
        fuel > 0,
    ensures
        run(m, fuel) == match run(m, 1) {
            (next, Ok(Status::Running)) => run(next, (fuel - 1) as nat),
            end => end,
        },
{
    reveal_with_fuel(run, 2);
}

/// The machine that starts the program `code` at offset `entry`: empty stack,
/// heap and output, and the root frame, which returns to the end of the code.
pub open spec fn initial(
    code: Seq<u64>,
    entry: nat,
    stack_capacity: nat,
    locals: nat,
    heap_limit: nat,
) -> Machine {
    Machine {
        code,
        stack: Seq::empty(),
        stack_capacity,
        locals,
        heap: Seq::empty(),
        heap_limit,
        ip: entry,
        frames: seq![FrameView { return_address: code.len(), stack_ptr: 0, locals: zeros(locals) }],
        output: Seq::empty(),
        policy: DecodePolicy::LenientSkipUnknown,
    }
}

} // verus!
