//! The virtual machine: code, operand stack, call frames and heap.

use vstd::prelude::*;
use vstd::string::*;
use crate::fault::VmFault;
use crate::assembly::find_label;
use crate::generator::Generator;
use crate::heap::{zeros, Heap, DEFAULT_HEAP_LIMIT};
use crate::laws::{lemma_initial_wf, lemma_run_preserves_wf};
use crate::machine::{
    argument_slots, exec_add, exec_alloc, exec_call, exec_get, exec_goto, exec_load, exec_pop,
    exec_popret, exec_print, exec_push, exec_put, exec_ret, exec_store, exec_unknown, initial,
    lemma_run_split, run, DecodePolicy, FrameView, Machine, Status,
};
use crate::op::OP;
use crate::text::{decimal, spec_decimal};

verus! {

/// How many values the operand stack of a machine made by [`VM::new`] may hold.
pub const DEFAULT_STACK_CAPACITY: usize = 1024;

/// How many local slots a frame made by [`StackFrame::new`] has.
pub const DEFAULT_LOCALS: usize = 32;

/// Moving an unsigned position by a signed offset.
pub trait SignedChanged: Sized {
    /// The position `offset` away from `self`, if the type can hold it.
    spec fn spec_change_signed(&self, offset: isize) -> Option<Self>;

    /// The position `offset` away from `self`, or `None` if it would be
    /// negative or too large for the type.
    fn change_signed(&self, offset: isize) -> (r: Option<Self>)
        ensures
            r == self.spec_change_signed(offset),
    ;
}

impl SignedChanged for usize {
    open spec fn spec_change_signed(&self, offset: isize) -> Option<usize> {
        if 0 <= *self + offset <= usize::MAX {
            Some((*self + offset) as usize)
        } else {
            None
        }
    }

    fn change_signed(&self, offset: isize) -> (r: Option<usize>) {
        if offset >= 0 {
            self.checked_add(offset as usize)
        } else {
            let magnitude: usize = (-(offset + 1)) as usize + 1;
            self.checked_sub(magnitude)
        }
    }
}

/// The record of one call.
pub struct StackFrame {
    /// Where the instruction pointer goes when the frame is left.
    pub return_address: usize,
    /// Where the stack pointer goes when the frame is left; the frame may
    /// not pop below it.
    pub stack_ptr: usize,
    /// The frame's local slots.
    pub locals: Vec<u64>,
}

impl View for StackFrame {
    type V = FrameView;

    open spec fn view(&self) -> FrameView {
        FrameView {
            return_address: self.return_address as nat,
            stack_ptr: self.stack_ptr as nat,
            locals: self.locals@,
        }
    }
}

impl StackFrame {
    /// A frame with the default number of local slots, all zero.
    pub fn new(return_address: usize, stack_ptr: usize) -> (frame: Self)
        ensures
            frame@ == (FrameView {
                return_address: return_address as nat,
                stack_ptr: stack_ptr as nat,
                locals: zeros(DEFAULT_LOCALS as nat),
            }),
    {
        let locals: Vec<u64> = vec![0u64; DEFAULT_LOCALS];
        assert(locals@ =~= zeros(DEFAULT_LOCALS as nat));
        StackFrame { return_address, stack_ptr, locals }
    }
}

/// The views of the frames of a stack of frames.
pub open spec fn frame_views(frames: Seq<StackFrame>) -> Seq<FrameView> {
    frames.map_values(|f: StackFrame| f@)
}

/// Whether an operation that was to turn `before` into `expected` did so:
/// it succeeded and left `expected`, or it returned the expected fault and
/// left `before` as it was.
pub open spec fn moved(
    before: Machine,
    after: Machine,
    r: Result<(), VmFault>,
    expected: Result<Machine, VmFault>,
) -> bool {
    match expected {
        Ok(next) => r is Ok && after == next,
        Err(fault) => r == Err::<(), VmFault>(fault) && after == before,
    }
}

/// The text of the first `n` of the printed `values`: each in decimal, on a
/// line of its own.
pub open spec fn printed_lines(values: Seq<u64>, n: nat) -> Seq<char>
    decreases n,
{
    if n == 0 {
        Seq::empty()
    } else {
        printed_lines(values, (n - 1) as nat) + spec_decimal(values[n - 1] as nat) + seq!['\n']
    }
}

/// The virtual machine.
///
/// The code ends at `byte_code.len()`, and the stack pointer is
/// `stack.len()`. `output` collects what `PRINT` emits.
pub struct VM {
    /// The code: opcodes and operands.
    pub byte_code: Vec<u64>,
    /// The operand stack, bottom first.
    pub stack: Vec<u64>,
    /// How many values `stack` may hold.
    pub stack_capacity: usize,
    /// How many local slots a called frame gets.
    pub locals: usize,
    pub heap: Heap,
    /// The offset of the next instruction. A jump may take it anywhere, so
    /// it is a word like the operand that it is taken from.
    pub instruction_ptr: u64,
    /// The call frames, the root first and the current one last.
    pub frames: Vec<StackFrame>,
    /// The values printed so far, in order.
    pub output: Vec<u64>,
    /// What a word that encodes no instruction does.
    pub policy: DecodePolicy,
}

impl View for VM {
    type V = Machine;

    open spec fn view(&self) -> Machine {
        Machine {
            code: self.byte_code@,
            stack: self.stack@,
            stack_capacity: self.stack_capacity as nat,
            locals: self.locals as nat,
            heap: self.heap.memory@,
            heap_limit: self.heap.limit as nat,
            ip: self.instruction_ptr as nat,
            frames: frame_views(self.frames@),
            output: self.output@,
            policy: self.policy,
        }
    }
}

impl VM {
    /// Whether there is an instruction to execute.
    pub open spec fn running(&self) -> bool {
        self.instruction_ptr < self.byte_code.len()
    }

    /// The machine that will run the program assembled by `generator`,
    /// starting at the function label `@main`, with the default capacities
    /// and the lenient decode policy. Without such a label there is no machine.
    pub fn new(generator: Generator) -> (r: Result<Self, VmFault>)
        ensures
            match find_label(generator.image().functions, "@main"@) {
                Some(entry) => r is Ok && r->Ok_0@ == initial(
                    generator.byte_code@,
                    entry,
                    DEFAULT_STACK_CAPACITY as nat,
                    DEFAULT_LOCALS as nat,
                    DEFAULT_HEAP_LIMIT as nat,
                ),
                None => r is Err && r->Err_0 == VmFault::MissingEntryLabel,
            },
            r is Ok ==> r->Ok_0@.wf(),
    {
        proof {
            lemma_initial_wf(
                generator.byte_code@,
                generator.byte_code@.len(),
                DEFAULT_STACK_CAPACITY as nat,
                DEFAULT_LOCALS as nat,
                DEFAULT_HEAP_LIMIT as nat,
            );
        }
        let main_label = String::from_str("@main");
        match generator.get_function_location(&main_label) {
            None => Err(VmFault::MissingEntryLabel),
            Some(entry) => {
                let root = StackFrame::new(generator.byte_code.len(), 0);
                let mut frames: Vec<StackFrame> = Vec::new();
                frames.push(root);
                let vm = VM {
                    byte_code: generator.byte_code,
                    stack: Vec::new(),
                    stack_capacity: DEFAULT_STACK_CAPACITY,
                    locals: DEFAULT_LOCALS,
                    heap: Heap::new(),
                    instruction_ptr: entry as u64,
                    frames,
                    output: Vec::new(),
                    policy: DecodePolicy::LenientSkipUnknown,
                };
                assert(vm@.frames =~= seq![root@]);
                Ok(vm)
            },
        }
    }

    /// What the program has printed so far, as text: each value in decimal,
    /// on a line of its own.
    pub fn output_text(&self) -> (text: String)
        ensures
            text@ == printed_lines(self.output@, self.output@.len()),
    {
        proof {
            reveal_strlit("\n");
        }
        let mut text = String::new();
        let mut i: usize = 0;
        while i < self.output.len()
            invariant
                i <= self.output.len(),
                text@ == printed_lines(self.output@, i as nat),
                "\n"@ == seq!['\n'],
            decreases self.output.len() - i,
        {
            let number = decimal(self.output[i]);
            text.append(number.as_str());
            text.append("\n");
            i += 1;
            assert(text@ =~= printed_lines(self.output@, i as nat));
        }
        text
    }

    /// Whether the machine can go on.
    pub fn status(&self) -> (status: Status)
        ensures
            status == self@.status(),
    {
        if self.instruction_ptr < self.byte_code.len() as u64 {
            Status::Running
        } else {
            Status::Halted
        }
    }

    /// Executes the instruction under the instruction pointer, if the
    /// machine is running, and returns the status after it. A fault leaves
    /// the machine unchanged.
    pub fn step(&mut self) -> (r: Result<Status, VmFault>)
        ensures
            (final(self)@, r) == run(old(self)@, 1),
            old(self)@.wf() ==> final(self)@.wf(),
    {
        proof {
            if self@.wf() {
                lemma_run_preserves_wf(self@, 1);
            }
        }
        if self.instruction_ptr >= self.byte_code.len() as u64 {
            return Ok(Status::Halted);
        }
        let word: u64 = self.byte_code[self.instruction_ptr as usize];
        let done = match OP::from_u64(word) {
            Some(OP::PUSH) => self.push_op(),
            Some(OP::POP) => self.pop_op(),
            Some(OP::PRINT) => self.print_op(),
            Some(OP::ADD) => self.add_op(),
            Some(OP::STORE) => self.store_op(),
            Some(OP::LOAD) => self.load_op(),
            Some(OP::ALLOC) => self.alloc_op(),
            Some(OP::PUT) => self.put_op(),
            Some(OP::GET) => self.get_op(),
            Some(OP::RET) => self.return_op(),
            Some(OP::POPRET) => self.pop_return_op(),
            Some(OP::CALL) => self.call_op(),
            Some(OP::GOTO) => self.goto_op(),
            None => self.skip_op(word),
        };
        proof {
            reveal_with_fuel(run, 2);
        }
        match done {
            Ok(()) => Ok(self.status()),
            Err(fault) => Err(fault),
        }
    }

    /// Executes instructions until the machine halts, an instruction faults,
    /// or `max_steps` instructions have been executed, and says which.
    pub fn run(&mut self, max_steps: u64) -> (r: Result<Status, VmFault>)
        ensures
            (final(self)@, r) == run(old(self)@, max_steps as nat),
            old(self)@.wf() ==> final(self)@.wf(),
    {
        let mut left: u64 = max_steps;
        loop
            invariant
                run(old(self)@, max_steps as nat) == run(self@, left as nat),
                old(self)@.wf() ==> self@.wf(),
            decreases left,
        {
            if left == 0 {
                return Ok(self.status());
            }
            proof {
                lemma_run_split(self@, left as nat);
            }
            match self.step() {
                Err(fault) => {
                    return Err(fault);
                },
                Ok(Status::Halted) => {
                    return Ok(Status::Halted);
                },
                Ok(Status::Running) => {
                    left -= 1;
                },
            }
        }
    }

    /// The operand `k` words after the opcode under the instruction pointer.
    fn operand(&self, k: u64) -> (r: Result<u64, VmFault>)
        requires
            self.running(),
            k <= 2,
        ensures
            r == self@.operand(k as nat),
    {
        let at: usize = self.instruction_ptr as usize;
        if k as usize >= self.byte_code.len() - at {
            return Err(VmFault::TruncatedInstruction);
        }
        Ok(self.byte_code[at + k as usize])
    }

    /// The current frame.
    fn current_frame(&self) -> (r: Result<&StackFrame, VmFault>)
        ensures
            self@.frames.len() == 0 ==> r == Err::<&StackFrame, VmFault>(VmFault::FrameUnderflow),
            self@.frames.len() > 0 ==> r == Ok::<&StackFrame, VmFault>(
                &self.frames@[self.frames@.len() - 1],
            ) && r->Ok_0@ == self@.frames.last(),
    {
        let n: usize = self.frames.len();
        if n == 0 {
            return Err(VmFault::FrameUnderflow);
        }
        Ok(&self.frames[n - 1])
    }

    /// The stack height `offset` away from the present one, if the current
    /// frame may reach it.
    fn from_stack_ptr(&self, offset: isize) -> (r: Result<usize, VmFault>)
        ensures
            match self@.stack_position(offset as int) {
                Ok(height) => r == Ok::<usize, VmFault>(height as usize),
                Err(fault) => r == Err::<usize, VmFault>(fault),
            },
    {
        match self.stack.len().change_signed(offset) {
            None => Err(VmFault::StackUnderflow),
            Some(target) => {
                let frame = self.current_frame()?;
                if target < frame.stack_ptr {
                    Err(VmFault::StackUnderflow)
                } else {
                    Ok(target)
                }
            },
        }
    }

    /// Pushes `value`, unless the stack is at its capacity.
    fn stack_push(&mut self, value: u64) -> (r: Result<(), VmFault>)
        ensures
            moved(old(self)@, final(self)@, r, old(self)@.push(value)),
    {
        if self.stack.len() >= self.stack_capacity {
            return Err(VmFault::StackOverflow);
        }
        self.stack.push(value);
        Ok(())
    }

    /// Pops the top of the stack, if the current frame owns it.
    fn stack_pop(&mut self) -> (r: Result<u64, VmFault>)
        ensures
            match old(self)@.pop(1) {
                Ok(next) => r == Ok::<u64, VmFault>(old(self)@.peek(0)) && final(self)@ == next,
                Err(fault) => r == Err::<u64, VmFault>(fault) && final(self)@ == old(self)@,
            },
    {
        let height: usize = self.from_stack_ptr(-1)?;
        let value: u64 = self.stack[height];
        self.stack.truncate(height);
        Ok(value)
    }

    /// The top of the stack, if the current frame owns it.
    fn stack_peek(&self) -> (r: Result<u64, VmFault>)
        ensures
            match self@.pop(1) {
                Ok(_) => r == Ok::<u64, VmFault>(self@.peek(0)),
                Err(fault) => r == Err::<u64, VmFault>(fault),
            },
    {
        let height: usize = self.from_stack_ptr(-1)?;
        Ok(self.stack[height])
    }

    fn push_op(&mut self) -> (r: Result<(), VmFault>)
        requires
            old(self).running(),
        ensures
            moved(old(self)@, final(self)@, r, exec_push(old(self)@)),
    {
        let value: u64 = self.operand(1)?;
        self.stack_push(value)?;
        self.instruction_ptr += 2;
        Ok(())
    }

    fn pop_op(&mut self) -> (r: Result<(), VmFault>)
        requires
            old(self).running(),
        ensures
            moved(old(self)@, final(self)@, r, exec_pop(old(self)@)),
    {
        self.stack_pop()?;
        self.instruction_ptr += 1;
        Ok(())
    }

    fn print_op(&mut self) -> (r: Result<(), VmFault>)
        requires
            old(self).running(),
        ensures
            moved(old(self)@, final(self)@, r, exec_print(old(self)@)),
    {
        let value: u64 = self.stack_peek()?;
        self.output.push(value);
        self.instruction_ptr += 1;
        Ok(())
    }

    fn add_op(&mut self) -> (r: Result<(), VmFault>)
        requires
            old(self).running(),
        ensures
            moved(old(self)@, final(self)@, r, exec_add(old(self)@)),
    {
        let height: usize = self.from_stack_ptr(-2)?;
        if height >= self.stack_capacity {
            return Err(VmFault::StackOverflow);
        }
        let v1: u64 = self.stack[height + 1];
        let v2: u64 = self.stack[height];
        self.stack.truncate(height);
        self.stack.push(v1.wrapping_add(v2));
        self.instruction_ptr += 1;
        Ok(())
    }

    fn store_op(&mut self) -> (r: Result<(), VmFault>)
        requires
            old(self).running(),
        ensures
            moved(old(self)@, final(self)@, r, exec_store(old(self)@)),
    {
        let slot: u64 = self.operand(1)?;
        let height: usize = self.from_stack_ptr(-1)?;
        let value: u64 = self.stack[height];
        let mut frame: StackFrame = self.frames.pop().unwrap();
        if slot >= frame.locals.len() as u64 {
            self.frames.push(frame);
            assert(self.frames@ =~= old(self).frames@);
            return Err(VmFault::LocalOutOfRange);
        }
        frame.locals[slot as usize] = value;
        self.frames.push(frame);
        self.stack.truncate(height);
        self.instruction_ptr += 2;
        assert(self@.frames =~= old(self)@.frames.update(old(self)@.frames.len() - 1, frame@));
        Ok(())
    }

    fn load_op(&mut self) -> (r: Result<(), VmFault>)
        requires
            old(self).running(),
        ensures
            moved(old(self)@, final(self)@, r, exec_load(old(self)@)),
    {
        let slot: u64 = self.operand(1)?;
        let frame = self.current_frame()?;
        if slot >= frame.locals.len() as u64 {
            return Err(VmFault::LocalOutOfRange);
        }
        let value: u64 = frame.locals[slot as usize];
        self.stack_push(value)?;
        self.instruction_ptr += 2;
        Ok(())
    }

    fn alloc_op(&mut self) -> (r: Result<(), VmFault>)
        requires
            old(self).running(),
        ensures
            moved(old(self)@, final(self)@, r, exec_alloc(old(self)@)),
    {
        let height: usize = self.from_stack_ptr(-1)?;
        let size: u64 = self.stack[height];
        let used: usize = self.heap.memory.len();
        if used > self.heap.limit || size > (self.heap.limit - used) as u64 {
            return Err(VmFault::HeapExhausted);
        }
        if height >= self.stack_capacity {
            return Err(VmFault::StackOverflow);
        }
        match self.heap.allocate(size as usize) {
            Ok(address) => {
                self.stack.truncate(height);
                self.stack.push(address as u64);
                self.instruction_ptr += 1;
                Ok(())
            },
            Err(fault) => Err(fault),
        }
    }

    fn put_op(&mut self) -> (r: Result<(), VmFault>)
        requires
            old(self).running(),
        ensures
            moved(old(self)@, final(self)@, r, exec_put(old(self)@)),
    {
        let height: usize = self.from_stack_ptr(-2)?;
        assert(height + 2 == self.stack.len());
        let value: u64 = self.stack[height + 1];
        let address: u64 = self.stack[height];
        if address >= self.heap.memory.len() as u64 {
            return Err(VmFault::HeapAddressOutOfRange);
        }
        self.heap.put(address as usize, value)?;
        self.stack.truncate(height);
        self.instruction_ptr += 1;
        Ok(())
    }

    fn get_op(&mut self) -> (r: Result<(), VmFault>)
        requires
            old(self).running(),
        ensures
            moved(old(self)@, final(self)@, r, exec_get(old(self)@)),
    {
        let height: usize = self.from_stack_ptr(-1)?;
        let address: u64 = self.stack[height];
        if address >= self.heap.memory.len() as u64 {
            return Err(VmFault::HeapAddressOutOfRange);
        }
        let value: u64 = self.heap.get(address as usize)?;
        if height >= self.stack_capacity {
            return Err(VmFault::StackOverflow);
        }
        self.stack.truncate(height);
        self.stack.push(value);
        self.instruction_ptr += 1;
        Ok(())
    }

    fn return_op(&mut self) -> (r: Result<(), VmFault>)
        requires
            old(self).running(),
        ensures
            moved(old(self)@, final(self)@, r, exec_ret(old(self)@)),
    {
        let frame = self.current_frame()?;
        let base: usize = frame.stack_ptr;
        let return_address: usize = frame.return_address;
        if base > self.stack.len() {
            return Err(VmFault::StackUnderflow);
        }
        self.frames.pop();
        self.stack.truncate(base);
        self.instruction_ptr = return_address as u64;
        assert(self@.frames =~= old(self)@.frames.drop_last());
        Ok(())
    }

    fn pop_return_op(&mut self) -> (r: Result<(), VmFault>)
        requires
            old(self).running(),
        ensures
            moved(old(self)@, final(self)@, r, exec_popret(old(self)@)),
    {
        let height: usize = self.from_stack_ptr(-1)?;
        let value: u64 = self.stack[height];
        let frame = self.current_frame()?;
        let base: usize = frame.stack_ptr;
        let return_address: usize = frame.return_address;
        if base >= self.stack_capacity {
            return Err(VmFault::StackOverflow);
        }
        self.frames.pop();
        self.stack.truncate(base);
        self.stack.push(value);
        self.instruction_ptr = return_address as u64;
        assert(self@.frames =~= old(self)@.frames.drop_last());
        assert(self@.stack =~= old(self)@.stack.take(height as int).take(base as int).push(value));
        Ok(())
    }

    fn call_op(&mut self) -> (r: Result<(), VmFault>)
        requires
            old(self).running(),
        ensures
            moved(old(self)@, final(self)@, r, exec_call(old(self)@)),
    {
        let target: u64 = self.operand(1)?;
        let argc: u64 = self.operand(2)?;
        if argc > self.stack.len() as u64 {
            return Err(VmFault::StackUnderflow);
        }
        let frame = self.current_frame()?;
        let height: usize = self.stack.len() - argc as usize;
        if height < frame.stack_ptr {
            return Err(VmFault::StackUnderflow);
        }
        if argc > self.locals as u64 {
            return Err(VmFault::LocalOutOfRange);
        }
        let mut locals: Vec<u64> = self.stack.split_off(height);
        locals.resize(self.locals, 0u64);
        assert(locals@ =~= argument_slots(old(self)@.stack.skip(height as int), self.locals as nat));
        let return_address: usize = self.instruction_ptr as usize + 3;
        let called = StackFrame { return_address, stack_ptr: height, locals };
        self.frames.push(called);
        self.instruction_ptr = target;
        assert(self@.frames =~= old(self)@.frames.push(called@));
        assert(self@.stack =~= old(self)@.stack.take(height as int));
        Ok(())
    }

    fn goto_op(&mut self) -> (r: Result<(), VmFault>)
        requires
            old(self).running(),
        ensures
            moved(old(self)@, final(self)@, r, exec_goto(old(self)@)),
    {
        let target: u64 = self.operand(1)?;
        self.instruction_ptr = target;
        Ok(())
    }

    /// What the machine does with `word`, which encodes no instruction.
    fn skip_op(&mut self, word: u64) -> (r: Result<(), VmFault>)
        requires
            old(self).running(),
        ensures
            moved(old(self)@, final(self)@, r, exec_unknown(old(self)@, word)),
    {
        match self.policy {
            DecodePolicy::Strict => Err(VmFault::InvalidOpcode(word)),
            DecodePolicy::LenientSkipUnknown => {
                self.instruction_ptr += 1;
                Ok(())
            },
        }
    }
}

} // verus!
