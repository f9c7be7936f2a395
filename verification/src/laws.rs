//! What holds of every run of the machine.

use vstd::prelude::*;
use crate::fault::VmFault;
use crate::machine::{execute, initial, run, Machine, Status};
use crate::op::OP;

verus! {

/// The instruction under the instruction pointer of the running machine `m`.
pub open spec fn current_op(m: Machine) -> Option<OP> {
    OP::spec_from_u64(m.code[m.ip as int])
}

/// Whether `after` runs the same program under the same limits as `before`.
pub open spec fn same_program(before: Machine, after: Machine) -> bool {
    &&& after.code == before.code
    &&& after.stack_capacity == before.stack_capacity
    &&& after.locals == before.locals
    &&& after.heap_limit == before.heap_limit
    &&& after.policy == before.policy
}

/// Whether `after` has kept what `before` had printed and allocated: the
/// output of `before` starts that of `after`, and the heap is no shorter.
pub open spec fn grown(before: Machine, after: Machine) -> bool {
    &&& before.output.is_prefix_of(after.output)
    &&& before.heap.len() <= after.heap.len()
}

/// A freshly built machine is well formed.
pub proof fn lemma_initial_wf(
    code: Seq<u64>,
    entry: nat,
    stack_capacity: nat,
    locals: nat,
    heap_limit: nat,
)
    requires
        stack_capacity <= usize::MAX,
        heap_limit <= u64::MAX,
    ensures
        initial(code, entry, stack_capacity, locals, heap_limit).wf(),
{
}

/// An instruction leaves a well-formed machine well formed, changes neither
/// the program nor the limits, and takes nothing back from the output or
/// the heap.
pub proof fn lemma_execute_preserves_wf(m: Machine)
    requires
        m.wf(),
        m.running(),
        execute(m) is Ok,
    ensures
        execute(m)->Ok_0.wf(),
        same_program(m, execute(m)->Ok_0),
        grown(m, execute(m)->Ok_0),
{
    let next = execute(m)->Ok_0;
    match current_op(m) {
        Some(OP::STORE) => {
            assert(next.wf());
        },
        Some(OP::CALL) => {
            assert(next.wf());
        },
        Some(OP::RET) => {
            assert(next.wf());
        },
        Some(OP::POPRET) => {
            assert(next.wf());
        },
        _ => {},
    }
}

/// A run leaves a well-formed machine well formed, changes neither the
/// program nor the limits, and takes nothing back from the output or the heap.
pub proof fn lemma_run_preserves_wf(m: Machine, fuel: nat)
    requires
        m.wf(),
    ensures
        run(m, fuel).0.wf(),
        same_program(m, run(m, fuel).0),
        grown(m, run(m, fuel).0),
    decreases fuel,
{
    if m.running() && fuel > 0 {
        if let Ok(next) = execute(m) {
            lemma_execute_preserves_wf(m);
            lemma_run_preserves_wf(next, (fuel - 1) as nat);
        }
    }
}

/// A run in two instalments is one run: running for `first` instructions
/// and, if the machine is then still running, for `second` more, ends as a
/// run of `first + second` instructions does.
pub proof fn lemma_run_in_instalments(m: Machine, first: nat, second: nat)
    ensures
        run(m, first + second) == match run(m, first) {
            (next, Ok(Status::Running)) => run(next, second),
            end => end,
        },
    decreases first,
{
    if m.running() && first > 0 {
        if let Ok(next) = execute(m) {
            lemma_run_in_instalments(next, (first - 1) as nat, second);
        }
    }
}

/// A run says that the machine halted exactly when it left the
/// instruction pointer at or beyond the end of the code, and says that it
/// is still running only when the fuel ran out.
pub proof fn lemma_run_status(m: Machine, fuel: nat)
    ensures
        run(m, fuel).1 == Ok::<Status, VmFault>(Status::Halted) <==> !run(m, fuel).0.running(),
        run(m, fuel).1 == Ok::<Status, VmFault>(Status::Running) ==> run(m, fuel).0.running(),
        run(m, fuel).1 is Err ==> run(m, fuel).0.running() && execute(run(m, fuel).0) == Err::<
            Machine,
            VmFault,
        >(run(m, fuel).1->Err_0),
    decreases fuel,
{
    if m.running() && fuel > 0 {
        if let Ok(next) = execute(m) {
            lemma_run_status(next, (fuel - 1) as nat);
        }
    }
}

/// The entry label is looked for when the machine is built and never again:
/// no instruction raises `MissingEntryLabel`, and in a well-formed machine,
/// whose root frame is still in place, none raises `FrameUnderflow`.
pub proof fn lemma_faults_of_an_instruction(m: Machine)
    requires
        m.running(),
    ensures
        execute(m) != Err::<Machine, VmFault>(VmFault::MissingEntryLabel),
        m.wf() ==> execute(m) != Err::<Machine, VmFault>(VmFault::FrameUnderflow),
{
}

/// No run ends with `MissingEntryLabel`, and no run of a well-formed
/// machine ends with `FrameUnderflow`.
pub proof fn lemma_faults_of_runs(m: Machine, fuel: nat)
    ensures
        run(m, fuel).1 != Err::<Status, VmFault>(VmFault::MissingEntryLabel),
        m.wf() ==> run(m, fuel).1 != Err::<Status, VmFault>(VmFault::FrameUnderflow),
{
    lemma_run_status(m, fuel);
    if run(m, fuel).1 is Err {
        lemma_faults_of_an_instruction(run(m, fuel).0);
        if m.wf() {
            lemma_run_preserves_wf(m, fuel);
        }
    }
}

/// Leaving the root frame halts the machine: a `RET` or `POPRET` executed
/// in the only frame of a well-formed machine takes the instruction pointer
/// to the end of the code and leaves no frame.
pub proof fn lemma_return_from_root_halts(m: Machine)
    requires
        m.wf(),
        m.running(),
        current_op(m) == Some(OP::RET) || current_op(m) == Some(OP::POPRET),
        m.frames.len() == 1,
        execute(m) is Ok,
    ensures
        execute(m)->Ok_0.ip == m.code.len(),
        execute(m)->Ok_0.frames.len() == 0,
        run(execute(m)->Ok_0, 1) == (execute(m)->Ok_0, Ok::<Status, VmFault>(Status::Halted)),
{
    assert(m.frames.last() == m.frames[0]);
}

/// What a call does: it takes its arguments off the stack, and the frame it
/// opens has the reduced height as its base and returns to the instruction
/// after the call.
pub proof fn lemma_call_opens_frame(caller: Machine)
    requires
        caller.running(),
        current_op(caller) == Some(OP::CALL),
        execute(caller) is Ok,
    ensures
        ({
            let called = execute(caller)->Ok_0;
            let argc = caller.operand(2)->Ok_0;
            &&& called.stack.len() + argc == caller.stack.len()
            &&& called.stack == caller.stack.take(called.stack.len() as int)
            &&& called.frames.drop_last() == caller.frames
            &&& called.frames.last().stack_ptr == called.stack.len()
            &&& called.frames.last().return_address == caller.ip + 3
            &&& called.ip == caller.operand(1)->Ok_0
            &&& forall|i: int|
                0 <= i < argc && argc <= caller.locals ==> called.frames.last().locals[i]
                    == caller.stack[called.stack.len() + i]
        }),
{
    let called = execute(caller)->Ok_0;
    assert(called.frames.drop_last() =~= caller.frames);
}

/// A call and the return that matches it leave the stack as deep as it was
/// before the call, less the arguments that the call consumed: a call
/// without arguments has no net effect on the depth. Whatever the called
/// function pushed is discarded, and execution resumes after the call in the
/// caller's frame.
///
/// `caller` is the machine at the `CALL`; `callee` is the machine at the
/// matching `RET`, that is, at a `RET` met while the frames are those that
/// the call left.
pub proof fn lemma_call_then_ret(caller: Machine, callee: Machine)
    requires
        caller.running(),
        current_op(caller) == Some(OP::CALL),
        execute(caller) is Ok,
        callee.wf(),
        callee.running(),
        current_op(callee) == Some(OP::RET),
        callee.frames == execute(caller)->Ok_0.frames,
    ensures
        execute(callee) is Ok,
        execute(callee)->Ok_0.stack.len() + caller.operand(2)->Ok_0 == caller.stack.len(),
        execute(callee)->Ok_0.stack == callee.stack.take(
            caller.stack.len() - caller.operand(2)->Ok_0,
        ),
        execute(callee)->Ok_0.frames == caller.frames,
        execute(callee)->Ok_0.ip == caller.ip + 3,
{
    lemma_call_opens_frame(caller);
    let called = execute(caller)->Ok_0;
    assert(callee.frames.last() == called.frames.last());
    assert(callee.frames.last().stack_ptr <= callee.stack.len());
}

/// A call and the `POPRET` that matches it leave the stack one deeper than
/// it was before the call, less the arguments that the call consumed, with
/// the value that the called function had on top as the new top.
///
/// `caller` is the machine at the `CALL`; `callee` is the machine at the
/// matching `POPRET`, where the called function owns at least one value.
pub proof fn lemma_call_then_popret(caller: Machine, callee: Machine)
    requires
        caller.running(),
        current_op(caller) == Some(OP::CALL),
        execute(caller) is Ok,
        callee.wf(),
        callee.running(),
        current_op(callee) == Some(OP::POPRET),
        callee.frames == execute(caller)->Ok_0.frames,
        callee.stack.len() > callee.frames.last().stack_ptr,
    ensures
        execute(callee) is Ok,
        execute(callee)->Ok_0.stack.len() + caller.operand(2)->Ok_0 == caller.stack.len() + 1,
        execute(callee)->Ok_0.stack.last() == callee.stack.last(),
        execute(callee)->Ok_0.frames == caller.frames,
        execute(callee)->Ok_0.ip == caller.ip + 3,
{
    lemma_call_opens_frame(caller);
    let called = execute(caller)->Ok_0;
    assert(callee.frames.last() == called.frames.last());
    assert(callee.frames.drop_last() =~= caller.frames);
}

/// Whether `op` takes at least one value off the stack, or reads its top.
pub open spec fn needs_operand(op: OP) -> bool {
    match op {
        OP::POP | OP::PRINT | OP::ADD | OP::STORE | OP::ALLOC | OP::PUT | OP::GET | OP::POPRET => true,
        _ => false,
    }
}

/// Whether `op` takes two values off the stack.
pub open spec fn needs_two_operands(op: OP) -> bool {
    match op {
        OP::ADD | OP::PUT => true,
        _ => false,
    }
}

/// An instruction that needs a value from the stack, met when the current
/// frame owns none, raises `StackUnderflow`; so does one that needs two
/// values, met when the frame owns only one. The frame owns what lies above
/// its base. No value from below the base is read, and the machine is left
/// as it was.
pub proof fn lemma_pop_below_base_faults(m: Machine, op: OP)
    requires
        m.running(),
        current_op(m) == Some(op),
        m.frames.len() > 0,
        op == OP::STORE ==> m.operand(1) is Ok,
        (needs_operand(op) && m.stack.len() <= m.frames.last().stack_ptr) || (needs_two_operands(
            op,
        ) && m.stack.len() <= m.frames.last().stack_ptr + 1),
    ensures
        execute(m) == Err::<Machine, VmFault>(VmFault::StackUnderflow),
        run(m, 1) == (m, Err::<Status, VmFault>(VmFault::StackUnderflow)),
{
    reveal_with_fuel(run, 2);
}

/// Two allocations in one run, however many instructions lie between them,
/// return rising addresses for blocks that do not overlap: the second block
/// begins at or after the end of the first, and so strictly after its
/// beginning unless the first block is empty.
///
/// `first` is the machine at the earlier `ALLOC`, and `second`, at the later
/// `ALLOC`, is what a run of `between` instructions makes of the machine that
/// the earlier one left.
pub proof fn lemma_allocations_rise(first: Machine, between: nat, second: Machine)
    requires
        first.wf(),
        first.running(),
        current_op(first) == Some(OP::ALLOC),
        execute(first) is Ok,
        second == run(execute(first)->Ok_0, between).0,
        second.running(),
        current_op(second) == Some(OP::ALLOC),
        execute(second) is Ok,
    ensures
        ({
            let size = first.stack.last();
            let earlier = execute(first)->Ok_0.stack.last();
            let later = execute(second)->Ok_0.stack.last();
            &&& earlier == first.heap.len()
            &&& later == second.heap.len()
            &&& earlier + size <= later
            &&& size > 0 ==> earlier < later
        }),
{
    lemma_execute_preserves_wf(first);
    lemma_run_preserves_wf(execute(first)->Ok_0, between);
}

/// What `PUT` writes, `GET` reads back: after a `PUT` of `value` at
/// `address`, a `GET` of `address` pushes `value`, as long as nothing was
/// written there in between.
///
/// `writer` is the machine at the `PUT`; `reader` is the machine at the
/// `GET`, with the written address on top of its stack and the heap word at
/// that address as the `PUT` left it.
pub proof fn lemma_put_then_get(writer: Machine, reader: Machine)
    requires
        writer.running(),
        current_op(writer) == Some(OP::PUT),
        execute(writer) is Ok,
        reader.running(),
        current_op(reader) == Some(OP::GET),
        execute(reader) is Ok,
        reader.stack.last() == writer.peek(1),
        reader.heap.len() >= execute(writer)->Ok_0.heap.len(),
        reader.heap[writer.peek(1) as int] == execute(writer)->Ok_0.heap[writer.peek(1) as int],
    ensures
        execute(reader)->Ok_0.stack.last() == writer.peek(0),
{
}

} // verus!
