//! The faults that stop a run of the machine.

use vstd::prelude::*;
use vstd::string::*;
use crate::text::{decimal, spec_decimal};

verus! {

/// Why the machine could not be built or could not execute an instruction.
#[derive(Clone, Copy, Debug, PartialEq, Eq, Structural)]
pub enum VmFault {
    /// A push found the operand stack at its capacity.
    StackOverflow,
    /// A pop found the operand stack empty, or at the base of the current frame.
    StackUnderflow,
    /// An instruction needed a call frame and none was left.
    FrameUnderflow,
    /// The label table holds no `@main`.
    MissingEntryLabel,
    /// A heap address that no allocation covers.
    HeapAddressOutOfRange,
    /// An allocation would grow the heap beyond its limit.
    HeapExhausted,
    /// A local slot index beyond the frame's slots.
    LocalOutOfRange,
    /// An instruction's operands reach beyond the end of the code.
    TruncatedInstruction,
    /// Under the strict decode policy, a word that names no instruction.
    InvalidOpcode(u64),
}

/// What a fault says for itself.
pub open spec fn spec_message(fault: VmFault) -> Seq<char> {
    match fault {
        VmFault::StackOverflow => "Stack overflow"@,
        VmFault::StackUnderflow => "Cannot pop off stack"@,
        VmFault::FrameUnderflow => "Out of stack frames"@,
        VmFault::MissingEntryLabel => "No main label found"@,
        VmFault::HeapAddressOutOfRange => "Heap address out of range"@,
        VmFault::HeapExhausted => "Heap limit exceeded"@,
        VmFault::LocalOutOfRange => "Local slot out of range"@,
        VmFault::TruncatedInstruction => "Instruction cut off by the end of the code"@,
        VmFault::InvalidOpcode(word) => "Invalid opcode "@ + spec_decimal(word as nat),
    }
}

impl VmFault {
    /// What the fault says for itself, for a person to read.
    pub fn message(&self) -> (text: String)
        ensures
            text@ == spec_message(*self),
    {
        match self {
            VmFault::StackOverflow => String::from_str("Stack overflow"),
            VmFault::StackUnderflow => String::from_str("Cannot pop off stack"),
            VmFault::FrameUnderflow => String::from_str("Out of stack frames"),
            VmFault::MissingEntryLabel => String::from_str("No main label found"),
            VmFault::HeapAddressOutOfRange => String::from_str("Heap address out of range"),
            VmFault::HeapExhausted => String::from_str("Heap limit exceeded"),
            VmFault::LocalOutOfRange => String::from_str("Local slot out of range"),
            VmFault::TruncatedInstruction => String::from_str(
                "Instruction cut off by the end of the code",
            ),
            VmFault::InvalidOpcode(word) => {
                let mut text = String::from_str("Invalid opcode ");
                let number = decimal(*word);
                text.append(number.as_str());
                text
            },
        }
    }
}

} // verus!
