//! The instruction set: thirteen opcodes and the words that encode them.

use vstd::prelude::*;

verus! {

/// An instruction of the machine.
#[derive(Clone, Copy, Debug, PartialEq, Eq, Structural)]
pub enum OP {
    /// Push the operand.
    PUSH,
    /// Discard the top of the stack.
    POP,
    /// Emit the top of the stack, leaving it in place.
    PRINT,
    /// Replace the two topmost values by their sum.
    ADD,
    /// Pop a value into the local slot that the operand names.
    STORE,
    /// Push the local slot that the operand names.
    LOAD,
    /// Pop a size, allocate that many heap words, push their address.
    ALLOC,
    /// Pop a value, pop an address, write the value there.
    PUT,
    /// Pop an address, push the heap word found there.
    GET,
    /// Leave the current call frame.
    RET,
    /// Leave the current call frame, carrying the top of the stack over.
    POPRET,
    /// Enter a new call frame at the first operand, with as many arguments
    /// as the second operand says.
    CALL,
    /// Jump to the operand.
    GOTO,
}

impl OP {
    /// The word that encodes this instruction.
    pub open spec fn spec_code(self) -> u64 {
        match self {
            OP::PUSH => 0,
            OP::POP => 1,
            OP::PRINT => 2,
            OP::ADD => 3,
            OP::STORE => 4,
            OP::LOAD => 5,
            OP::ALLOC => 6,
            OP::PUT => 7,
            OP::GET => 8,
            OP::RET => 9,
            OP::POPRET => 10,
            OP::CALL => 11,
            OP::GOTO => 12,
        }
    }

    /// The instruction that `word` encodes, if any.
    pub open spec fn spec_from_u64(word: u64) -> Option<OP> {
        if word == 0 {
            Some(OP::PUSH)
        } else if word == 1 {
            Some(OP::POP)
        } else if word == 2 {
            Some(OP::PRINT)
        } else if word == 3 {
            Some(OP::ADD)
        } else if word == 4 {
            Some(OP::STORE)
        } else if word == 5 {
            Some(OP::LOAD)
        } else if word == 6 {
            Some(OP::ALLOC)
        } else if word == 7 {
            Some(OP::PUT)
        } else if word == 8 {
            Some(OP::GET)
        } else if word == 9 {
            Some(OP::RET)
        } else if word == 10 {
            Some(OP::POPRET)
        } else if word == 11 {
            Some(OP::CALL)
        } else if word == 12 {
            Some(OP::GOTO)
        } else {
            None
        }
    }

    /// The word that encodes this instruction.
    #[verifier::when_used_as_spec(spec_code)]
    pub fn code(self) -> (word: u64)
        ensures
            word == self.spec_code(),
    {
        match self {
            OP::PUSH => 0,
            OP::POP => 1,
            OP::PRINT => 2,
            OP::ADD => 3,
            OP::STORE => 4,
            OP::LOAD => 5,
            OP::ALLOC => 6,
            OP::PUT => 7,
            OP::GET => 8,
            OP::RET => 9,
            OP::POPRET => 10,
            OP::CALL => 11,
            OP::GOTO => 12,
        }
    }

    /// Decodes `word`: the instruction it encodes, or `None` for a word that
    /// encodes none.
    #[verifier::when_used_as_spec(spec_from_u64)]
    pub fn from_u64(word: u64) -> (op: Option<OP>)
        ensures
            op == OP::spec_from_u64(word),
    {
        match word {
            0 => Some(OP::PUSH),
            1 => Some(OP::POP),
            2 => Some(OP::PRINT),
            3 => Some(OP::ADD),
            4 => Some(OP::STORE),
            5 => Some(OP::LOAD),
            6 => Some(OP::ALLOC),
            7 => Some(OP::PUT),
            8 => Some(OP::GET),
            9 => Some(OP::RET),
            10 => Some(OP::POPRET),
            11 => Some(OP::CALL),
            12 => Some(OP::GOTO),
            _ => None,
        }
    }
}

/// Decoding inverts encoding: every instruction is recovered from its word,
/// and a word decodes only to the instruction that it encodes.
pub proof fn lemma_decode_inverts_encode(op: OP, word: u64)
    ensures
        OP::spec_from_u64(op.spec_code()) == Some(op),
        OP::spec_from_u64(word) == Some(op) ==> op.spec_code() == word,
        OP::spec_from_u64(word) is Some <==> word <= 12,
{
}

} // verus!
