//! The fixed instruction set: nine mnemonics and their numeric codes.

use vstd::prelude::*;
use crate::error::AssembleError;
use crate::text::{chars_of, spells};

verus! {

/// One of the nine operations of the machine.
#[derive(Clone, Copy, Debug, PartialEq, Eq, Structural)]
pub enum Opcode {
    /// Push the operand.
    Const,
    /// Discard the top of the stack.
    Pop,
    /// Duplicate the top of the stack.
    Dup,
    /// Exchange the top of the stack with the value at the operand's depth.
    Swap,
    /// Compare.
    Cmp,
    /// Add.
    Add,
    /// Multiply.
    Mul,
    /// Jump by the operand, relative to the following instruction.
    Jmp,
    /// Jump by the operand if less or equal.
    Jle,
}

impl Opcode {
    /// The mnemonic that selects this operation in source text.
    pub open spec fn mnemonic(self) -> Seq<char> {
        match self {
            Opcode::Const => "const"@,
            Opcode::Pop => "pop"@,
            Opcode::Dup => "dup"@,
            Opcode::Swap => "swap"@,
            Opcode::Cmp => "cmp"@,
            Opcode::Add => "add"@,
            Opcode::Mul => "mul"@,
            Opcode::Jmp => "jmp"@,
            Opcode::Jle => "jle"@,
        }
    }

    /// The numeric code of this operation.
    pub open spec fn spec_code(self) -> i32 {
        match self {
            Opcode::Const => 0,
            Opcode::Pop => 1,
            Opcode::Dup => 2,
            Opcode::Swap => 3,
            Opcode::Cmp => 4,
            Opcode::Add => 5,
            Opcode::Mul => 6,
            Opcode::Jmp => 7,
            Opcode::Jle => 8,
        }
    }

    /// The numeric code of this operation, the low half of its encoded word.
    #[verifier::when_used_as_spec(spec_code)]
    pub fn code(self) -> (code: i32)
        ensures
            code == self.spec_code(),
            0 <= code <= 8,
    {
        match self {
            Opcode::Const => 0,
            Opcode::Pop => 1,
            Opcode::Dup => 2,
            Opcode::Swap => 3,
            Opcode::Cmp => 4,
            Opcode::Add => 5,
            Opcode::Mul => 6,
            Opcode::Jmp => 7,
            Opcode::Jle => 8,
        }
    }

    /// The operation that `name` selects, if it is one of the nine mnemonics.
    pub fn from_name(name: &str) -> (result: Option<Opcode>)
        ensures
            result == opcode_named(name@),
    {
        let chars = chars_of(name);
        if spells(&chars, "const") {
            Some(Opcode::Const)
        } else if spells(&chars, "pop") {
            Some(Opcode::Pop)
        } else if spells(&chars, "dup") {
            Some(Opcode::Dup)
        } else if spells(&chars, "swap") {
            Some(Opcode::Swap)
        } else if spells(&chars, "cmp") {
            Some(Opcode::Cmp)
        } else if spells(&chars, "add") {
            Some(Opcode::Add)
        } else if spells(&chars, "mul") {
            Some(Opcode::Mul)
        } else if spells(&chars, "jmp") {
            Some(Opcode::Jmp)
        } else if spells(&chars, "jle") {
            Some(Opcode::Jle)
        } else {
            None
        }
    }
}

/// The operation whose mnemonic is exactly `name`, if there is one.
pub open spec fn opcode_named(name: Seq<char>) -> Option<Opcode> {
    if name == "const"@ {
        Some(Opcode::Const)
    } else if name == "pop"@ {
        Some(Opcode::Pop)
    } else if name == "dup"@ {
        Some(Opcode::Dup)
    } else if name == "swap"@ {
        Some(Opcode::Swap)
    } else if name == "cmp"@ {
        Some(Opcode::Cmp)
    } else if name == "add"@ {
        Some(Opcode::Add)
    } else if name == "mul"@ {
        Some(Opcode::Mul)
    } else if name == "jmp"@ {
        Some(Opcode::Jmp)
    } else if name == "jle"@ {
        Some(Opcode::Jle)
    } else {
        None
    }
}

/// The code that `name` encodes to, or the error for a name outside the
/// instruction set.
pub open spec fn opcode_code(name: Seq<char>) -> Result<i32, AssembleError> {
    match opcode_named(name) {
        Some(opcode) => Ok(opcode.spec_code()),
        None => Err(AssembleError::UnknownOpcode),
    }
}

/// Looks `name` up in the instruction set and returns its code. Any name
/// other than the nine mnemonics, spelled exactly, is rejected.
pub fn encode_opcode(name: &str) -> (result: Result<i32, AssembleError>)
    ensures
        result == opcode_code(name@),
{
    match Opcode::from_name(name) {
        Some(opcode) => Ok(opcode.code()),
        None => Err(AssembleError::UnknownOpcode),
    }
}

/// The table is one to one: a name selects an operation exactly when it is
/// that operation's mnemonic, so no two operations share a mnemonic; and the
/// codes are the numbers 0 to 8, each the code of exactly one operation.
pub proof fn lemma_opcode_table(a: Opcode, b: Opcode, name: Seq<char>)
    ensures
        opcode_named(name) == Some(a) <==> name == a.mnemonic(),
        0 <= a.spec_code() <= 8,
        a.spec_code() == b.spec_code() <==> a == b,
{
    lemma_mnemonic_shapes();
}

/// The lengths and leading characters that tell the nine mnemonics apart.
proof fn lemma_mnemonic_shapes()
    ensures
        "const"@.len() == 5,
        "swap"@.len() == 4,
        "pop"@.len() == 3 && "pop"@[0] == 'p',
        "dup"@.len() == 3 && "dup"@[0] == 'd',
        "cmp"@.len() == 3 && "cmp"@[0] == 'c',
        "add"@.len() == 3 && "add"@[0] == 'a',
        "mul"@.len() == 3 && "mul"@[0] == 'm',
        "jmp"@.len() == 3 && "jmp"@[0] == 'j' && "jmp"@[1] == 'm',
        "jle"@.len() == 3 && "jle"@[0] == 'j' && "jle"@[1] == 'l',
{
    reveal_strlit("const");
    reveal_strlit("pop");
    reveal_strlit("dup");
    reveal_strlit("swap");
    reveal_strlit("cmp");
    reveal_strlit("add");
    reveal_strlit("mul");
    reveal_strlit("jmp");
    reveal_strlit("jle");
}

} // verus!
