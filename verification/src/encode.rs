//! Instruction encoding: one 32-bit word per resolved instruction.

use vstd::prelude::*;
use crate::error::AssembleError;
use crate::opcode::{encode_opcode, opcode_code, opcode_named};
use crate::resolve::{ResolvedInstruction, ResolvedInstructionView};

verus! {

/// The word that carries `code` in its low half and `argument` in its high
/// half: the code or-ed with the argument, sign-extended to 32 bits and
/// shifted left by sixteen.
pub open spec fn word(code: i32, argument: i16) -> i32 {
    code | ((argument as i32) << 16)
}

/// The word of a resolved instruction, or the error for an opcode name
/// outside the instruction set.
pub open spec fn encoded_instruction(instruction: ResolvedInstructionView) -> Result<
    i32,
    AssembleError,
> {
    match opcode_code(instruction.opcode) {
        Ok(code) => Ok(word(code, instruction.argument)),
        Err(error) => Err(error),
    }
}

/// The words of `instructions` in order, or the error of the first
/// instruction that fails to encode.
pub open spec fn encoded_instructions(instructions: Seq<ResolvedInstructionView>) -> Result<
    Seq<i32>,
    AssembleError,
>
    decreases instructions.len(),
{
    if instructions.len() == 0 {
        Ok(Seq::empty())
    } else {
        match encoded_instructions(instructions.drop_last()) {
            Ok(earlier) => match encoded_instruction(instructions.last()) {
                Ok(word) => Ok(earlier.push(word)),
                Err(error) => Err(error),
            },
            Err(error) => Err(error),
        }
    }
}

/// The view of the outcome of encoding a program.
pub open spec fn words_view(outcome: Result<Vec<i32>, AssembleError>) -> Result<
    Seq<i32>,
    AssembleError,
> {
    match outcome {
        Ok(words) => Ok(words@),
        Err(error) => Err(error),
    }
}

/// The layout of a word built from a code below 65536: its low sixteen
/// bits are the code, its high sixteen bits are the argument with its sign,
/// and as a number it is the code plus 65536 times the argument.
pub proof fn lemma_word_layout(code: i32, argument: i16)
    requires
        0 <= code < 0x1_0000,
    ensures
        word(code, argument) & 0xffff == code,
        word(code, argument) >> 16 == argument,
        word(code, argument) == code + argument * 0x1_0000,
{
    let wide = argument as i32;
    let packed = word(code, argument);
    assert(0 <= code < 0x1_0000 && -0x8000 <= wide < 0x8000 && packed == code | (wide << 16)
        ==> packed & 0xffff == code && packed >> 16 == wide && packed == code + wide * 0x1_0000)
        by (bit_vector);
}

/// Whether some instruction names no operation of the instruction set.
pub open spec fn has_unknown_opcode(instructions: Seq<ResolvedInstructionView>) -> bool {
    exists|k: int|
        0 <= k < instructions.len() && opcode_named((#[trigger] instructions[k]).opcode) is None
}

/// What encoding a resolved program gives. It fails, with `UnknownOpcode`,
/// exactly when some instruction names no operation of the instruction set.
/// Otherwise there is one word per instruction, each the word of the
/// instruction at the same index.
pub proof fn lemma_encoded_instructions(instructions: Seq<ResolvedInstructionView>)
    ensures
        match encoded_instructions(instructions) {
            Ok(words) => {
                &&& !has_unknown_opcode(instructions)
                &&& words.len() == instructions.len()
                &&& forall|k: int|
                    0 <= k < instructions.len() ==> (encoded_instruction(
                        #[trigger] instructions[k],
                    ) matches Ok(word) && word == words[k])
            },
            Err(error) => {
                &&& error == AssembleError::UnknownOpcode
                &&& has_unknown_opcode(instructions)
            },
        },
    decreases instructions.len(),
{
    if instructions.len() > 0 {
        let earlier = instructions.drop_last();
        lemma_encoded_instructions(earlier);
        match encoded_instructions(instructions) {
            Ok(words) => {
                assert forall|k: int| 0 <= k < instructions.len() implies (encoded_instruction(
                    #[trigger] instructions[k],
                ) matches Ok(word) && word == words[k]) by {
                    if k < earlier.len() {
                        assert(instructions[k] == earlier[k]);
                    }
                }
            },
            Err(error) => {
                if encoded_instructions(earlier) is Err {
                    let k = choose|k: int|
                        0 <= k < earlier.len() && opcode_named((#[trigger] earlier[k]).opcode)
                            is None;
                    assert(opcode_named(instructions[k].opcode) is None);
                } else {
                    assert(opcode_named(instructions[instructions.len() - 1].opcode) is None);
                }
            },
        }
    }
}

/// Packs a resolved instruction into its word.
pub fn encode_instruction(instruction: ResolvedInstruction) -> (result: Result<i32, AssembleError>)
    ensures
        result == encoded_instruction(instruction@),
{
    match encode_opcode(instruction.opcode.as_str()) {
        Ok(code) => {
            let argument: i32 = instruction.argument as i32;
            Ok(code | (argument << 16))
        },
        Err(error) => Err(error),
    }
}

/// Packs every instruction of a resolved program, in order, stopping at the
/// first opcode name outside the instruction set.
pub fn encode_instructions(instructions: Vec<ResolvedInstruction>) -> (result: Result<
    Vec<i32>,
    AssembleError,
>)
    ensures
        words_view(result) == encoded_instructions(instructions.deep_view()),
        result is Err <==> has_unknown_opcode(instructions.deep_view()),
        result matches Err(error) ==> error == AssembleError::UnknownOpcode,
        result matches Ok(words) ==> words.len() == instructions.len(),
{
    let ghost all = instructions.deep_view();
    let mut words: Vec<i32> = Vec::new();
    for instruction in it: instructions
        invariant
            all == instructions.deep_view(),
            it.seq().len() == all.len(),
            forall|k: int| 0 <= k < all.len() ==> (#[trigger] it.seq()[k])@ == all[k],
            encoded_instructions(all.take(it.index() as int)) matches Ok(earlier) && earlier
                == words@,
    {
        assert(all.take(it.index() + 1).drop_last() == all.take(it.index() as int));
        match encode_instruction(instruction) {
            Ok(word) => {
                words.push(word);
            },
            Err(error) => {
                proof {
                    lemma_encoding_error_persists(all, it.index() + 1);
                    lemma_encoded_instructions(all);
                }
                return Err(error);
            },
        }
    }
    proof {
        assert(all.take(all.len() as int) == all);
        lemma_encoded_instructions(all);
    }
    Ok(words)
}

/// Once a prefix of the instructions has failed to encode, every longer
/// prefix fails with the same error.
proof fn lemma_encoding_error_persists(instructions: Seq<ResolvedInstructionView>, k: int)
    requires
        0 <= k <= instructions.len(),
        encoded_instructions(instructions.take(k)) is Err,
    ensures
        encoded_instructions(instructions) == encoded_instructions(instructions.take(k)),
    decreases instructions.len(),
{
    if k == instructions.len() {
        assert(instructions.take(k) == instructions);
    } else {
        assert(instructions.drop_last().take(k) == instructions.take(k));
        lemma_encoding_error_persists(instructions.drop_last(), k);
    }
}

} // verus!
