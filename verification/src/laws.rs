//! Laws of the assembler: what holds of every program, proved from the
//! definitions that the contracts of the pipeline are stated in.

use vstd::prelude::*;
use crate::address::{
    address_at, addressed, instruction_count, lemma_instruction_at, lemma_instruction_is_counted,
};
use crate::assemble::{assembled, classified, names_unknown_opcode};
use crate::encode::{
    has_unknown_opcode, lemma_encoded_instructions, lemma_word_layout, word, words_view,
};
use crate::error::AssembleError;
use crate::labels::{defines, lemma_last_definition_binds};
use crate::line::{
    classify_line, has_label_sigil, is_token, lemma_tokens, ArgumentView, LineView,
};
use crate::opcode::{opcode_code, opcode_named};
use crate::resolve::{
    lemma_displacement, lemma_resolved_program, program_labels, refers_to_undefined_label,
    resolved_argument, resolved_program,
};

verus! {

/// When assembly succeeds and when it fails. A program that refers to an
/// undefined label fails with `UndefinedLabel`; a program that does not,
/// but names an unknown opcode, fails with `UnknownOpcode`; every other
/// program assembles.
pub proof fn lemma_assembly_outcome(source: Seq<Seq<char>>)
    ensures
        assembled(source) matches Err(AssembleError::UndefinedLabel) <==> refers_to_undefined_label(
            classified(source),
        ),
        assembled(source) matches Err(AssembleError::UnknownOpcode) <==> (
        !refers_to_undefined_label(classified(source)) && names_unknown_opcode(
            classified(source),
        )),
        assembled(source) is Ok <==> (!refers_to_undefined_label(classified(source))
            && !names_unknown_opcode(classified(source))),
{
    let lines = classified(source);
    lemma_resolved_program(lines);
    if let Ok(instructions) = resolved_program(lines) {
        lemma_encoded_instructions(instructions);
        if names_unknown_opcode(lines) {
            let i = choose|i: int|
                0 <= i < lines.len() && (#[trigger] lines[i] matches LineView::Instruction {
                    opcode,
                    ..
                } && opcode_named(opcode) is None);
            lemma_instruction_is_counted(lines, i);
            assert(opcode_named(instructions[instruction_count(lines.take(i)) as int].opcode)
                is None);
        }
        if has_unknown_opcode(instructions) {
            let a = choose|a: int|
                0 <= a < instructions.len() && opcode_named((#[trigger] instructions[a]).opcode)
                    is None;
            let i = lemma_instruction_at(lines, a);
            assert(lines[i] matches LineView::Instruction { opcode, .. } && opcode_named(opcode)
                is None);
        }
    }
}

/// A program with an instruction whose opcode is not one of the nine
/// mnemonics does not assemble: the outcome is an error and carries no
/// word.
pub proof fn lemma_unknown_opcode_fails(source: Seq<Seq<char>>, i: int)
    requires
        0 <= i < source.len(),
        classified(source)[i] matches LineView::Instruction { opcode, .. } && opcode_named(opcode)
            is None,
    ensures
        assembled(source) is Err,
{
    assert(names_unknown_opcode(classified(source)));
    lemma_assembly_outcome(source);
}

/// An assembled program has exactly one word per instruction line; label
/// definitions contribute none.
pub proof fn lemma_word_count(source: Seq<Seq<char>>)
    requires
        assembled(source) is Ok,
    ensures
        assembled(source)->Ok_0.len() == instruction_count(classified(source)),
{
    let lines = classified(source);
    lemma_resolved_program(lines);
    lemma_encoded_instructions(resolved_program(lines)->Ok_0);
}

/// In an assembled program, the instruction line preceded by `a`
/// instructions gives the word at index `a`, made of the code of its
/// opcode and its resolved operand.
pub proof fn lemma_word_of_line(source: Seq<Seq<char>>, i: int)
    requires
        assembled(source) is Ok,
        0 <= i < source.len(),
        classified(source)[i] is Instruction,
    ensures
        ({
            let lines = classified(source);
            let a = instruction_count(lines.take(i)) as int;
            let code = opcode_code(lines[i]->opcode);
            let value = resolved_argument(
                program_labels(lines),
                address_at(lines, i),
                lines[i]->argument,
            );
            &&& a < assembled(source)->Ok_0.len()
            &&& code is Ok
            &&& value is Ok
            &&& assembled(source)->Ok_0[a] == word(code->Ok_0, value->Ok_0)
        }),
{
    let lines = classified(source);
    lemma_resolved_program(lines);
    lemma_encoded_instructions(resolved_program(lines)->Ok_0);
    lemma_instruction_is_counted(lines, i);
}

/// An instruction line with a literal operand `v` and an opcode with code
/// `c` assembles to the word `c | (v << 16)`, with `v` sign-extended to 32
/// bits before the shift: the low half of the word is `c` and the high half
/// is `v`, negative or not.
pub proof fn lemma_literal_word(source: Seq<Seq<char>>, i: int)
    requires
        assembled(source) is Ok,
        0 <= i < source.len(),
        classified(source)[i] matches LineView::Instruction { argument, .. } && argument
            is Literal,
    ensures
        ({
            let lines = classified(source);
            let a = instruction_count(lines.take(i)) as int;
            let v = lines[i]->argument->Literal_0;
            let c = opcode_code(lines[i]->opcode);
            let words = assembled(source)->Ok_0;
            &&& a < words.len()
            &&& c is Ok
            &&& words[a] == c->Ok_0 | ((v as i32) << 16)
            &&& words[a] & 0xffff == c->Ok_0
            &&& words[a] >> 16 == v
        }),
{
    let lines = classified(source);
    lemma_word_of_line(source, i);
    lemma_word_layout(opcode_code(lines[i]->opcode)->Ok_0, lines[i]->argument->Literal_0);
}

/// The displacement law. Let line `d` be the last definition of a label and
/// line `r` an instruction that refers to it; let `a` and `b` be the
/// numbers of instructions before `d` and before `r`, so that the label
/// stands immediately before the instruction at address `a` and the
/// reference is made at address `b`. Where `a - (b + 1)` fits in sixteen
/// signed bits, the reference resolves to exactly `a - (b + 1)`, and that is
/// the operand of the resolved instruction at index `b`.
pub proof fn lemma_label_displacement(lines: Seq<LineView>, d: int, r: int)
    requires
        0 <= d < lines.len(),
        0 <= r < lines.len(),
        lines[d] is LabelDefinition,
        forall|k: int| d < k < lines.len() ==> #[trigger] lines[k] != lines[d],
        lines[r] matches LineView::Instruction { argument, .. } && argument
            == ArgumentView::LabelReference(lines[d]->name),
        i16::MIN <= instruction_count(lines.take(d)) - (instruction_count(lines.take(r)) + 1)
            <= i16::MAX,
    ensures
        ({
            let a = instruction_count(lines.take(d)) as int;
            let b = instruction_count(lines.take(r)) as int;
            &&& resolved_argument(program_labels(lines), address_at(lines, r), lines[r]->argument)
                matches Ok(value) && value == a - (b + 1)
            &&& resolved_program(lines) matches Ok(instructions) ==> b < instructions.len()
                && instructions[b].argument == a - (b + 1)
        }),
{
    let all = addressed(lines);
    let name = lines[d]->name;
    assert forall|k: int| d < k < all.len() implies !defines(#[trigger] all[k], name) by {
        assert(lines[k] != lines[d]);
    }
    lemma_last_definition_binds(all, name, d);
    lemma_displacement(
        instruction_count(lines.take(d)) as int,
        instruction_count(lines.take(r)) as int,
    );
    lemma_resolved_program(lines);
    lemma_instruction_is_counted(lines, r);
}

/// A line without a sigil and without a space is an instruction whose
/// opcode is the whole line and whose operand is absent; wherever it
/// stands and whatever the labels, its operand resolves to zero.
pub proof fn lemma_missing_argument_is_zero(
    text: Seq<char>,
    labels: Map<Seq<char>, i16>,
    address: i16,
)
    requires
        !has_label_sigil(text),
        is_token(text),
    ensures
        classify_line(text) == (LineView::Instruction {
            opcode: text,
            argument: ArgumentView::Absent,
        }),
        resolved_argument(labels, address, classify_line(text)->argument) matches Ok(value)
            && value == 0,
{
    lemma_tokens(text);
}

/// Assembling is a function of the text: two runs of `compile` on sources
/// with the same characters, line for line, end alike, with the same words
/// or with the same error.
pub proof fn lemma_compile_is_deterministic(
    first: Vec<String>,
    first_outcome: Result<Vec<i32>, AssembleError>,
    second: Vec<String>,
    second_outcome: Result<Vec<i32>, AssembleError>,
)
    requires
        first.deep_view() == second.deep_view(),
        words_view(first_outcome) == assembled(first.deep_view()),
        words_view(second_outcome) == assembled(second.deep_view()),
    ensures
        words_view(first_outcome) == words_view(second_outcome),
{
}

} // verus!
