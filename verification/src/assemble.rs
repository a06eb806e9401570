//! The whole pipeline: source lines in, instruction words out.

use vstd::prelude::*;
use crate::address::instruction_count;
use crate::encode::{encode_instructions, encoded_instructions, words_view};
use crate::error::AssembleError;
use crate::laws::{lemma_assembly_outcome, lemma_word_count};
use crate::line::{classify_line, parse_line, Line, LineView};
use crate::opcode::opcode_named;
use crate::resolve::{refers_to_undefined_label, resolve, resolved_program};

verus! {

/// Every line of `source`, classified.
pub open spec fn classified(source: Seq<Seq<char>>) -> Seq<LineView> {
    Seq::new(source.len(), |i: int| classify_line(source[i]))
}

/// The words that a program assembles to, or the error that aborts it. The
/// lines are classified, addressed and resolved against the table of all
/// labels; only a program that resolves completely is encoded, so an
/// undefined label is reported before an unknown opcode.
pub open spec fn assembled(source: Seq<Seq<char>>) -> Result<Seq<i32>, AssembleError> {
    match resolved_program(classified(source)) {
        Ok(instructions) => encoded_instructions(instructions),
        Err(error) => Err(error),
    }
}

/// Whether some instruction of the program names no operation of the
/// instruction set.
pub open spec fn names_unknown_opcode(lines: Seq<LineView>) -> bool {
    exists|i: int|
        0 <= i < lines.len() && (#[trigger] lines[i] matches LineView::Instruction { opcode, .. }
            && opcode_named(opcode) is None)
}

/// Classifies every line of a program, in order.
pub fn parse_lines(source: &Vec<String>) -> (lines: Vec<Line>)
    ensures
        lines.deep_view() == classified(source.deep_view()),
{
    let mut lines: Vec<Line> = Vec::new();
    for text in it: source.iter()
        invariant
            it.seq().len() == source.len(),
            forall|k: int| 0 <= k < source.len() ==> *(#[trigger] it.seq()[k]) == source[k],
            lines.len() == it.index(),
            forall|k: int|
                0 <= k < it.index() ==> (#[trigger] lines[k])@ == classify_line(source[k]@),
    {
        lines.push(parse_line(text.as_str()));
    }
    lines
}

/// Assembles a program given as its source lines, without line
/// terminators, into its instruction words: one word per instruction line,
/// in source order. Either the whole program assembles or an error is
/// returned and no word is produced: `UndefinedLabel` if the program refers
/// to a label that it does not define, and otherwise `UnknownOpcode` if it
/// names an opcode outside the instruction set.
pub fn compile(source: &Vec<String>) -> (result: Result<Vec<i32>, AssembleError>)
    ensures
        words_view(result) == assembled(source.deep_view()),
        result matches Err(AssembleError::UndefinedLabel) <==> refers_to_undefined_label(
            classified(source.deep_view()),
        ),
        result matches Err(AssembleError::UnknownOpcode) <==> (!refers_to_undefined_label(
            classified(source.deep_view()),
        ) && names_unknown_opcode(classified(source.deep_view()))),
        result matches Ok(words) ==> words.len() == instruction_count(
            classified(source.deep_view()),
        ),
{
    proof {
        lemma_assembly_outcome(source.deep_view());
        if assembled(source.deep_view()) is Ok {
            lemma_word_count(source.deep_view());
        }
    }
    let lines = parse_lines(source);
    match resolve(lines) {
        Ok(instructions) => encode_instructions(instructions),
        Err(error) => Err(error),
    }
}

} // verus!
