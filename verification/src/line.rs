//! Classified source lines and their mathematical views.

use vstd::prelude::*;
use vstd::string::StrSliceExecFns;
use crate::text::{
    chars_of, decimal_i16, find_token_end, lemma_token_end, parse_decimal_i16, token_end,
};

verus! {

/// The operand of an instruction as written in the source, before resolution.
#[derive(Debug, PartialEq, Eq)]
pub enum Argument {
    /// A decimal integer that fits in sixteen signed bits.
    Literal(i16),
    /// A reference to a label; the name keeps its leading `:`.
    LabelReference(String),
    /// No usable operand was written.
    Absent,
}

/// What an [`Argument`] denotes: the same shape over sequences of characters.
pub enum ArgumentView {
    Literal(i16),
    LabelReference(Seq<char>),
    Absent,
}

impl View for Argument {
    type V = ArgumentView;

    open spec fn view(&self) -> ArgumentView {
        match self {
            Argument::Literal(value) => ArgumentView::Literal(*value),
            Argument::LabelReference(name) => ArgumentView::LabelReference(name@),
            Argument::Absent => ArgumentView::Absent,
        }
    }
}

impl DeepView for Argument {
    type V = ArgumentView;

    open spec fn deep_view(&self) -> ArgumentView {
        self.view()
    }
}

/// One classified line of source text.
#[derive(Debug, PartialEq, Eq)]
pub enum Line {
    /// An opcode mnemonic with its operand as written.
    Instruction { opcode: String, argument: Argument },
    /// The definition of a label; the name keeps its leading `:`.
    LabelDefinition { name: String },
}

/// What a [`Line`] denotes: the same shape over sequences of characters.
pub enum LineView {
    Instruction { opcode: Seq<char>, argument: ArgumentView },
    LabelDefinition { name: Seq<char> },
}

impl View for Line {
    type V = LineView;

    open spec fn view(&self) -> LineView {
        match self {
            Line::Instruction { opcode, argument } => LineView::Instruction {
                opcode: opcode@,
                argument: argument@,
            },
            Line::LabelDefinition { name } => LineView::LabelDefinition { name: name@ },
        }
    }
}

impl DeepView for Line {
    type V = LineView;

    open spec fn deep_view(&self) -> LineView {
        self.view()
    }
}

impl Clone for Argument {
    fn clone(&self) -> (copy: Argument)
        ensures
            copy == *self,
    {
        match self {
            Argument::Literal(value) => Argument::Literal(*value),
            Argument::LabelReference(name) => Argument::LabelReference(name.clone()),
            Argument::Absent => Argument::Absent,
        }
    }
}

impl Clone for Line {
    fn clone(&self) -> (copy: Line)
        ensures
            copy == *self,
    {
        match self {
            Line::Instruction { opcode, argument } => Line::Instruction {
                opcode: opcode.clone(),
                argument: argument.clone(),
            },
            Line::LabelDefinition { name } => Line::LabelDefinition { name: name.clone() },
        }
    }
}

impl Line {
    /// Whether this line occupies an address in the output.
    pub fn is_instruction(&self) -> (result: bool)
        ensures
            result == (self@ is Instruction),
    {
        match self {
            Line::Instruction { .. } => true,
            Line::LabelDefinition { .. } => false,
        }
    }
}

/// Whether `text` begins with the label sigil `:`.
pub open spec fn has_label_sigil(text: Seq<char>) -> bool {
    text.len() > 0 && text[0] == ':'
}

/// The first token of an instruction line: everything before its first
/// space, or the whole line if it has none. It may be empty.
pub open spec fn opcode_text(text: Seq<char>) -> Seq<char> {
    text.subrange(0, token_end(text, 0))
}

/// The second token of an instruction line: what stands between its first
/// space and the next space or the end of the line. A line without a space
/// has no second token; anything after a second space is ignored.
pub open spec fn argument_text(text: Seq<char>) -> Option<Seq<char>> {
    let first = token_end(text, 0);
    if first < text.len() {
        Some(text.subrange(first + 1, token_end(text, first + 1)))
    } else {
        None
    }
}

/// Whether `text` holds no space.
pub open spec fn is_token(text: Seq<char>) -> bool {
    forall|i: int| 0 <= i < text.len() ==> text[i] != ' '
}

/// The two tokens are what splitting the line at single spaces gives first:
/// neither holds a space; a line without a space is its own first token and
/// has no second; any other line begins with the first token, a space and
/// the second token, and then ends or goes on with a space.
pub proof fn lemma_tokens(text: Seq<char>)
    ensures
        is_token(opcode_text(text)),
        argument_text(text) is None <==> is_token(text),
        argument_text(text) is None ==> opcode_text(text) == text,
        argument_text(text) matches Some(argument) ==> {
            let taken = opcode_text(text).len() + 1 + argument.len();
            &&& is_token(argument)
            &&& taken <= text.len()
            &&& text.take(taken as int) == opcode_text(text).push(' ') + argument
            &&& taken < text.len() ==> text[taken as int] == ' '
        },
{
    let first = token_end(text, 0);
    lemma_token_end(text, 0);
    if first < text.len() {
        lemma_token_end(text, first + 1);
    } else {
        assert(opcode_text(text) == text);
    }
}

/// How an operand token is read: a token with the sigil is a label
/// reference under its full text, a signed sixteen-bit decimal integer is a
/// literal, and a missing token, or one that is neither, is no operand.
pub open spec fn classify_argument(token: Option<Seq<char>>) -> ArgumentView {
    match token {
        Some(text) => if has_label_sigil(text) {
            ArgumentView::LabelReference(text)
        } else {
            match decimal_i16(text) {
                Some(value) => ArgumentView::Literal(value),
                None => ArgumentView::Absent,
            }
        },
        None => ArgumentView::Absent,
    }
}

/// How a line of source text is read: a line with the sigil defines the
/// label named by the whole line, and any other line is an instruction made
/// of its first two space-separated tokens.
pub open spec fn classify_line(text: Seq<char>) -> LineView {
    if has_label_sigil(text) {
        LineView::LabelDefinition { name: text }
    } else {
        LineView::Instruction {
            opcode: opcode_text(text),
            argument: classify_argument(argument_text(text)),
        }
    }
}

/// Reads the operand token of an instruction, if there is one.
pub fn parse_arg(part: Option<&str>) -> (argument: Argument)
    ensures
        argument@ == classify_argument(part.deep_view()),
{
    match part {
        Some(token) => {
            let chars = chars_of(token);
            if chars.len() > 0 && chars[0] == ':' {
                Argument::LabelReference(token.to_owned())
            } else {
                match parse_decimal_i16(&chars) {
                    Some(value) => Argument::Literal(value),
                    None => Argument::Absent,
                }
            }
        },
        None => Argument::Absent,
    }
}

/// Classifies one line of source text.
pub fn parse_line(line: &str) -> (result: Line)
    ensures
        result@ == classify_line(line@),
{
    let chars = chars_of(line);
    if chars.len() > 0 && chars[0] == ':' {
        Line::LabelDefinition { name: line.to_owned() }
    } else {
        let first = find_token_end(&chars, 0);
        let opcode = line.substring_char(0, first).to_owned();
        let argument = if first < chars.len() {
            let second = find_token_end(&chars, first + 1);
            parse_arg(Some(line.substring_char(first + 1, second)))
        } else {
            parse_arg(None)
        };
        Line::Instruction { opcode, argument }
    }
}

} // verus!
