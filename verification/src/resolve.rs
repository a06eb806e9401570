//! Argument resolution: every instruction's operand becomes a concrete
//! signed sixteen-bit value.

use vstd::prelude::*;
use vstd::wrapping::i16_specs;
use crate::address::{
    addressed, instruction_count, lemma_instruction_count_step, lemma_instruction_is_counted,
    lemma_wrap_multiple, lemma_wrap_unique, lines_with_addresses, wrap_i16, AddressedLine,
    AddressedLineView,
};
use crate::error::AssembleError;
use crate::labels::{defines, find_labels, label_addresses, lemma_bound_iff_defined, LabelTable};
use crate::line::{Argument, ArgumentView, Line, LineView};

verus! {

/// An instruction whose operand has been resolved.
#[derive(Debug, PartialEq, Eq)]
pub struct ResolvedInstruction {
    pub opcode: String,
    pub argument: i16,
}

/// What a [`ResolvedInstruction`] denotes.
pub struct ResolvedInstructionView {
    pub opcode: Seq<char>,
    pub argument: i16,
}

impl View for ResolvedInstruction {
    type V = ResolvedInstructionView;

    open spec fn view(&self) -> ResolvedInstructionView {
        ResolvedInstructionView { opcode: self.opcode@, argument: self.argument }
    }
}

impl DeepView for ResolvedInstruction {
    type V = ResolvedInstructionView;

    open spec fn deep_view(&self) -> ResolvedInstructionView {
        self.view()
    }
}

impl Clone for ResolvedInstruction {
    fn clone(&self) -> (copy: ResolvedInstruction)
        ensures
            copy == *self,
    {
        ResolvedInstruction { opcode: self.opcode.clone(), argument: self.argument }
    }
}

/// The operand that makes an instruction at `address` reach `target`: the
/// target less the address that follows the instruction, in sixteen-bit
/// wrapping arithmetic.
pub open spec fn displacement(target: i16, address: i16) -> i16 {
    i16_specs::wrapping_sub(target, i16_specs::wrapping_add(address, 1))
}

/// The value of an operand of an instruction at `address` under the
/// bindings `labels`: a literal stands for itself, a missing operand for
/// zero, and a label reference for the displacement to the label's address.
/// A reference to a name that `labels` does not bind has no value.
pub open spec fn resolved_argument(
    labels: Map<Seq<char>, i16>,
    address: i16,
    argument: ArgumentView,
) -> Result<i16, AssembleError> {
    match argument {
        ArgumentView::Literal(value) => Ok(value),
        ArgumentView::LabelReference(name) => if labels.contains_key(name) {
            Ok(displacement(labels[name], address))
        } else {
            Err(AssembleError::UndefinedLabel)
        },
        ArgumentView::Absent => Ok(0i16),
    }
}

/// What one addressed line resolves to: an instruction gives a resolved
/// instruction or the error of its operand, a label definition gives
/// nothing.
pub open spec fn resolved_line(
    labels: Map<Seq<char>, i16>,
    line: AddressedLineView,
) -> Result<Option<ResolvedInstructionView>, AssembleError> {
    match line.line {
        LineView::Instruction { opcode, argument } => match resolved_argument(
            labels,
            line.address,
            argument,
        ) {
            Ok(value) => Ok(Some(ResolvedInstructionView { opcode, argument: value })),
            Err(error) => Err(error),
        },
        LineView::LabelDefinition { .. } => Ok(None),
    }
}

/// The resolved instructions of `lines` in order, or the error of the first
/// line that fails to resolve.
pub open spec fn resolved_lines(
    labels: Map<Seq<char>, i16>,
    lines: Seq<AddressedLineView>,
) -> Result<Seq<ResolvedInstructionView>, AssembleError>
    decreases lines.len(),
{
    if lines.len() == 0 {
        Ok(Seq::empty())
    } else {
        match resolved_lines(labels, lines.drop_last()) {
            Ok(earlier) => match resolved_line(labels, lines.last()) {
                Ok(Some(instruction)) => Ok(earlier.push(instruction)),
                Ok(None) => Ok(earlier),
                Err(error) => Err(error),
            },
            Err(error) => Err(error),
        }
    }
}

/// The label table of a program: the bindings made by all its label
/// definitions, each at its assigned address.
pub open spec fn program_labels(lines: Seq<LineView>) -> Map<Seq<char>, i16> {
    label_addresses(addressed(lines))
}

/// The resolved instructions of a whole program: its lines are addressed,
/// the label table is built from all of them, and every instruction is
/// resolved against that table, so a reference may point forward.
pub open spec fn resolved_program(lines: Seq<LineView>) -> Result<
    Seq<ResolvedInstructionView>,
    AssembleError,
> {
    resolved_lines(program_labels(lines), addressed(lines))
}

/// Whether `line` is an instruction that refers to a label that `labels`
/// does not bind.
pub open spec fn has_undefined_reference(labels: Map<Seq<char>, i16>, line: LineView) -> bool {
    line matches LineView::Instruction { argument: ArgumentView::LabelReference(name), .. }
        && !labels.contains_key(name)
}

/// Whether some line of the program defines the label `name`.
pub open spec fn defines_label(lines: Seq<LineView>, name: Seq<char>) -> bool {
    exists|d: int|
        0 <= d < lines.len() && #[trigger] lines[d] == (LineView::LabelDefinition { name })
}

/// Whether some instruction of the program refers to a label that no line
/// of the program defines.
pub open spec fn refers_to_undefined_label(lines: Seq<LineView>) -> bool {
    exists|i: int|
        0 <= i < lines.len() && (#[trigger] lines[i] matches LineView::Instruction {
            argument: ArgumentView::LabelReference(name),
            ..
        } && !defines_label(lines, name))
}

/// The displacement between two wrapped addresses is the wrapped difference
/// of the addresses; where the target less the following address fits in
/// sixteen signed bits, the displacement is exactly that difference.
pub proof fn lemma_displacement(target: int, address: int)
    ensures
        displacement(wrap_i16(target), wrap_i16(address)) == wrap_i16(target - (address + 1)),
        i16::MIN <= target - (address + 1) <= i16::MAX ==> displacement(
            wrap_i16(target),
            wrap_i16(address),
        ) == target - (address + 1),
{
    let exact = target - (address + 1);
    let following = i16_specs::wrapping_add(wrap_i16(address), 1);
    let result = displacement(wrap_i16(target), wrap_i16(address));
    let kt = lemma_wrap_multiple(target);
    let ka = lemma_wrap_multiple(address);
    let carry: int = if wrap_i16(address) == i16::MAX {
        1
    } else {
        0
    };
    assert(following == wrap_i16(address) + 1 - 0x1_0000 * carry);
    let difference = wrap_i16(target) - following;
    let borrow: int = if difference > i16::MAX {
        1
    } else if difference < i16::MIN {
        -1
    } else {
        0
    };
    assert(result == difference - 0x1_0000 * borrow);
    lemma_wrap_unique(exact, result, kt - ka - carry + borrow);
    if i16::MIN <= exact <= i16::MAX {
        lemma_wrap_unique(exact, exact as i16, 0);
    }
}

/// A line fails to resolve exactly when it holds an undefined reference, and
/// then with `UndefinedLabel`; a line that resolves gives an instruction
/// exactly when it is one.
pub proof fn lemma_resolved_line_outcome(labels: Map<Seq<char>, i16>, line: AddressedLineView)
    ensures
        resolved_line(labels, line) is Err <==> has_undefined_reference(labels, line.line),
        resolved_line(labels, line) matches Err(error) ==> error == AssembleError::UndefinedLabel,
        resolved_line(labels, line) matches Ok(outcome) ==> (outcome is Some
            <==> line.line is Instruction),
{
}

/// What resolving the first `k` lines of a program gives.
proof fn lemma_resolved_prefix(labels: Map<Seq<char>, i16>, program: Seq<LineView>, k: int)
    requires
        0 <= k <= program.len(),
    ensures
        match resolved_lines(labels, addressed(program).take(k)) {
            Ok(instructions) => {
                &&& instructions.len() == instruction_count(program.take(k))
                &&& forall|i: int|
                    0 <= i < k ==> !has_undefined_reference(labels, #[trigger] program[i])
                &&& forall|i: int|
                    0 <= i < k && #[trigger] program[i] is Instruction ==> (resolved_line(
                        labels,
                        addressed(program)[i],
                    ) matches Ok(Some(instruction)) && instruction
                        == instructions[instruction_count(program.take(i)) as int])
            },
            Err(error) => {
                &&& error == AssembleError::UndefinedLabel
                &&& exists|i: int|
                    0 <= i < k && has_undefined_reference(labels, #[trigger] program[i])
            },
        },
    decreases k,
{
    let all = addressed(program);
    if k > 0 {
        lemma_resolved_prefix(labels, program, k - 1);
        lemma_instruction_count_step(program, k - 1);
        assert(all.take(k).drop_last() == all.take(k - 1));
        match resolved_lines(labels, all.take(k)) {
            Ok(instructions) => {
                assert forall|i: int|
                    0 <= i < k && #[trigger] program[i] is Instruction implies (resolved_line(
                    labels,
                    all[i],
                ) matches Ok(Some(instruction)) && instruction
                    == instructions[instruction_count(program.take(i)) as int]) by {
                    if i < k - 1 {
                        lemma_instruction_is_counted(program.take(k - 1), i);
                        assert(program.take(k - 1).take(i) == program.take(i));
                    }
                }
            },
            Err(error) => {
                if resolved_lines(labels, all.take(k - 1)) is Err {
                    let i = choose|i: int|
                        0 <= i < k - 1 && has_undefined_reference(labels, #[trigger] program[i]);
                    assert(has_undefined_reference(labels, program[i]));
                } else {
                    assert(has_undefined_reference(labels, program[k - 1]));
                }
            },
        }
    }
}

/// What resolving a program against `labels` gives. It fails, with
/// `UndefinedLabel`, exactly when some instruction refers to a label that
/// `labels` does not bind. Otherwise there is one resolved instruction per
/// instruction line, and an instruction line preceded by `a` instructions
/// resolves to the one at index `a`.
pub proof fn lemma_resolved_lines(labels: Map<Seq<char>, i16>, program: Seq<LineView>)
    ensures
        match resolved_lines(labels, addressed(program)) {
            Ok(instructions) => {
                &&& instructions.len() == instruction_count(program)
                &&& forall|i: int|
                    0 <= i < program.len() ==> !has_undefined_reference(
                        labels,
                        #[trigger] program[i],
                    )
                &&& forall|i: int|
                    0 <= i < program.len() && #[trigger] program[i] is Instruction ==> (
                    resolved_line(labels, addressed(program)[i]) matches Ok(Some(instruction))
                        && instruction == instructions[instruction_count(program.take(i)) as int])
            },
            Err(error) => {
                &&& error == AssembleError::UndefinedLabel
                &&& exists|i: int|
                    0 <= i < program.len() && has_undefined_reference(
                        labels,
                        #[trigger] program[i],
                    )
            },
        },
{
    lemma_resolved_prefix(labels, program, program.len() as int);
    assert(addressed(program).take(program.len() as int) == addressed(program));
    assert(program.take(program.len() as int) == program);
}

/// The table of a program binds exactly the names that its lines define.
pub proof fn lemma_program_labels_domain(lines: Seq<LineView>, name: Seq<char>)
    ensures
        program_labels(lines).contains_key(name) <==> defines_label(lines, name),
{
    let all = addressed(lines);
    lemma_bound_iff_defined(all, name);
    if program_labels(lines).contains_key(name) {
        let d = choose|d: int| 0 <= d < all.len() && defines(#[trigger] all[d], name);
        assert(lines[d] == (LineView::LabelDefinition { name }));
    }
    if defines_label(lines, name) {
        let d = choose|d: int|
            0 <= d < lines.len() && #[trigger] lines[d] == (LineView::LabelDefinition { name });
        assert(defines(all[d], name));
    }
}

/// What resolving a whole program gives. It fails, with `UndefinedLabel`,
/// exactly when the program refers to an undefined label. Otherwise there
/// is one resolved instruction per instruction line, and an instruction
/// line preceded by `a` instructions resolves to the one at index `a`.
pub proof fn lemma_resolved_program(lines: Seq<LineView>)
    ensures
        match resolved_program(lines) {
            Ok(instructions) => {
                &&& !refers_to_undefined_label(lines)
                &&& instructions.len() == instruction_count(lines)
                &&& forall|i: int|
                    0 <= i < lines.len() && #[trigger] lines[i] is Instruction ==> (resolved_line(
                        program_labels(lines),
                        addressed(lines)[i],
                    ) matches Ok(Some(instruction)) && instruction
                        == instructions[instruction_count(lines.take(i)) as int])
            },
            Err(error) => {
                &&& error == AssembleError::UndefinedLabel
                &&& refers_to_undefined_label(lines)
            },
        },
{
    let labels = program_labels(lines);
    lemma_resolved_lines(labels, lines);
    assert forall|i: int| 0 <= i < lines.len() implies (has_undefined_reference(
        labels,
        #[trigger] lines[i],
    ) <==> (lines[i] matches LineView::Instruction {
        argument: ArgumentView::LabelReference(name),
        ..
    } && !defines_label(lines, name))) by {
        if let LineView::Instruction { argument: ArgumentView::LabelReference(name), .. } =
            lines[i] {
            lemma_program_labels_domain(lines, name);
        }
    }
    if resolved_program(lines) is Err {
        let i = choose|i: int|
            0 <= i < lines.len() && has_undefined_reference(labels, #[trigger] lines[i]);
        assert(has_undefined_reference(labels, lines[i]));
    }
}

/// The view of the outcome of resolving a program.
pub open spec fn instructions_view(
    outcome: Result<Vec<ResolvedInstruction>, AssembleError>,
) -> Result<Seq<ResolvedInstructionView>, AssembleError> {
    match outcome {
        Ok(instructions) => Ok(instructions.deep_view()),
        Err(error) => Err(error),
    }
}

/// The view of the outcome of resolving one line.
pub open spec fn line_outcome_view(
    outcome: Result<Option<ResolvedInstruction>, AssembleError>,
) -> Result<Option<ResolvedInstructionView>, AssembleError> {
    match outcome {
        Ok(Some(instruction)) => Ok(Some(instruction@)),
        Ok(None) => Ok(None),
        Err(error) => Err(error),
    }
}

/// Resolves the operand of an instruction at `address`.
pub fn resolve_arg(labels: &LabelTable, address: i16, argument: &Argument) -> (result: Result<
    i16,
    AssembleError,
>)
    ensures
        result == resolved_argument(labels@, address, argument@),
{
    match argument {
        Argument::Literal(value) => Ok(*value),
        Argument::LabelReference(name) => match labels.get(name.as_str()) {
            Some(target) => Ok(target.wrapping_sub(address.wrapping_add(1))),
            None => Err(AssembleError::UndefinedLabel),
        },
        Argument::Absent => Ok(0),
    }
}

/// Resolves one addressed line: an instruction yields its resolved form, a
/// label definition yields nothing.
pub fn resolve_line(labels: &LabelTable, line: AddressedLine) -> (result: Result<
    Option<ResolvedInstruction>,
    AssembleError,
>)
    ensures
        line_outcome_view(result) == resolved_line(labels@, line@),
{
    let AddressedLine { line, address } = line;
    match line {
        Line::Instruction { opcode, argument } => {
            match resolve_arg(labels, address, &argument) {
                Ok(value) => Ok(Some(ResolvedInstruction { opcode, argument: value })),
                Err(error) => Err(error),
            }
        },
        Line::LabelDefinition { .. } => Ok(None),
    }
}

/// Resolves a whole program: assigns addresses, builds the label table and
/// resolves every instruction, stopping at the first undefined label.
pub fn resolve(lines: Vec<Line>) -> (result: Result<Vec<ResolvedInstruction>, AssembleError>)
    ensures
        instructions_view(result) == resolved_program(lines.deep_view()),
        result is Err <==> refers_to_undefined_label(lines.deep_view()),
        result matches Err(error) ==> error == AssembleError::UndefinedLabel,
        result matches Ok(instructions) ==> instructions.len() == instruction_count(
            lines.deep_view(),
        ),
{
    let ghost program = lines.deep_view();
    let addressed_lines = lines_with_addresses(lines);
    let labels = find_labels(&addressed_lines);
    let ghost all = addressed_lines.deep_view();
    let mut instructions: Vec<ResolvedInstruction> = Vec::new();
    for line in it: addressed_lines
        invariant
            program == lines.deep_view(),
            all == addressed(program),
            labels@ == label_addresses(all),
            it.seq().len() == all.len(),
            forall|k: int| 0 <= k < all.len() ==> (#[trigger] it.seq()[k])@ == all[k],
            resolved_lines(labels@, all.take(it.index() as int)) matches Ok(earlier) && earlier
                == instructions.deep_view(),
    {
        assert(all.take(it.index() + 1).drop_last() == all.take(it.index() as int));
        match resolve_line(&labels, line) {
            Ok(Some(instruction)) => {
                instructions.push(instruction);
            },
            Ok(None) => {},
            Err(error) => {
                proof {
                    lemma_resolution_error_persists(labels@, all, it.index() + 1);
                    lemma_resolved_program(program);
                }
                return Err(error);
            },
        }
    }
    proof {
        assert(all.take(all.len() as int) == all);
        lemma_resolved_program(program);
    }
    Ok(instructions)
}

/// Once a prefix of the lines has failed to resolve, every longer prefix
/// fails with the same error.
proof fn lemma_resolution_error_persists(
    labels: Map<Seq<char>, i16>,
    lines: Seq<AddressedLineView>,
    k: int,
)
    requires
        0 <= k <= lines.len(),
        resolved_lines(labels, lines.take(k)) is Err,
    ensures
        resolved_lines(labels, lines) == resolved_lines(labels, lines.take(k)),
    decreases lines.len(),
{
    if k == lines.len() {
        assert(lines.take(k) == lines);
    } else {
        assert(lines.drop_last().take(k) == lines.take(k));
        lemma_resolution_error_persists(labels, lines.drop_last(), k);
    }
}

} // verus!
