use assembler::address::AddressedLine;
use assembler::error::AssembleError;
use assembler::labels::LabelTable;
use assembler::line::{parse_line, Argument, Line};
use assembler::resolve::{resolve, resolve_arg, resolve_line, ResolvedInstruction};

fn parsed(source: &[&str]) -> Vec<Line> {
    source.iter().map(|text| parse_line(text)).collect()
}

fn resolved(opcode: &str, argument: i16) -> ResolvedInstruction {
    ResolvedInstruction { opcode: opcode.to_string(), argument }
}

fn one_label(name: &str, address: i16) -> LabelTable {
    let mut labels = LabelTable::new();
    labels.insert(name.to_string(), address);
    labels
}

#[test]
fn literal_resolves_to_itself() {
    let labels = LabelTable::new();
    assert_eq!(resolve_arg(&labels, 7, &Argument::Literal(5)), Ok(5));
    assert_eq!(resolve_arg(&labels, 7, &Argument::Literal(-32768)), Ok(-32768));
    assert_eq!(resolve_arg(&labels, -1, &Argument::Literal(32767)), Ok(32767));
}

#[test]
fn absent_argument_resolves_to_zero() {
    let labels = one_label(":a", 12);
    assert_eq!(resolve_arg(&labels, 0, &Argument::Absent), Ok(0));
    assert_eq!(resolve_arg(&labels, 32767, &Argument::Absent), Ok(0));
}

#[test]
fn reference_resolves_to_target_less_following_address() {
    let labels = one_label(":loop", 1);
    let reference = Argument::LabelReference(":loop".to_string());
    assert_eq!(resolve_arg(&labels, 2, &reference), Ok(-2));
    assert_eq!(resolve_arg(&labels, 0, &reference), Ok(0));
    assert_eq!(resolve_arg(&labels, 1, &reference), Ok(-1));
    let far = one_label(":far", 100);
    assert_eq!(resolve_arg(&far, 10, &Argument::LabelReference(":far".to_string())), Ok(89));
}

#[test]
fn displacement_wraps_in_sixteen_bits() {
    let reference = Argument::LabelReference(":l".to_string());
    assert_eq!(resolve_arg(&one_label(":l", 0), 32767, &reference), Ok(-32768));
    assert_eq!(resolve_arg(&one_label(":l", -32768), 0, &reference), Ok(32767));
    assert_eq!(resolve_arg(&one_label(":l", 32767), -2, &reference), Ok(-32768));
    assert_eq!(resolve_arg(&one_label(":l", 32767), -1, &reference), Ok(32767));
}

#[test]
fn undefined_reference_is_an_error() {
    let labels = one_label(":loop", 1);
    assert_eq!(
        resolve_arg(&labels, 0, &Argument::LabelReference(":pool".to_string())),
        Err(AssembleError::UndefinedLabel)
    );
    assert_eq!(
        resolve_arg(&labels, 0, &Argument::LabelReference("loop".to_string())),
        Err(AssembleError::UndefinedLabel)
    );
}

#[test]
fn resolve_line_keeps_opcode_and_resolves_argument() {
    let labels = one_label(":loop", 1);
    let line = AddressedLine { line: parse_line("jle :loop"), address: 2 };
    assert_eq!(resolve_line(&labels, line), Ok(Some(resolved("jle", -2))));
    let line = AddressedLine { line: parse_line("bogus 4"), address: 2 };
    assert_eq!(resolve_line(&labels, line), Ok(Some(resolved("bogus", 4))));
}

#[test]
fn resolve_line_drops_label_definitions() {
    let labels = LabelTable::new();
    let line = AddressedLine { line: parse_line(":loop"), address: 2 };
    assert_eq!(resolve_line(&labels, line), Ok(None));
}

#[test]
fn resolve_line_reports_undefined_label() {
    let labels = LabelTable::new();
    let line = AddressedLine { line: parse_line("jmp :nowhere"), address: 0 };
    assert_eq!(resolve_line(&labels, line), Err(AssembleError::UndefinedLabel));
}

#[test]
fn resolve_handles_backward_and_forward_references() {
    let program = parsed(&["jmp :end", ":top", "const 1", "jle :top", "jmp :top", ":end", "pop"]);
    assert_eq!(
        resolve(program),
        Ok(vec![
            resolved("jmp", 3),
            resolved("const", 1),
            resolved("jle", -2),
            resolved("jmp", -3),
            resolved("pop", 0),
        ])
    );
}

#[test]
fn resolve_uses_last_definition_of_a_label() {
    let program = parsed(&[":x", "pop", ":x", "jmp :x"]);
    assert_eq!(resolve(program), Ok(vec![resolved("pop", 0), resolved("jmp", -1)]));
}

#[test]
fn resolve_reference_to_trailing_label() {
    let program = parsed(&["jmp :end", "pop", ":end"]);
    assert_eq!(resolve(program), Ok(vec![resolved("jmp", 1), resolved("pop", 0)]));
}

#[test]
fn resolve_fails_on_undefined_label() {
    let program = parsed(&["const 1", "jmp :missing", "pop"]);
    assert_eq!(resolve(program), Err(AssembleError::UndefinedLabel));
}

#[test]
fn resolve_of_empty_program_is_empty() {
    assert_eq!(resolve(Vec::new()), Ok(Vec::new()));
}

#[test]
fn resolve_does_not_judge_opcodes() {
    let program = parsed(&["frobnicate 3", ""]);
    assert_eq!(resolve(program), Ok(vec![resolved("frobnicate", 3), resolved("", 0)]));
}

#[test]
fn resolved_instruction_clone_is_equal() {
    let instruction = resolved("swap", 2);
    assert_eq!(instruction.clone(), instruction);
}
