use assembler::assemble::{compile, parse_lines};
use assembler::error::AssembleError;
use assembler::line::{Argument, Line};

fn source(lines: &[&str]) -> Vec<String> {
    lines.iter().map(|line| line.to_string()).collect()
}

#[test]
fn loop_example_assembles_to_three_words() {
    let words = compile(&source(&["const 5", ":loop", "dup", "jle :loop"]));
    let jump = (0x0000_0008u32 | ((((-2i32) as u32) & 0xFFFF) << 16)) as i32;
    assert_eq!(words, Ok(vec![0x0005_0000, 0x0000_0002, jump]));
}

#[test]
fn parse_lines_classifies_each_line_in_order() {
    let lines = parse_lines(&source(&["const 5", ":loop", "dup"]));
    assert_eq!(
        lines,
        vec![
            Line::Instruction { opcode: "const".to_string(), argument: Argument::Literal(5) },
            Line::LabelDefinition { name: ":loop".to_string() },
            Line::Instruction { opcode: "dup".to_string(), argument: Argument::Absent },
        ]
    );
    assert_eq!(parse_lines(&Vec::new()), Vec::new());
}

#[test]
fn one_word_per_instruction_line() {
    let program = source(&[":a", "const 1", ":b", ":c", "pop", "jmp :a", ":d"]);
    assert_eq!(compile(&program).unwrap().len(), 3);
    assert_eq!(compile(&source(&[":only", ":labels"])), Ok(Vec::new()));
    assert_eq!(compile(&Vec::new()), Ok(Vec::new()));
}

#[test]
fn literal_argument_fills_the_high_half() {
    let words = compile(&source(&["const 7", "swap -3", "const -32768", "const 32767"])).unwrap();
    assert_eq!(words[0], 0 | (7 << 16));
    assert_eq!(words[1], 3 | ((-3i32) << 16));
    assert_eq!(words[2], 0 | ((-32768i32) << 16));
    assert_eq!(words[3], 0 | (32767 << 16));
}

#[test]
fn missing_argument_assembles_as_zero() {
    assert_eq!(compile(&source(&["pop", "add", "jmp"])), Ok(vec![1, 5, 7]));
}

#[test]
fn malformed_argument_assembles_as_zero() {
    assert_eq!(compile(&source(&["const five", "const 70000"])), Ok(vec![0, 0]));
}

#[test]
fn forward_reference_is_resolved() {
    let words = compile(&source(&["jmp :end", "pop", "pop", ":end", "dup"])).unwrap();
    assert_eq!(words, vec![7 | (2 << 16), 1, 1, 2]);
}

#[test]
fn displacement_is_target_less_following_address() {
    let program =
        source(&["pop", "pop", ":target", "pop", "pop", "pop", "jmp :target", "jle :target"]);
    let words = compile(&program).unwrap();
    assert_eq!(words[5] >> 16, 2 - (5 + 1));
    assert_eq!(words[6] >> 16, 2 - (6 + 1));
    assert_eq!(words[5] & 0xFFFF, 7);
}

#[test]
fn unknown_opcode_yields_no_words() {
    assert_eq!(compile(&source(&["const 5", "halt", "dup"])), Err(AssembleError::UnknownOpcode));
    assert_eq!(compile(&source(&["halt"])), Err(AssembleError::UnknownOpcode));
    assert_eq!(compile(&source(&["pop", "pop", "POP"])), Err(AssembleError::UnknownOpcode));
}

#[test]
fn blank_line_is_an_unknown_opcode() {
    assert_eq!(compile(&source(&["pop", "", "pop"])), Err(AssembleError::UnknownOpcode));
}

#[test]
fn undefined_label_yields_no_words() {
    assert_eq!(compile(&source(&["const 5", "jmp :nowhere"])), Err(AssembleError::UndefinedLabel));
    assert_eq!(compile(&source(&[":here", "jmp :Here"])), Err(AssembleError::UndefinedLabel));
}

#[test]
fn undefined_label_is_reported_before_unknown_opcode() {
    assert_eq!(compile(&source(&["halt", "jmp :nowhere"])), Err(AssembleError::UndefinedLabel));
    assert_eq!(compile(&source(&["jmp :nowhere", "halt"])), Err(AssembleError::UndefinedLabel));
    assert_eq!(compile(&source(&["halt :nowhere"])), Err(AssembleError::UndefinedLabel));
}

#[test]
fn duplicate_label_binds_to_its_last_definition() {
    let words = compile(&source(&[":x", "pop", ":x", "pop", "jmp :x"])).unwrap();
    assert_eq!(words[2], 7 | ((1 - (2 + 1)) << 16));
}

#[test]
fn assembling_twice_gives_the_same_words() {
    let program = source(&["const 5", ":loop", "dup", "jle :loop", "jmp :end", "mul", ":end"]);
    let first = compile(&program);
    let second = compile(&program.clone());
    assert!(first.is_ok());
    assert_eq!(first, second);
    let failing = source(&["const 5", "stop"]);
    assert_eq!(compile(&failing), compile(&failing.clone()));
}

#[test]
fn long_program_wraps_addresses_and_displacements() {
    let mut program = vec![":start".to_string()];
    for _ in 0..40000 {
        program.push("pop".to_string());
    }
    program.push("jmp :start".to_string());
    let words = compile(&program).unwrap();
    assert_eq!(words.len(), 40001);
    let exact: i32 = 0 - (40000 + 1);
    assert_eq!(words[40000] >> 16, (exact as i16) as i32);
    assert_eq!(words[40000] & 0xFFFF, 7);
}
