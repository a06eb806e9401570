use assembler::encode::{encode_instruction, encode_instructions};
use assembler::error::AssembleError;
use assembler::opcode::{encode_opcode, Opcode};
use assembler::resolve::ResolvedInstruction;

fn resolved(opcode: &str, argument: i16) -> ResolvedInstruction {
    ResolvedInstruction { opcode: opcode.to_string(), argument }
}

#[test]
fn every_mnemonic_has_its_code() {
    assert_eq!(encode_opcode("const"), Ok(0));
    assert_eq!(encode_opcode("pop"), Ok(1));
    assert_eq!(encode_opcode("dup"), Ok(2));
    assert_eq!(encode_opcode("swap"), Ok(3));
    assert_eq!(encode_opcode("cmp"), Ok(4));
    assert_eq!(encode_opcode("add"), Ok(5));
    assert_eq!(encode_opcode("mul"), Ok(6));
    assert_eq!(encode_opcode("jmp"), Ok(7));
    assert_eq!(encode_opcode("jle"), Ok(8));
}

#[test]
fn other_names_are_unknown_opcodes() {
    let names = [
        "", "halt", "CONST", "Const", "const ", " const", "cons", "consts", "jl", "po", "jlee",
        ":pop", "púp",
    ];
    for name in names {
        assert_eq!(encode_opcode(name), Err(AssembleError::UnknownOpcode), "{:?}", name);
    }
}

#[test]
fn opcode_from_name_and_code() {
    assert_eq!(Opcode::from_name("const"), Some(Opcode::Const));
    assert_eq!(Opcode::from_name("pop"), Some(Opcode::Pop));
    assert_eq!(Opcode::from_name("dup"), Some(Opcode::Dup));
    assert_eq!(Opcode::from_name("swap"), Some(Opcode::Swap));
    assert_eq!(Opcode::from_name("cmp"), Some(Opcode::Cmp));
    assert_eq!(Opcode::from_name("add"), Some(Opcode::Add));
    assert_eq!(Opcode::from_name("mul"), Some(Opcode::Mul));
    assert_eq!(Opcode::from_name("jmp"), Some(Opcode::Jmp));
    assert_eq!(Opcode::from_name("jle"), Some(Opcode::Jle));
    assert_eq!(Opcode::from_name("nop"), None);
    let codes: Vec<i32> = [
        Opcode::Const, Opcode::Pop, Opcode::Dup, Opcode::Swap, Opcode::Cmp, Opcode::Add,
        Opcode::Mul, Opcode::Jmp, Opcode::Jle,
    ].iter().map(|opcode| opcode.code()).collect();
    assert_eq!(codes, vec![0, 1, 2, 3, 4, 5, 6, 7, 8]);
}

#[test]
fn word_holds_code_low_and_argument_high() {
    assert_eq!(encode_instruction(resolved("const", 5)), Ok(0x0005_0000));
    assert_eq!(encode_instruction(resolved("dup", 0)), Ok(0x0000_0002));
    assert_eq!(encode_instruction(resolved("swap", 1)), Ok(0x0001_0003));
    assert_eq!(encode_instruction(resolved("jle", 0x1234)), Ok(0x1234_0008));
}

#[test]
fn negative_argument_is_kept_in_twos_complement() {
    assert_eq!(encode_instruction(resolved("jle", -2)), Ok(0xFFFE_0008u32 as i32));
    assert_eq!(encode_instruction(resolved("jle", -2)), Ok(-131064));
    assert_eq!(encode_instruction(resolved("const", -1)), Ok(0xFFFF_0000u32 as i32));
    assert_eq!(encode_instruction(resolved("jmp", i16::MIN)), Ok(0x8000_0007u32 as i32));
    assert_eq!(encode_instruction(resolved("jmp", i16::MAX)), Ok(0x7FFF_0007));
}

#[test]
fn word_is_code_or_shifted_argument_for_every_argument() {
    for (name, code) in [("const", 0i32), ("cmp", 4), ("jle", 8)] {
        for argument in i16::MIN..=i16::MAX {
            let word = encode_instruction(resolved(name, argument)).unwrap();
            assert_eq!(word, code | ((argument as i32) << 16));
            assert_eq!(word & 0xFFFF, code);
            assert_eq!(word >> 16, argument as i32);
        }
    }
}

#[test]
fn unknown_opcode_does_not_encode() {
    assert_eq!(encode_instruction(resolved("halt", 0)), Err(AssembleError::UnknownOpcode));
    assert_eq!(encode_instruction(resolved("", 3)), Err(AssembleError::UnknownOpcode));
}

#[test]
fn instructions_encode_in_order() {
    let program = vec![resolved("const", 5), resolved("dup", 0), resolved("jle", -2)];
    assert_eq!(
        encode_instructions(program),
        Ok(vec![0x0005_0000, 0x0000_0002, 0xFFFE_0008u32 as i32])
    );
    assert_eq!(encode_instructions(Vec::new()), Ok(Vec::new()));
}

#[test]
fn one_unknown_opcode_fails_the_whole_encoding() {
    let program = vec![resolved("const", 5), resolved("halt", 0), resolved("dup", 0)];
    assert_eq!(encode_instructions(program), Err(AssembleError::UnknownOpcode));
    let program = vec![resolved("const", 5), resolved("dup", 0), resolved("halt", 0)];
    assert_eq!(encode_instructions(program), Err(AssembleError::UnknownOpcode));
}
