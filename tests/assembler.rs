use isa16::assembler::{assemble, assemble_lines, parse_instruction, resolve, ParseInstructionError};
use isa16::inst::Instruction;
use isa16::lex::tokenize;

fn parse(line: &str) -> Result<Instruction, ParseInstructionError> {
    let tokens = tokenize(line).unwrap_or_default();
    parse_instruction(&tokens, &Vec::new(), 0)
}

fn source(lines: &[&str]) -> Vec<String> {
    lines.iter().map(|s| s.to_string()).collect()
}

#[test]
fn label_resolves_to_relative_offset() {
    let program = source(&["loop:", "xor r0, r0", "add r0, 0x01", "str r1, &loop"]);
    assert_eq!(assemble(&program), Ok(vec![0x5000, 0xc081, 0xd1fd]));
}

#[test]
fn operand_count_errors() {
    assert_eq!(parse("mul r1"), Err(ParseInstructionError::MissingOps));
    assert_eq!(parse("mul r1, r2, r3"), Err(ParseInstructionError::ExtraOps));
    assert_eq!(parse("mul r16, r0"), Err(ParseInstructionError::InvalidOp));
}

#[test]
fn other_errors() {
    assert_eq!(parse(""), Err(ParseInstructionError::EmptyStr));
    assert_eq!(parse("jmp r1, r2"), Err(ParseInstructionError::BadInstruction));
    assert_eq!(parse("add r1 . r2"), Err(ParseInstructionError::ExpectedSep));
    assert_eq!(parse("add r1, r16"), Err(ParseInstructionError::InvalidOp));
    assert_eq!(parse("add r1, 0x80"), Err(ParseInstructionError::InvalidOp));
    assert_eq!(parse("lsl r1, 0x10"), Err(ParseInstructionError::InvalidOp));
    assert_eq!(parse("str r1, & 0x03"), Err(ParseInstructionError::InvalidOp));
    assert_eq!(parse("str r1, * r2"), Err(ParseInstructionError::InvalidOp));
    assert_eq!(parse("str r1, & nowhere"), Err(ParseInstructionError::UnknownSymbol));
    assert_eq!(parse("add r1, nowhere"), Err(ParseInstructionError::InvalidOp));
    assert_eq!(parse("push"), Err(ParseInstructionError::MissingOps));
    assert_eq!(parse("pop r1, r2"), Err(ParseInstructionError::ExtraOps));
}

#[test]
fn each_form_encodes() {
    let word = |line: &str| parse(line).unwrap().encode();
    assert_eq!(word("add r1, 0x05"), 0xc185);
    assert_eq!(word("mul r2, r3"), 0x7203);
    assert_eq!(word("mul r2, 0x7f"), 0x72ff);
    assert_eq!(word("xor pc, 0b1"), 0x5f81);
    assert_eq!(word("lsr r1, 0x1"), 0xe181);
    assert_eq!(word("asr r1, r2"), 0xe112);
    assert_eq!(word("ror r1, r2"), 0xe122);
    assert_eq!(word("lsl r1, 0x2"), 0xe1c2);
    assert_eq!(word("asl r1, 0x2"), 0xe1d2);
    assert_eq!(word("rol r1, 0x2"), 0xe1e2);
    assert_eq!(word("str r1, & r2"), 0xd102);
    assert_eq!(word("str r1, & 0x04"), 0xd182);
    assert_eq!(word("ldr r3, * sr"), 0xb30d);
    assert_eq!(word("push lr"), 0xde40);
    assert_eq!(word("pop r4"), 0xb440);
}

#[test]
fn forward_labels_and_case() {
    let program = source(&[
        "  LDR R0, *DATA ; load",
        "",
        "; comment line",
        "data:",
        "ADD R0, 0X01",
    ]);
    assert_eq!(assemble(&program), Ok(vec![0xb080, 0xc081]));
}

#[test]
fn failing_line_is_reported() {
    let program = source(&["a:", "add r0, r1", "mul r1", "bogus r0, r0"]);
    assert_eq!(assemble(&program), Err((1, ParseInstructionError::MissingOps)));
}

#[test]
fn later_label_wins() {
    let symbols = vec![("x".to_string(), 1), ("y".to_string(), 2), ("x".to_string(), 5)];
    assert_eq!(resolve(&symbols, "x"), Some(5));
    assert_eq!(resolve(&symbols, "y"), Some(2));
    assert_eq!(resolve(&symbols, "z"), None);
}

#[test]
fn label_out_of_reach() {
    let mut program = source(&["far:"]);
    for _ in 0..64 {
        program.push("add r0, r0".to_string());
    }
    program.push("str r1, & far".to_string());
    assert_eq!(assemble(&program), Err((64, ParseInstructionError::InvalidOp)));
    program.remove(1);
    let words = assemble(&program).unwrap();
    assert_eq!(words[63], 0xd1c0);
}

#[test]
fn lower_case_lines_assemble_directly() {
    assert_eq!(assemble_lines(&source(&["add r0, r1"])), Ok(vec![0xc001]));
    assert_eq!(
        assemble_lines(&source(&["ADD R0, R1"])),
        Err((0, ParseInstructionError::BadInstruction))
    );
    assert_eq!(assemble(&source(&["ADD R0, R1"])), Ok(vec![0xc001]));
}
