use isa16::lex::{extract, parse_imm, parse_reg, tokenize, Line, ParseLexemeError};

fn strings(v: &[&str]) -> Vec<String> {
    v.iter().map(|s| s.to_string()).collect()
}

fn line(v: &[&str]) -> Line {
    Line { tokens: strings(v) }
}

#[test]
fn tokenize_drops_whitespace_and_comment() {
    assert_eq!(
        tokenize("  mul  r1 , 0x05 ; comment"),
        Some(strings(&["mul", "r1", ",", "0x05"]))
    );
}

#[test]
fn tokenize_splits_at_word_boundaries() {
    assert_eq!(tokenize("add r3,r4"), Some(strings(&["add", "r3", ",", "r4"])));
    assert_eq!(tokenize("str r1, &loop"), Some(strings(&["str", "r1", ",", "&", "loop"])));
    assert_eq!(tokenize("loop:"), Some(strings(&["loop", ":"])));
    assert_eq!(tokenize("a,,b"), Some(strings(&["a", ",,", "b"])));
    assert_eq!(tokenize("\tx\u{3000}y"), Some(strings(&["x", "y"])));
    assert_eq!(tokenize("é_1+z"), Some(strings(&["é_1", "+", "z"])));
}

#[test]
fn tokenize_blank_and_comment_lines() {
    assert_eq!(tokenize(""), None);
    assert_eq!(tokenize("   \t "), None);
    assert_eq!(tokenize("; only a comment"), None);
    assert_eq!(tokenize("pop r1;x"), Some(strings(&["pop", "r1"])));
}

#[test]
fn registers() {
    assert_eq!(parse_reg("sr"), Ok(13));
    assert_eq!(parse_reg("lr"), Ok(14));
    assert_eq!(parse_reg("pc"), Ok(15));
    assert_eq!(parse_reg("r0"), Ok(0));
    assert_eq!(parse_reg("r07"), Ok(7));
    assert_eq!(parse_reg("r16"), Ok(16));
    assert_eq!(parse_reg("r65535"), Ok(65535));
    assert_eq!(parse_reg("r65536"), Err(ParseLexemeError::InvalidReg("r65536".to_string())));
    assert_eq!(parse_reg("r"), Err(ParseLexemeError::InvalidReg("r".to_string())));
    assert_eq!(parse_reg("rx"), Err(ParseLexemeError::InvalidReg("rx".to_string())));
    assert_eq!(parse_reg("x1"), Err(ParseLexemeError::InvalidReg("x1".to_string())));
}

#[test]
fn immediates() {
    assert_eq!(parse_imm("0x05"), Ok(5));
    assert_eq!(parse_imm("0xFF"), Ok(255));
    assert_eq!(parse_imm("0b101"), Ok(5));
    assert_eq!(parse_imm("0o17"), Ok(15));
    assert_eq!(parse_imm("0d65535"), Ok(65535));
    assert_eq!(parse_imm("0xffff"), Ok(0xffff));
    assert_eq!(parse_imm("0x10000"), Err(ParseLexemeError::InvalidImm("0x10000".to_string())));
    assert_eq!(parse_imm("0b102"), Err(ParseLexemeError::InvalidImm("0b102".to_string())));
    assert_eq!(parse_imm("0da"), Err(ParseLexemeError::InvalidImm("0da".to_string())));
    assert_eq!(parse_imm("0x"), Err(ParseLexemeError::InvalidImm("0x".to_string())));
    assert_eq!(parse_imm("5"), Err(ParseLexemeError::InvalidImm("5".to_string())));
    assert_eq!(parse_imm("0z1"), Err(ParseLexemeError::InvalidImm("0z1".to_string())));
}

#[test]
fn extract_labels() {
    let mut lines = vec![
        line(&["start", ":"]),
        line(&["xor", "r0", ",", "r0"]),
        line(&["add", "r0", ",", "0x01"]),
        line(&["end", ":"]),
        line(&["&", ":"]),
        line(&["pop", "r1"]),
    ];
    let symbols = extract(&mut lines);
    assert_eq!(symbols, vec![("start".to_string(), 0), ("end".to_string(), 2)]);
    let kept: Vec<Vec<String>> = lines.into_iter().map(|l| l.tokens).collect();
    assert_eq!(
        kept,
        vec![
            strings(&["xor", "r0", ",", "r0"]),
            strings(&["add", "r0", ",", "0x01"]),
            strings(&["&", ":"]),
            strings(&["pop", "r1"]),
        ]
    );
}
