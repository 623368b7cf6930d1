use isa16::add::Add;
use isa16::inst::Instruction;
use isa16::load::Ldr;
use isa16::machine::Op2;
use isa16::mul::Mul;
use isa16::shf::{Shf, ShfMode};
use isa16::store::{Str, StrMode};
use isa16::word::sign_extend;
use isa16::xor::Xor;

#[test]
fn add_sweep() {
    for mut word in 0xc000..=0xcfffu16 {
        let instr = Add::decode(word);
        if let Op2::Reg(_) = instr.op2 {
            word &= 0xff8f;
        }
        let decoded: u16 = instr.encode();
        assert_eq!(decoded, word);
    }
}

#[test]
fn mul_sweep() {
    for mut word in 0x7000..=0x7fffu16 {
        let instr = Mul::decode(word);
        if let Op2::Reg(_) = instr.op2 {
            word &= 0xff8f;
        }
        let decoded: u16 = instr.encode();
        assert_eq!(decoded, word);
    }
}

#[test]
fn str_sweep() {
    for mut word in 0xd000..=0xdfffu16 {
        let instr = Str::decode(word);
        if let Op2::Reg(_) = instr.op2 {
            word &= 0xffcf;
        }
        if let StrMode::Push = instr.mode {
            word &= 0xffc0;
        }
        let decoded: u16 = instr.encode();
        assert_eq!(decoded, word);
    }
}

#[test]
fn ldr_sweep() {
    for mut word in 0xb000..=0xbfffu16 {
        let instr = Ldr::decode(word);
        if let Op2::Reg(_) = instr.op2 {
            word &= 0xffcf;
        }
        if instr.pop {
            word &= 0xffc0;
        }
        let decoded: u16 = instr.encode();
        assert_eq!(decoded, word);
    }
}

#[test]
fn shf_sweep() {
    for word in 0xe000..=0xefffu16 {
        match (word & 0x0030) >> 4 {
            0b11 => continue,
            _ => (),
        }
        let instr = Shf::decode(word);
        let decoded: u16 = instr.encode();
        assert_eq!(decoded, word);
    }
}

#[test]
fn xor_sweep() {
    for mut word in 0x5000..=0x5fffu16 {
        let instr = Xor::decode(word);
        if let Op2::Reg(_) = instr.op2 {
            word &= 0xff8f;
        }
        assert_eq!(instr.encode(), word);
    }
}

#[test]
fn every_word_round_trips_through_instruction() {
    for word in 0..=0xffffu16 {
        let op = word >> 12;
        match Instruction::decode(word) {
            Some(i) => {
                let canonical = match op {
                    0xc | 0x7 | 0x5 if word & 0x80 == 0 => word & 0xff8f,
                    0xd | 0xb if word & 0x80 == 0 && word & 0x40 != 0 => word & 0xffc0,
                    0xd | 0xb if word & 0x80 == 0 => word & 0xffcf,
                    _ => word,
                };
                assert_eq!(i.encode(), canonical);
            }
            None => {
                let m = (word >> 4) & 7;
                assert!(!matches!(op, 0xc | 0x7 | 0x5 | 0xd | 0xb));
                assert!(op != 0xe || m == 3 || m == 7);
            }
        }
    }
}

#[test]
fn decode_fields() {
    let m = Mul::decode(0x7cff);
    assert_eq!(m.op1, 12);
    assert_eq!(m.op2, Op2::Imm(0xffff));
    let a = Add::decode(0xc3ff);
    assert_eq!(a.op2, Op2::Imm(0x7f));
    let s = Str::decode(0xd2c0);
    assert_eq!(s.op2, Op2::Imm(0xff80));
    assert_eq!(s.mode, StrMode::Str);
    let p = Str::decode(0xd540);
    assert_eq!(p.mode, StrMode::Push);
    let l = Ldr::decode(0xb1c1);
    assert_eq!(l.op2, Op2::Imm(0xff82));
    assert!(!l.pop);
    let sh = Shf::decode(0xe4d3);
    assert_eq!(sh.mode, ShfMode::Asl);
    assert_eq!(sh.op2, Op2::Imm(3));
}

#[test]
fn sign_extension() {
    assert_eq!(sign_extend(0x40, 7), 0xffc0);
    assert_eq!(sign_extend(0x7f, 7), 0xffff);
    assert_eq!(sign_extend(0x3f, 7), 0x3f);
    assert_eq!(sign_extend(0x00, 7), 0x00);
    assert_eq!(sign_extend(0xfe, 8), 0xfffe);
    assert_eq!(sign_extend(0x7e, 8), 0x7e);
    assert_eq!(sign_extend(0x8000, 16), 0x8000);
    assert_eq!(sign_extend(1, 1), 0xffff);
}

#[test]
fn disassembly() {
    assert_eq!(Add::decode(0xc185).to_text(), "add r1, 0x0005");
    assert_eq!(Mul::decode(0x7a0b).to_text(), "mul r10, r11");
    assert_eq!(Mul::decode(0x7cff).to_text(), "mul r12, 0xffff");
    assert_eq!(Xor::decode(0x5000).to_text(), "xor r0, r0");
    assert_eq!(Shf::decode(0xe4d3).to_text(), "asl r4, 0x0003");
    assert_eq!(Shf::decode(0xe02f).to_text(), "ror r0, r15");
    assert_eq!(Str::decode(0xd1fd).to_text(), "str r1, &+0xfffa");
    assert_eq!(Str::decode(0xd203).to_text(), "str r2, &r3");
    assert_eq!(Str::decode(0xd540).to_text(), "push r5");
    assert_eq!(Ldr::decode(0xb782).to_text(), "ldr r7, *+0x0004");
    assert_eq!(Ldr::decode(0xbe40).to_text(), "pop r14");
    assert_eq!(Instruction::decode(0xc105).unwrap().to_text(), "add r1, r5");
}
