use isa16::add::Add;
use isa16::inst::{step, Fault, Instruction};
use isa16::load::Ldr;
use isa16::machine::{Op2, Processor, Ram, FLAG_CARRY, FLAG_NEGATIVE, FLAG_OVERFLOW, FLAG_ZERO};
use isa16::mul::Mul;
use isa16::shf::{Shf, ShfMode};
use isa16::store::{Str, StrMode};
use isa16::xor::Xor;

fn shift(mode: ShfMode, x: u16, n: u16) -> (u16, u16) {
    let mut p = Processor::new();
    p.regs[1] = x;
    p.sr = 0xfff0;
    Shf { op1: 1, op2: Op2::Imm(n), mode }.execute(&mut p);
    (p.regs[1], p.sr)
}

#[test]
fn logical_shifts_do_not_propagate_sign() {
    assert_eq!(shift(ShfMode::Lsr, 0x8000, 1).0, 0x4000);
    assert_eq!(shift(ShfMode::Lsl, 0x4001, 1).0, 0x8002);
    assert_eq!(shift(ShfMode::Lsr, 0xffff, 15).0, 0x0001);
}

#[test]
fn arithmetic_shifts_are_signed() {
    assert_eq!(shift(ShfMode::Asr, 0x8000, 1).0, 0xc000);
    assert_eq!(shift(ShfMode::Asr, 0x8000, 15).0, 0xffff);
    assert_eq!(shift(ShfMode::Asr, 0x4000, 2).0, 0x1000);
    assert_eq!(shift(ShfMode::Asl, 0xc001, 1).0, 0x8002);
}

#[test]
fn rotations() {
    assert_eq!(shift(ShfMode::Ror, 0x0001, 1), (0x8000, 0xfff0 | FLAG_NEGATIVE | FLAG_OVERFLOW));
    assert_eq!(shift(ShfMode::Rol, 0x8001, 4), (0x0018, 0xfff0));
    assert_eq!(shift(ShfMode::Ror, 0x1234, 16).0, 0x1234);
    assert_eq!(shift(ShfMode::Rol, 0x1234, 20).0, 0x2341);
}

#[test]
fn wide_shifts_give_zero() {
    for mode in [ShfMode::Lsr, ShfMode::Asr, ShfMode::Lsl, ShfMode::Asl] {
        let mut p = Processor::new();
        p.regs[1] = 0xffff;
        p.regs[2] = 16;
        Shf { op1: 1, op2: Op2::Reg(2), mode }.execute(&mut p);
        assert_eq!(p.regs[1], 0);
        assert_eq!(p.sr & FLAG_ZERO, FLAG_ZERO);
    }
}

#[test]
fn shift_flags() {
    let (r, sr) = shift(ShfMode::Lsr, 0x0001, 1);
    assert_eq!(r, 0);
    assert_eq!(sr, 0xfff0 | FLAG_ZERO | FLAG_CARRY | FLAG_OVERFLOW);
    let (r, sr) = shift(ShfMode::Lsl, 0x4000, 1);
    assert_eq!(r, 0x8000);
    assert_eq!(sr, 0xfff0 | FLAG_NEGATIVE | FLAG_OVERFLOW);
    let (_, sr) = shift(ShfMode::Lsl, 0xc000, 1);
    assert_eq!(sr, 0xfff0 | FLAG_NEGATIVE | FLAG_CARRY);
}

#[test]
fn xor_flags() {
    let mut p = Processor::new();
    p.regs[3] = 0x00ff;
    p.sr = 0x00ff;
    Xor { op1: 3, op2: Op2::Imm(0x00ff) }.execute(&mut p);
    assert_eq!(p.regs[3], 0);
    assert_eq!(p.sr, 0x00f0 | FLAG_ZERO);
    Xor::decode(0x53ff).execute(&mut p);
    assert_eq!(p.regs[3], 0xffff);
    assert_eq!(p.sr, 0x00f0 | FLAG_NEGATIVE);
}

#[test]
fn add_and_mul_wrap() {
    let mut p = Processor::new();
    p.regs[0] = 0xffff;
    p.sr = 0x1234;
    Add { op1: 0, op2: Op2::Imm(2) }.execute(&mut p);
    assert_eq!(p.regs[0], 1);
    p.regs[1] = 0x8001;
    Mul::decode(0x71ff).execute(&mut p);
    assert_eq!(p.regs[1], 0x7fff);
    p.regs[2] = 3;
    Mul { op1: 1, op2: Op2::Reg(2) }.execute(&mut p);
    assert_eq!(p.regs[1], 0x7ffd);
    assert_eq!(p.sr, 0x1234);
}

#[test]
fn ram_words_are_little_endian() {
    let mut ram = Ram::default();
    ram.store_word(0x10, 0xbeef);
    assert_eq!(ram.load_word(0x10), 0xbeef);
    assert_eq!(ram.load_word(0x12), 0);
    ram.store_word(0xfffe, 0x0102);
    assert_eq!(ram.load_word(0xfffe), 0x0102);
    assert_eq!(ram.load_word(0xfffc), 0);
}

#[test]
fn store_load_push_pop() {
    let mut p = Processor::new();
    p.regs[13] = 0x100;
    p.regs[1] = 0xabcd;
    Str { op1: 1, op2: Op2::Reg(0), mode: StrMode::Push }.execute(&mut p);
    assert_eq!(p.regs[13], 0xfe);
    assert_eq!(p.ram.load_word(0xfe), 0xabcd);
    Ldr { op1: 2, op2: Op2::Reg(0), pop: true }.execute(&mut p);
    assert_eq!(p.regs[2], 0xabcd);
    assert_eq!(p.regs[13], 0x100);
    p.regs[4] = 0x40;
    Str { op1: 2, op2: Op2::Reg(4), mode: StrMode::Str }.execute(&mut p);
    assert_eq!(p.ram.load_word(0x40), 0xabcd);
    p.regs[15] = 0x44;
    Ldr::decode(0xb5fe).execute(&mut p);
    assert_eq!(p.regs[5], 0xabcd);
}

#[test]
fn step_runs_and_faults() {
    let mut p = Processor::new();
    p.ram.store_word(0, 0xc185);
    p.ram.store_word(2, 0xe1c2);
    p.ram.store_word(4, 0x0000);
    assert_eq!(step(&mut p), Ok(()));
    assert_eq!(p.regs[1], 5);
    assert_eq!(p.regs[15], 2);
    assert_eq!(step(&mut p), Ok(()));
    assert_eq!(p.regs[1], 20);
    assert_eq!(p.regs[15], 4);
    assert_eq!(step(&mut p), Err(Fault::BadWord(0)));
    assert_eq!(p.regs[15], 4);
    p.regs[15] = 3;
    assert_eq!(step(&mut p), Err(Fault::Misaligned(3)));
    p.ram.store_word(6, 0xb102);
    p.regs[15] = 6;
    p.regs[2] = 9;
    assert_eq!(step(&mut p), Err(Fault::Misaligned(9)));
    p.ram.store_word(8, 0xcf82);
    p.regs[15] = 8;
    assert_eq!(step(&mut p), Ok(()));
    assert_eq!(p.regs[15], 10);
    assert!(Instruction::decode(0xe030).is_none());
    assert!(Instruction::decode(0xe070).is_none());
}
