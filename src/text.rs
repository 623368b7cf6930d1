//! Disassembly: the fixed text form of each instruction.

use vstd::prelude::*;
use vstd::string::*;
use crate::add::Add;
use crate::inst::Instruction;
use crate::load::Ldr;
use crate::machine::Op2;
use crate::mul::Mul;
use crate::shf::{Shf, ShfMode};
use crate::store::{Str, StrMode};
use crate::xor::Xor;

verus! {

/// Relies on `String::from(char)`: a string of that one character.
#[verifier::external_body]
fn char_string(c: char) -> (r: String)
    ensures
        r@ == seq![c],
{
    String::from(c)
}

/// The digit for a value below sixteen.
pub open spec fn digit_char(d: u16) -> char {
    "0123456789abcdef"@[d as int]
}

fn digit(d: u16) -> (c: char)
    requires
        d < 16,
    ensures
        c == digit_char(d),
{
    proof {
        reveal_strlit("0123456789abcdef");
    }
    "0123456789abcdef".get_char(d as usize)
}

/// `r` and the register number in decimal.
pub open spec fn reg_text(r: u16) -> Seq<char> {
    if r < 10 {
        seq!['r', digit_char(r)]
    } else {
        seq!['r', '1', digit_char((r - 10) as u16)]
    }
}

/// `0x` and four lower-case hexadecimal digits.
pub open spec fn hex_text(v: u16) -> Seq<char> {
    seq![
        '0',
        'x',
        digit_char(v / 4096),
        digit_char((v / 256) % 16),
        digit_char((v / 16) % 16),
        digit_char(v % 16),
    ]
}

/// A second operand of an arithmetic, logic or shift instruction.
pub open spec fn op2_text(op: Op2) -> Seq<char> {
    match op {
        Op2::Reg(r) => reg_text(r),
        Op2::Imm(i) => hex_text(i),
    }
}

/// A memory operand: a register, or a byte offset with its sign shown.
pub open spec fn offset_text(op: Op2) -> Seq<char> {
    match op {
        Op2::Reg(r) => reg_text(r),
        Op2::Imm(i) => seq!['+'] + hex_text(i),
    }
}

fn push_char(s: &mut String, c: char)
    ensures
        final(s)@ == old(s)@.push(c),
{
    let t = char_string(c);
    s.append(t.as_str());
    assert(final(s)@ =~= old(s)@.push(c));
}

fn reg_string(r: u16) -> (s: String)
    requires
        r < 16,
    ensures
        s@ == reg_text(r),
{
    let mut s = char_string('r');
    if r < 10 {
        push_char(&mut s, digit(r));
    } else {
        push_char(&mut s, '1');
        push_char(&mut s, digit(r - 10));
    }
    assert(s@ =~= reg_text(r));
    s
}

fn hex_string(v: u16) -> (s: String)
    ensures
        s@ == hex_text(v),
{
    let mut s = char_string('0');
    push_char(&mut s, 'x');
    push_char(&mut s, digit(v / 4096));
    push_char(&mut s, digit((v / 256) % 16));
    push_char(&mut s, digit((v / 16) % 16));
    push_char(&mut s, digit(v % 16));
    assert(s@ =~= hex_text(v));
    s
}

fn op2_string(op: Op2) -> (s: String)
    requires
        op.wf(),
    ensures
        s@ == op2_text(op),
{
    match op {
        Op2::Reg(r) => reg_string(r),
        Op2::Imm(i) => hex_string(i),
    }
}

fn offset_string(op: Op2) -> (s: String)
    requires
        op.wf(),
    ensures
        s@ == offset_text(op),
{
    match op {
        Op2::Reg(r) => reg_string(r),
        Op2::Imm(i) => {
            let mut s = char_string('+');
            let h = hex_string(i);
            s.append(h.as_str());
            s
        },
    }
}

/// `<mnemonic> r<N>, <operand>`.
pub open spec fn binary_text(m: Seq<char>, op1: u16, op: Seq<char>) -> Seq<char> {
    m + seq![' '] + reg_text(op1) + ", "@ + op
}

fn binary_string(m: &str, op1: u16, op: &str) -> (s: String)
    requires
        op1 < 16,
    ensures
        s@ == binary_text(m@, op1, op@),
{
    let mut s = m.to_owned();
    push_char(&mut s, ' ');
    let r = reg_string(op1);
    s.append(r.as_str());
    s.append(", ");
    s.append(op);
    s
}

/// `<mnemonic> r<N>`.
pub open spec fn unary_text(m: Seq<char>, op1: u16) -> Seq<char> {
    m + seq![' '] + reg_text(op1)
}

fn unary_string(m: &str, op1: u16) -> (s: String)
    requires
        op1 < 16,
    ensures
        s@ == unary_text(m@, op1),
{
    let mut s = m.to_owned();
    push_char(&mut s, ' ');
    let r = reg_string(op1);
    s.append(r.as_str());
    s
}

impl Add {
    /// The instruction's text.
    pub open spec fn text(self) -> Seq<char> {
        binary_text("add"@, self.op1, op2_text(self.op2))
    }

    /// `add r<N>, <operand>`.
    pub fn to_text(&self) -> (s: String)
        requires
            self.wf(),
        ensures
            s@ == self.text(),
    {
        let op = op2_string(self.op2);
        binary_string("add", self.op1, op.as_str())
    }
}

impl Mul {
    /// The instruction's text.
    pub open spec fn text(self) -> Seq<char> {
        binary_text("mul"@, self.op1, op2_text(self.op2))
    }

    /// `mul r<N>, <operand>`.
    pub fn to_text(&self) -> (s: String)
        requires
            self.wf(),
        ensures
            s@ == self.text(),
    {
        let op = op2_string(self.op2);
        binary_string("mul", self.op1, op.as_str())
    }
}

impl Xor {
    /// The instruction's text.
    pub open spec fn text(self) -> Seq<char> {
        binary_text("xor"@, self.op1, op2_text(self.op2))
    }

    /// `xor r<N>, <operand>`.
    pub fn to_text(&self) -> (s: String)
        requires
            self.wf(),
        ensures
            s@ == self.text(),
    {
        let op = op2_string(self.op2);
        binary_string("xor", self.op1, op.as_str())
    }
}

/// The mnemonic of a shift or rotation.
pub open spec fn mode_text(m: ShfMode) -> Seq<char> {
    match m {
        ShfMode::Lsr => "lsr"@,
        ShfMode::Asr => "asr"@,
        ShfMode::Ror => "ror"@,
        ShfMode::Lsl => "lsl"@,
        ShfMode::Asl => "asl"@,
        ShfMode::Rol => "rol"@,
    }
}

impl Shf {
    /// The instruction's text.
    pub open spec fn text(self) -> Seq<char> {
        binary_text(mode_text(self.mode), self.op1, op2_text(self.op2))
    }

    /// `<lsr|asr|ror|lsl|asl|rol> r<N>, <operand>`.
    pub fn to_text(&self) -> (s: String)
        requires
            self.wf(),
        ensures
            s@ == self.text(),
    {
        let op = op2_string(self.op2);
        let m: &str = match self.mode {
            ShfMode::Lsr => "lsr",
            ShfMode::Asr => "asr",
            ShfMode::Ror => "ror",
            ShfMode::Lsl => "lsl",
            ShfMode::Asl => "asl",
            ShfMode::Rol => "rol",
        };
        binary_string(m, self.op1, op.as_str())
    }
}

impl Str {
    /// The instruction's text.
    pub open spec fn text(self) -> Seq<char> {
        match self.mode {
            StrMode::Str => binary_text("str"@, self.op1, seq!['&'] + offset_text(self.op2)),
            StrMode::Push => unary_text("push"@, self.op1),
        }
    }

    /// `str r<N>, &<operand>` or `push r<N>`.
    pub fn to_text(&self) -> (s: String)
        requires
            self.wf(),
        ensures
            s@ == self.text(),
    {
        match self.mode {
            StrMode::Str => {
                let mut op = char_string('&');
                let o = offset_string(self.op2);
                op.append(o.as_str());
                binary_string("str", self.op1, op.as_str())
            },
            StrMode::Push => unary_string("push", self.op1),
        }
    }
}

impl Ldr {
    /// The instruction's text.
    pub open spec fn text(self) -> Seq<char> {
        if self.pop {
            unary_text("pop"@, self.op1)
        } else {
            binary_text("ldr"@, self.op1, seq!['*'] + offset_text(self.op2))
        }
    }

    /// `ldr r<N>, *<operand>` or `pop r<N>`.
    pub fn to_text(&self) -> (s: String)
        requires
            self.wf(),
        ensures
            s@ == self.text(),
    {
        if self.pop {
            unary_string("pop", self.op1)
        } else {
            let mut op = char_string('*');
            let o = offset_string(self.op2);
            op.append(o.as_str());
            binary_string("ldr", self.op1, op.as_str())
        }
    }
}

impl Instruction {
    pub open spec fn text(self) -> Seq<char> {
        match self {
            Instruction::Add(i) => i.text(),
            Instruction::Mul(i) => i.text(),
            Instruction::Xor(i) => i.text(),
            Instruction::Shf(i) => i.text(),
            Instruction::Str(i) => i.text(),
            Instruction::Ldr(i) => i.text(),
        }
    }

    /// The text of the instruction in its family's form.
    pub fn to_text(&self) -> (s: String)
        requires
            self.wf(),
        ensures
            s@ == self.text(),
    {
        match self {
            Instruction::Add(i) => i.to_text(),
            Instruction::Mul(i) => i.to_text(),
            Instruction::Xor(i) => i.to_text(),
            Instruction::Shf(i) => i.to_text(),
            Instruction::Str(i) => i.to_text(),
            Instruction::Ldr(i) => i.to_text(),
        }
    }
}

} // verus!
