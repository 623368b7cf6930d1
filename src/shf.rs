//! Shift and rotate instructions (opcode `1110`).

use vstd::prelude::*;
use crate::machine::{
    FLAG_CARRY, FLAG_NEGATIVE, FLAG_OVERFLOW, FLAG_ZERO, Op2, Processor, lemma_flag_bits, with_flags,
};

verus! {

/// The six shift and rotate operations, selected by bits 4..=6 of the word.
#[derive(Clone, Copy, Debug, PartialEq, Eq, Structural)]
pub enum ShfMode {
    Lsr,
    Asr,
    Ror,
    Lsl,
    Asl,
    Rol,
}

/// The mode bit patterns that select an operation: all but `011` and `111`.
pub open spec fn valid_mode_bits(m: u16) -> bool {
    m == 0 || m == 1 || m == 2 || m == 4 || m == 5 || m == 6
}

/// The operation that a valid three-bit pattern selects.
pub open spec fn mode_of(m: u16) -> ShfMode {
    if m == 0 {
        ShfMode::Lsr
    } else if m == 1 {
        ShfMode::Asr
    } else if m == 2 {
        ShfMode::Ror
    } else if m == 4 {
        ShfMode::Lsl
    } else if m == 5 {
        ShfMode::Asl
    } else {
        ShfMode::Rol
    }
}

impl ShfMode {
    pub open spec fn code(self) -> u16 {
        match self {
            ShfMode::Lsr => 0,
            ShfMode::Asr => 1,
            ShfMode::Ror => 2,
            ShfMode::Lsl => 4,
            ShfMode::Asl => 5,
            ShfMode::Rol => 6,
        }
    }

    /// The three-bit pattern of this operation.
    pub fn bits(self) -> (r: u16)
        ensures
            r == self.code(),
    {
        match self {
            ShfMode::Lsr => 0,
            ShfMode::Asr => 1,
            ShfMode::Ror => 2,
            ShfMode::Lsl => 4,
            ShfMode::Asl => 5,
            ShfMode::Rol => 6,
        }
    }
}

/// `op1 = op1 <mode> op2`, with the amount in a register or a 4-bit immediate.
#[derive(Clone, Copy, Debug, PartialEq, Eq, Structural)]
pub struct Shf {
    pub op1: u16,
    pub op2: Op2,
    pub mode: ShfMode,
}

/// Words of this family: opcode `1110` and a valid mode pattern.
pub open spec fn is_shf_word(w: u16) -> bool {
    w >> 12 == 0xe && valid_mode_bits((w >> 4) & 7)
}

pub open spec fn shf_decoded(w: u16) -> Shf {
    Shf {
        op1: (w >> 8) & 0xf,
        op2: if w & 0x80 == 0 { Op2::Reg(w & 0xf) } else { Op2::Imm(w & 0xf) },
        mode: mode_of((w >> 4) & 7),
    }
}

/// Arithmetic shift right by less than a word: the sign bit is replicated.
pub open spec fn asr(x: u16, n: u16) -> u16 {
    if x & 0x8000 == 0 { x >> n } else { !((!x) >> n) }
}

/// Rotation right by `k` places, `k < 16`.
pub open spec fn rotr(x: u16, k: u16) -> u16 {
    if k == 0 { x } else { (x >> k) | (x << (16 - k) as u16) }
}

/// Rotation left by `k` places, `k < 16`.
pub open spec fn rotl(x: u16, k: u16) -> u16 {
    if k == 0 { x } else { (x << k) | (x >> (16 - k) as u16) }
}

/// The result of shifting or rotating `x` by `n`; shifts by 16 or more give zero,
/// rotations go by `n` modulo 16.
pub open spec fn shift_result(mode: ShfMode, x: u16, n: u16) -> u16 {
    match mode {
        ShfMode::Lsr => if n >= 16 { 0 } else { x >> n },
        ShfMode::Asr => if n >= 16 { 0 } else { asr(x, n) },
        ShfMode::Lsl | ShfMode::Asl => if n >= 16 { 0 } else { x << n },
        ShfMode::Ror => rotr(x, n % 16),
        ShfMode::Rol => rotl(x, n % 16),
    }
}

/// The carry out: the bit at the end shifted towards, none for rotations.
pub open spec fn shift_carry(mode: ShfMode, x: u16) -> bool {
    match mode {
        ShfMode::Lsr | ShfMode::Asr => x & 1 != 0,
        ShfMode::Lsl | ShfMode::Asl => x & 0x8000 != 0,
        ShfMode::Ror | ShfMode::Rol => false,
    }
}

/// The status register after a shift of `x` that produced `res`.
pub open spec fn shift_flags(sr: u16, mode: ShfMode, x: u16, res: u16) -> u16 {
    let negative = res & 0x8000 != 0;
    let carry = shift_carry(mode, x);
    with_flags(sr, res == 0, negative, carry != negative, carry)
}

fn shift_value(mode: ShfMode, x: u16, n: u16) -> (r: u16)
    ensures
        r == shift_result(mode, x, n),
{
    match mode {
        ShfMode::Lsr => if n >= 16 { 0 } else { x >> n },
        ShfMode::Asr => {
            if n >= 16 {
                0
            } else if x & 0x8000 == 0 {
                x >> n
            } else {
                !((!x) >> n)
            }
        },
        ShfMode::Lsl | ShfMode::Asl => if n >= 16 { 0 } else { x << n },
        ShfMode::Ror => {
            let k = n % 16;
            if k == 0 { x } else { (x >> k) | (x << (16 - k)) }
        },
        ShfMode::Rol => {
            let k = n % 16;
            if k == 0 { x } else { (x << k) | (x >> (16 - k)) }
        },
    }
}

impl Shf {
    pub open spec fn wf(self) -> bool {
        self.op1 < 16 && self.op2.wf()
    }

    pub open spec fn encoded(self) -> u16 {
        0xe000u16 | ((self.op1 << 8) & 0x0f00) | ((self.mode.code() << 4) & 0x0070) | (match self.op2 {
            Op2::Reg(r) => r,
            Op2::Imm(i) => 0x80 | i,
        } & 0xff)
    }

    /// Decodes a word of this family.
    pub fn decode(word: u16) -> (r: Shf)
        requires
            is_shf_word(word),
        ensures
            r == shf_decoded(word),
            r.wf(),
    {
        let m = (word >> 4) & 7;
        let mode = if m == 0 {
            ShfMode::Lsr
        } else if m == 1 {
            ShfMode::Asr
        } else if m == 2 {
            ShfMode::Ror
        } else if m == 4 {
            ShfMode::Lsl
        } else if m == 5 {
            ShfMode::Asl
        } else {
            ShfMode::Rol
        };
        proof {
            assert((word >> 8) & 0xf < 16) by (bit_vector);
            assert(word & 0xf < 16) by (bit_vector);
        }
        Shf {
            op1: (word >> 8) & 0xf,
            op2: if word & 0x80 == 0 { Op2::Reg(word & 0xf) } else { Op2::Imm(word & 0xf) },
            mode,
        }
    }

    /// Encodes the instruction; fields are masked to their bit positions.
    pub fn encode(&self) -> (r: u16)
        ensures
            r == self.encoded(),
    {
        let low: u16 = match self.op2 {
            Op2::Reg(r) => r,
            Op2::Imm(i) => 0x80 | i,
        };
        0xe000u16 | ((self.op1 << 8) & 0x0f00) | ((self.mode.bits() << 4) & 0x0070) | (low & 0xff)
    }

    /// The processor `q` that executing the instruction leaves behind in `p`.
    pub open spec fn executed(self, p: Processor, q: Processor) -> bool {
        &&& q.wf()
        &&& q.regs@ == p.regs@.update(
            self.op1 as int,
            shift_result(self.mode, p.regs@[self.op1 as int], p.operand_value(self.op2))
        )
        &&& q.sr == shift_flags(
            p.sr,
            self.mode,
            p.regs@[self.op1 as int],
            shift_result(self.mode, p.regs@[self.op1 as int], p.operand_value(self.op2))
        )
        &&& q.ram == p.ram
    }

    /// Shifts or rotates register `op1` and sets all four flags from the result.
    pub fn execute(&self, proc: &mut Processor)
        requires
            old(proc).wf(),
            self.wf(),
        ensures
            self.executed(*old(proc), *final(proc)),
    {
        let x = proc.regs[self.op1 as usize];
        let n = proc.operand(self.op2);
        let res = shift_value(self.mode, x, n);
        let carry = match self.mode {
            ShfMode::Lsr | ShfMode::Asr => x & 1 != 0,
            ShfMode::Lsl | ShfMode::Asl => x & 0x8000 != 0,
            ShfMode::Ror | ShfMode::Rol => false,
        };
        let negative = res & 0x8000 != 0;
        proc.regs.set(self.op1 as usize, res);
        proc.set_flags(res == 0, negative, carry != negative, carry);
    }
}

/// Decoding then encoding a word of this family gives the word back.
pub proof fn lemma_shf_round_trip(w: u16)
    requires
        is_shf_word(w),
    ensures
        shf_decoded(w).encoded() == w,
{
    let m = (w >> 4) & 7;
    assert(mode_of(m).code() == m);
    let op1 = (w >> 8) & 0xf;
    if w & 0x80 == 0 {
        assert(0xe000u16 | ((op1 << 8) & 0x0f00) | ((m << 4) & 0x0070) | ((w & 0xf) & 0xff) == w)
            by (bit_vector)
            requires
                w >> 12 == 0xe,
                w & 0x80 == 0,
                op1 == (w >> 8) & 0xf,
                m == (w >> 4) & 7,
        ;
    } else {
        assert(0xe000u16 | ((op1 << 8) & 0x0f00) | ((m << 4) & 0x0070) | ((0x80 | (w & 0xf)) & 0xff) == w)
            by (bit_vector)
            requires
                w >> 12 == 0xe,
                w & 0x80 != 0,
                op1 == (w >> 8) & 0xf,
                m == (w >> 4) & 7,
        ;
    }
}

/// Logical shifts never carry the sign in: a right shift by at least one
/// place clears the top bit, a left shift by at least one place clears the
/// bottom bit. Arithmetic right shifts keep the sign bit. Shifts by the word
/// width or more give zero. Rotations never produce a carry out.
pub proof fn lemma_shift_semantics(sr: u16, x: u16, n: u16)
    ensures
        1 <= n < 16 ==> shift_result(ShfMode::Lsr, x, n) & 0x8000 == 0,
        1 <= n < 16 ==> shift_result(ShfMode::Lsl, x, n) & 1 == 0,
        n < 16 ==> shift_result(ShfMode::Asr, x, n) & 0x8000 == x & 0x8000,
        n < 16 ==> shift_result(ShfMode::Asl, x, n) == shift_result(ShfMode::Lsl, x, n),
        n >= 16 ==> shift_result(ShfMode::Lsr, x, n) == 0 && shift_result(ShfMode::Lsl, x, n) == 0
            && shift_result(ShfMode::Asr, x, n) == 0 && shift_result(ShfMode::Asl, x, n) == 0,
        !shift_carry(ShfMode::Ror, x) && !shift_carry(ShfMode::Rol, x),
{
    if 1 <= n < 16 {
        assert((x >> n) & 0x8000 == 0) by (bit_vector)
            requires
                1 <= n < 16,
        ;
        assert((x << n) & 1 == 0) by (bit_vector)
            requires
                1 <= n < 16,
        ;
    }
    if n < 16 {
        assert(asr(x, n) & 0x8000 == x & 0x8000) by (bit_vector)
            requires
                n < 16,
        ;
    }
}

/// The flags a shift or rotation leaves: zero exactly when the result is
/// zero, negative exactly when its top bit is set, carry from the carry out,
/// overflow as carry out differing from negative. A rotation never sets the
/// carry, and sets overflow only together with negative.
pub proof fn lemma_shift_flags(sr: u16, mode: ShfMode, x: u16, res: u16)
    ensures
        (shift_flags(sr, mode, x, res) & FLAG_ZERO != 0) == (res == 0),
        (shift_flags(sr, mode, x, res) & FLAG_NEGATIVE != 0) == (res & 0x8000 != 0),
        (shift_flags(sr, mode, x, res) & FLAG_CARRY != 0) == shift_carry(mode, x),
        (shift_flags(sr, mode, x, res) & FLAG_OVERFLOW != 0) == (shift_carry(mode, x) != (res & 0x8000
            != 0)),
        (mode == ShfMode::Ror || mode == ShfMode::Rol) ==> shift_flags(sr, mode, x, res) & FLAG_CARRY == 0,
        (mode == ShfMode::Ror || mode == ShfMode::Rol) && res & 0x8000 == 0 ==> shift_flags(sr, mode, x, res)
            & FLAG_OVERFLOW == 0,
{
    let negative = res & 0x8000 != 0;
    let carry = shift_carry(mode, x);
    lemma_flag_bits(sr, res == 0, negative, carry != negative, carry);
}

} // verus!
