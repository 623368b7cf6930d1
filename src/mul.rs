//! Multiplication (opcode `0111`).

use vstd::prelude::*;
use vstd::arithmetic::power2::lemma2_to64;
use crate::machine::{Op2, Processor};
use crate::word::{sign_extend, sign_extended, lemma_sign_extend_value};

verus! {

/// `op1 *= op2`, with a register or a 7-bit sign-extended immediate.
#[derive(Clone, Copy, Debug, PartialEq, Eq, Structural)]
pub struct Mul {
    pub op1: u16,
    pub op2: Op2,
}

pub open spec fn is_mul_word(w: u16) -> bool {
    w >> 12 == 0x7
}

pub open spec fn mul_decoded(w: u16) -> Mul {
    Mul {
        op1: (w >> 8) & 0xf,
        op2: if w & 0x80 == 0 {
            Op2::Reg(w & 0xf)
        } else {
            Op2::Imm(sign_extended((w & 0x7f) as int, 7) as u16)
        },
    }
}

/// The word with the bits that the register form ignores cleared.
pub open spec fn mul_canonical(w: u16) -> u16 {
    if w & 0x80 == 0 { w & 0xff8f } else { w }
}

impl Mul {
    pub open spec fn wf(self) -> bool {
        self.op1 < 16 && self.op2.wf()
    }

    pub open spec fn encoded(self) -> u16 {
        0x7000u16 | ((self.op1 << 8) & 0x0f00) | (match self.op2 {
            Op2::Reg(r) => r,
            Op2::Imm(i) => 0x80 | i,
        } & 0xff)
    }

    /// Decodes a word of this family.
    pub fn decode(word: u16) -> (r: Mul)
        requires
            is_mul_word(word),
        ensures
            r == mul_decoded(word),
            r.wf(),
    {
        proof {
            lemma2_to64();
            assert(word & 0x7f < 128) by (bit_vector);
            lemma_sign_extend_value(word & 0x7f, 7);
            assert((word >> 8) & 0xf < 16) by (bit_vector);
            assert(word & 0xf < 16) by (bit_vector);
        }
        Mul {
            op1: (word >> 8) & 0xf,
            op2: if word & 0x80 == 0 {
                Op2::Reg(word & 0xf)
            } else {
                Op2::Imm(sign_extend(word & 0x7f, 7))
            },
        }
    }

    /// Encodes the instruction; fields are masked to their bit positions.
    pub fn encode(&self) -> (r: u16)
        ensures
            r == self.encoded(),
    {
        let low: u16 = match self.op2 {
            Op2::Reg(r) => r,
            Op2::Imm(i) => 0x80 | i,
        };
        0x7000u16 | ((self.op1 << 8) & 0x0f00) | (low & 0xff)
    }

    /// The processor `q` that executing the instruction leaves behind in `p`.
    pub open spec fn executed(self, p: Processor, q: Processor) -> bool {
        &&& q.wf()
        &&& q.regs@ == p.regs@.update(
            self.op1 as int,
            ((p.regs@[self.op1 as int] * p.operand_value(self.op2)) % 0x10000) as u16
        )
        &&& q.sr == p.sr
        &&& q.ram == p.ram
    }

    /// Multiplies register `op1` by the operand, wrapping; flags are kept.
    pub fn execute(&self, proc: &mut Processor)
        requires
            old(proc).wf(),
            self.wf(),
        ensures
            self.executed(*old(proc), *final(proc)),
    {
        let x = proc.regs[self.op1 as usize];
        let v = proc.operand(self.op2);
        proof {
            assert(x as u32 * v as u32 <= 0xffff * 0xffff) by (nonlinear_arith);
        }
        let res = ((x as u32 * v as u32) % 0x10000) as u16;
        proc.regs.set(self.op1 as usize, res);
    }
}

/// Decoding then encoding a word of this family gives the word back, less the
/// bits that the register form ignores.
pub proof fn lemma_mul_round_trip(w: u16)
    requires
        is_mul_word(w),
    ensures
        mul_decoded(w).encoded() == mul_canonical(w),
{
    let op1 = (w >> 8) & 0xf;
    if w & 0x80 == 0 {
        assert(0x7000u16 | ((op1 << 8) & 0x0f00) | ((w & 0xf) & 0xff) == w & 0xff8f) by (bit_vector)
            requires
                w >> 12 == 0x7,
                w & 0x80 == 0,
                op1 == (w >> 8) & 0xf,
        ;
    } else {
        lemma2_to64();
        assert(w & 0x7f < 128) by (bit_vector);
        lemma_sign_extend_value(w & 0x7f, 7);
        let imm = sign_extended((w & 0x7f) as int, 7) as u16;
        assert(imm == w & 0x7f || imm == (w & 0x7f) + 0xff80);
        assert(0x7000u16 | ((op1 << 8) & 0x0f00) | ((0x80 | imm) & 0xff) == w) by (bit_vector)
            requires
                w >> 12 == 0x7,
                w & 0x80 != 0,
                op1 == (w >> 8) & 0xf,
                imm == w & 0x7f || imm == (w & 0x7f) + 0xff80,
        ;
    }
}

} // verus!
