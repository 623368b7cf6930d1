//! Exclusive or (opcode `0101`).

use vstd::prelude::*;
use vstd::arithmetic::power2::lemma2_to64;
use crate::machine::{
    FLAG_CARRY, FLAG_NEGATIVE, FLAG_OVERFLOW, FLAG_ZERO, Op2, Processor, lemma_flag_bits, with_flags,
};
use crate::word::{sign_extend, sign_extended, lemma_sign_extend_value};

verus! {

/// `op1 ^= op2`, with a register or a 7-bit sign-extended immediate.
#[derive(Clone, Copy, Debug, PartialEq, Eq, Structural)]
pub struct Xor {
    pub op1: u16,
    pub op2: Op2,
}

pub open spec fn is_xor_word(w: u16) -> bool {
    w >> 12 == 0x5
}

pub open spec fn xor_decoded(w: u16) -> Xor {
    Xor {
        op1: (w >> 8) & 0xf,
        op2: if w & 0x80 == 0 {
            Op2::Reg(w & 0xf)
        } else {
            Op2::Imm(sign_extended((w & 0x7f) as int, 7) as u16)
        },
    }
}

/// The word with the bits that the register form ignores cleared.
pub open spec fn xor_canonical(w: u16) -> u16 {
    if w & 0x80 == 0 { w & 0xff8f } else { w }
}

impl Xor {
    pub open spec fn wf(self) -> bool {
        self.op1 < 16 && self.op2.wf()
    }

    pub open spec fn encoded(self) -> u16 {
        0x5000u16 | ((self.op1 << 8) & 0x0f00) | (match self.op2 {
            Op2::Reg(r) => r,
            Op2::Imm(i) => 0x80 | i,
        } & 0xff)
    }

    /// Decodes a word of this family.
    pub fn decode(word: u16) -> (r: Xor)
        requires
            is_xor_word(word),
        ensures
            r == xor_decoded(word),
            r.wf(),
    {
        proof {
            lemma2_to64();
            assert(word & 0x7f < 128) by (bit_vector);
            lemma_sign_extend_value(word & 0x7f, 7);
            assert((word >> 8) & 0xf < 16) by (bit_vector);
            assert(word & 0xf < 16) by (bit_vector);
        }
        Xor {
            op1: (word >> 8) & 0xf,
            op2: if word & 0x80 == 0 {
                Op2::Reg(word & 0xf)
            } else {
                Op2::Imm(sign_extend(word & 0x7f, 7))
            },
        }
    }

    /// Encodes the instruction; fields are masked to their bit positions.
    pub fn encode(&self) -> (r: u16)
        ensures
            r == self.encoded(),
    {
        let low: u16 = match self.op2 {
            Op2::Reg(r) => r,
            Op2::Imm(i) => 0x80 | i,
        };
        0x5000u16 | ((self.op1 << 8) & 0x0f00) | (low & 0xff)
    }

    /// The processor `q` that executing the instruction leaves behind in `p`.
    pub open spec fn executed(self, p: Processor, q: Processor) -> bool {
        &&& q.wf()
        &&& q.regs@ == p.regs@.update(
            self.op1 as int,
            p.regs@[self.op1 as int] ^ p.operand_value(self.op2)
        )
        &&& q.sr == xor_flags(
            p.sr,
            p.regs@[self.op1 as int] ^ p.operand_value(self.op2)
        )
        &&& q.ram == p.ram
    }

    /// Exclusive-ors register `op1` with the operand; sets the zero and
    /// negative flags from the result and clears overflow and carry.
    pub fn execute(&self, proc: &mut Processor)
        requires
            old(proc).wf(),
            self.wf(),
        ensures
            self.executed(*old(proc), *final(proc)),
    {
        let x = proc.regs[self.op1 as usize];
        let v = proc.operand(self.op2);
        let res = x ^ v;
        proc.regs.set(self.op1 as usize, res);
        proc.set_flags(res == 0, res & 0x8000 != 0, false, false);
    }
}

/// The status register after an exclusive or that produced `res`.
pub open spec fn xor_flags(sr: u16, res: u16) -> u16 {
    with_flags(sr, res == 0, res & 0x8000 != 0, false, false)
}

/// Decoding then encoding a word of this family gives the word back, less the
/// bits that the register form ignores.
pub proof fn lemma_xor_round_trip(w: u16)
    requires
        is_xor_word(w),
    ensures
        xor_decoded(w).encoded() == xor_canonical(w),
{
    let op1 = (w >> 8) & 0xf;
    if w & 0x80 == 0 {
        assert(0x5000u16 | ((op1 << 8) & 0x0f00) | ((w & 0xf) & 0xff) == w & 0xff8f) by (bit_vector)
            requires
                w >> 12 == 0x5,
                w & 0x80 == 0,
                op1 == (w >> 8) & 0xf,
        ;
    } else {
        lemma2_to64();
        assert(w & 0x7f < 128) by (bit_vector);
        lemma_sign_extend_value(w & 0x7f, 7);
        let imm = sign_extended((w & 0x7f) as int, 7) as u16;
        assert(imm == w & 0x7f || imm == (w & 0x7f) + 0xff80);
        assert(0x5000u16 | ((op1 << 8) & 0x0f00) | ((0x80 | imm) & 0xff) == w) by (bit_vector)
            requires
                w >> 12 == 0x5,
                w & 0x80 != 0,
                op1 == (w >> 8) & 0xf,
                imm == w & 0x7f || imm == (w & 0x7f) + 0xff80,
        ;
    }
}

/// The flags an exclusive or leaves: zero exactly when the result is zero,
/// negative exactly when its top bit is set, overflow and carry clear.
pub proof fn lemma_xor_flags(sr: u16, res: u16)
    ensures
        (xor_flags(sr, res) & FLAG_ZERO != 0) == (res == 0),
        (xor_flags(sr, res) & FLAG_NEGATIVE != 0) == (res & 0x8000 != 0),
        xor_flags(sr, res) & FLAG_OVERFLOW == 0,
        xor_flags(sr, res) & FLAG_CARRY == 0,
{
    lemma_flag_bits(sr, res == 0, res & 0x8000 != 0, false, false);
}

} // verus!
