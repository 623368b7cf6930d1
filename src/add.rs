//! Addition (opcode `1100`).

use vstd::prelude::*;
use crate::machine::{Op2, Processor};

verus! {

/// `op1 += op2`, with a register or a 7-bit unsigned immediate.
#[derive(Clone, Copy, Debug, PartialEq, Eq, Structural)]
pub struct Add {
    pub op1: u16,
    pub op2: Op2,
}

pub open spec fn is_add_word(w: u16) -> bool {
    w >> 12 == 0xc
}

pub open spec fn add_decoded(w: u16) -> Add {
    Add {
        op1: (w >> 8) & 0xf,
        op2: if w & 0x80 == 0 { Op2::Reg(w & 0xf) } else { Op2::Imm(w & 0x7f) },
    }
}

/// The word with the bits that the register form ignores cleared.
pub open spec fn add_canonical(w: u16) -> u16 {
    if w & 0x80 == 0 { w & 0xff8f } else { w }
}

impl Add {
    pub open spec fn wf(self) -> bool {
        self.op1 < 16 && self.op2.wf()
    }

    pub open spec fn encoded(self) -> u16 {
        0xc000u16 | ((self.op1 << 8) & 0x0f00) | (match self.op2 {
            Op2::Reg(r) => r,
            Op2::Imm(i) => 0x80 | i,
        } & 0xff)
    }

    /// Decodes a word of this family.
    pub fn decode(word: u16) -> (r: Add)
        requires
            is_add_word(word),
        ensures
            r == add_decoded(word),
            r.wf(),
    {
        proof {
            assert((word >> 8) & 0xf < 16) by (bit_vector);
            assert(word & 0xf < 16) by (bit_vector);
        }
        Add {
            op1: (word >> 8) & 0xf,
            op2: if word & 0x80 == 0 { Op2::Reg(word & 0xf) } else { Op2::Imm(word & 0x7f) },
        }
    }

    /// Encodes the instruction; fields are masked to their bit positions.
    pub fn encode(&self) -> (r: u16)
        ensures
            r == self.encoded(),
    {
        let low: u16 = match self.op2 {
            Op2::Reg(r) => r,
            Op2::Imm(i) => 0x80 | i,
        };
        0xc000u16 | ((self.op1 << 8) & 0x0f00) | (low & 0xff)
    }

    /// The processor `q` that executing the instruction leaves behind in `p`.
    pub open spec fn executed(self, p: Processor, q: Processor) -> bool {
        &&& q.wf()
        &&& q.regs@ == p.regs@.update(
            self.op1 as int,
            ((p.regs@[self.op1 as int] + p.operand_value(self.op2)) % 0x10000) as u16
        )
        &&& q.sr == p.sr
        &&& q.ram == p.ram
    }

    /// Adds the operand to register `op1`, wrapping; flags are kept.
    pub fn execute(&self, proc: &mut Processor)
        requires
            old(proc).wf(),
            self.wf(),
        ensures
            self.executed(*old(proc), *final(proc)),
    {
        let x = proc.regs[self.op1 as usize];
        let v = proc.operand(self.op2);
        let res = ((x as u32 + v as u32) % 0x10000) as u16;
        proc.regs.set(self.op1 as usize, res);
    }
}

/// Decoding then encoding a word of this family gives the word back, less the
/// bits that the register form ignores.
pub proof fn lemma_add_round_trip(w: u16)
    requires
        is_add_word(w),
    ensures
        add_decoded(w).encoded() == add_canonical(w),
{
    let op1 = (w >> 8) & 0xf;
    if w & 0x80 == 0 {
        assert(0xc000u16 | ((op1 << 8) & 0x0f00) | ((w & 0xf) & 0xff) == w & 0xff8f) by (bit_vector)
            requires
                w >> 12 == 0xc,
                w & 0x80 == 0,
                op1 == (w >> 8) & 0xf,
        ;
    } else {
        assert(0xc000u16 | ((op1 << 8) & 0x0f00) | ((0x80 | (w & 0x7f)) & 0xff) == w) by (bit_vector)
            requires
                w >> 12 == 0xc,
                w & 0x80 != 0,
                op1 == (w >> 8) & 0xf,
        ;
    }
}

} // verus!
