//! Loads and pops (opcode `1011`).

use vstd::prelude::*;
use vstd::arithmetic::power2::lemma2_to64;
use crate::machine::{Op2, Processor, PC, SP, word_at};
use crate::store::{offset_from_field, offset_of_field, lemma_offset_field};
use crate::word::lemma_sign_extend_value;

verus! {

/// `ldr op1, *op2` loads register `op1` from the address in register `op2`,
/// or from the program counter plus a byte offset; `pop op1` loads it from
/// the stack pointer and moves the stack pointer up one word.
#[derive(Clone, Copy, Debug, PartialEq, Eq, Structural)]
pub struct Ldr {
    pub op1: u16,
    pub op2: Op2,
    pub pop: bool,
}

pub open spec fn is_ldr_word(w: u16) -> bool {
    w >> 12 == 0xb
}

pub open spec fn ldr_decoded(w: u16) -> Ldr {
    Ldr {
        op1: (w >> 8) & 0xf,
        op2: if w & 0x80 == 0 { Op2::Reg(w & 0xf) } else { Op2::Imm(offset_of_field(w & 0x7f)) },
        pop: (w ^ 0x40) & 0xc0 == 0,
    }
}

/// The word with the bits that the register and pop forms ignore cleared.
pub open spec fn ldr_canonical(w: u16) -> u16 {
    if w & 0x80 != 0 {
        w
    } else if w & 0x40 != 0 {
        w & 0xffc0
    } else {
        w & 0xffcf
    }
}

impl Ldr {
    pub open spec fn wf(self) -> bool {
        self.op1 < 16 && self.op2.wf()
    }

    pub open spec fn encoded(self) -> u16 {
        0xb000u16 | ((self.op1 << 8) & 0x0f00) | (match self.op2 {
            Op2::Reg(r) => if self.pop { 0x40 } else { r },
            Op2::Imm(i) => 0x80 | (i / 2),
        } & 0xff)
    }

    /// The byte address read from, in the processor as it is before the load.
    pub open spec fn source(self, p: Processor) -> u16 {
        match self.op2 {
            Op2::Reg(r) => if self.pop { p.regs@[SP as int] } else { p.regs@[r as int] },
            Op2::Imm(i) => ((p.regs@[PC as int] + i) % 0x10000) as u16,
        }
    }

    /// Decodes a word of this family.
    pub fn decode(word: u16) -> (r: Ldr)
        requires
            is_ldr_word(word),
        ensures
            r == ldr_decoded(word),
            r.wf(),
    {
        proof {
            assert((word >> 8) & 0xf < 16) by (bit_vector);
            assert(word & 0xf < 16) by (bit_vector);
            assert(word & 0x7f < 128) by (bit_vector);
        }
        Ldr {
            op1: (word >> 8) & 0xf,
            op2: if word & 0x80 == 0 {
                Op2::Reg(word & 0xf)
            } else {
                Op2::Imm(offset_from_field(word & 0x7f))
            },
            pop: (word ^ 0x40) & 0xc0 == 0,
        }
    }

    /// Encodes the instruction; fields are masked to their bit positions.
    pub fn encode(&self) -> (r: u16)
        ensures
            r == self.encoded(),
    {
        let low: u16 = match self.op2 {
            Op2::Reg(r) => if self.pop { 0x40 } else { r },
            Op2::Imm(i) => 0x80 | (i / 2),
        };
        0xb000u16 | ((self.op1 << 8) & 0x0f00) | (low & 0xff)
    }

    /// The processor `q` that executing the instruction leaves behind in `p`.
    pub open spec fn executed(self, p: Processor, q: Processor) -> bool {
        &&& q.wf()
        &&& q.regs@ == (if self.pop {
            p.regs@.update(SP as int, ((p.regs@[SP as int] + 2) % 0x10000) as u16)
        } else {
            p.regs@
        }).update(self.op1 as int, word_at(p.ram@, self.source(p) as int))
        &&& q.sr == p.sr
        &&& q.ram == p.ram
    }

    /// Loads register `op1` from the source address; a pop first moves the
    /// stack pointer up one word.
    pub fn execute(&self, proc: &mut Processor)
        requires
            old(proc).wf(),
            self.wf(),
            self.source(*old(proc)) % 2 == 0,
        ensures
            self.executed(*old(proc), *final(proc)),
    {
        let addr: u16 = match self.op2 {
            Op2::Reg(r) => if self.pop { proc.regs[SP] } else { proc.regs[r as usize] },
            Op2::Imm(i) => ((proc.regs[PC] as u32 + i as u32) % 0x10000) as u16,
        };
        if self.pop {
            let sp = ((proc.regs[SP] as u32 + 2) % 0x10000) as u16;
            proc.regs.set(SP, sp);
        }
        let value = proc.ram.load_word(addr);
        proc.regs.set(self.op1 as usize, value);
    }
}

/// Decoding then encoding a word of this family gives the word back, less the
/// bits that the register and pop forms ignore.
pub proof fn lemma_ldr_round_trip(w: u16)
    requires
        is_ldr_word(w),
    ensures
        ldr_decoded(w).encoded() == ldr_canonical(w),
{
    let op1 = (w >> 8) & 0xf;
    if w & 0x80 == 0 {
        if w & 0x40 != 0 {
            assert((w ^ 0x40) & 0xc0 == 0) by (bit_vector)
                requires
                    w & 0x80 == 0,
                    w & 0x40 != 0,
            ;
            assert(0xb000u16 | ((op1 << 8) & 0x0f00) | (0x40u16 & 0xff) == w & 0xffc0) by (bit_vector)
                requires
                    w >> 12 == 0xb,
                    w & 0x80 == 0,
                    w & 0x40 != 0,
                    op1 == (w >> 8) & 0xf,
            ;
        } else {
            assert((w ^ 0x40) & 0xc0 != 0) by (bit_vector)
                requires
                    w & 0x40 == 0,
            ;
            assert(0xb000u16 | ((op1 << 8) & 0x0f00) | ((w & 0xf) & 0xff) == w & 0xffcf) by (bit_vector)
                requires
                    w >> 12 == 0xb,
                    w & 0x80 == 0,
                    w & 0x40 == 0,
                    op1 == (w >> 8) & 0xf,
            ;
        }
    } else {
        let f = w & 0x7f;
        assert(f < 128) by (bit_vector)
            requires
                f == w & 0x7f,
        ;
        lemma2_to64();
        lemma_sign_extend_value((2 * f) as u16, 8);
        let imm = offset_of_field(f);
        lemma_offset_field(f, imm);
        assert(0xb000u16 | ((op1 << 8) & 0x0f00) | (0x80 | f) == w) by (bit_vector)
            requires
                w >> 12 == 0xb,
                w & 0x80 != 0,
                op1 == (w >> 8) & 0xf,
                f == w & 0x7f,
        ;
    }
}

} // verus!
