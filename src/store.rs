//! Stores and pushes (opcode `1101`).

use vstd::prelude::*;
use vstd::arithmetic::power2::lemma2_to64;
use crate::machine::{Op2, Processor, PC, SP, stored};
use crate::word::{sign_extend, sign_extended, lemma_sign_extend_value};

verus! {

/// Whether the word stores to an operand's address or pushes on the stack.
#[derive(Clone, Copy, Debug, PartialEq, Eq, Structural)]
pub enum StrMode {
    Str,
    Push,
}

/// `str op1, &op2` stores register `op1` at the address in register `op2`,
/// or at the program counter plus a byte offset; `push op1` stores it below
/// the stack pointer and moves the stack pointer down one word.
#[derive(Clone, Copy, Debug, PartialEq, Eq, Structural)]
pub struct Str {
    pub op1: u16,
    pub op2: Op2,
    pub mode: StrMode,
}

pub open spec fn is_str_word(w: u16) -> bool {
    w >> 12 == 0xd
}

/// The byte offset that a 7-bit word offset field stands for.
pub open spec fn offset_of_field(f: u16) -> u16 {
    sign_extended(2 * f as int, 8) as u16
}

pub open spec fn str_decoded(w: u16) -> Str {
    Str {
        op1: (w >> 8) & 0xf,
        op2: if w & 0x80 == 0 { Op2::Reg(w & 0xf) } else { Op2::Imm(offset_of_field(w & 0x7f)) },
        mode: if (w ^ 0x40) & 0xc0 == 0 { StrMode::Push } else { StrMode::Str },
    }
}

/// The word with the bits that the register and push forms ignore cleared.
pub open spec fn str_canonical(w: u16) -> u16 {
    if w & 0x80 != 0 {
        w
    } else if w & 0x40 != 0 {
        w & 0xffc0
    } else {
        w & 0xffcf
    }
}

/// Decodes a 7-bit word offset field into a byte offset.
pub fn offset_from_field(f: u16) -> (r: u16)
    requires
        f < 128,
    ensures
        r == offset_of_field(f),
        r == 2 * f || r == 2 * f + 0xff00,
{
    proof {
        lemma2_to64();
        lemma_sign_extend_value((2 * f) as u16, 8);
    }
    sign_extend(2 * f, 8)
}

/// Halving a decoded byte offset gives back the field in its low seven bits.
pub(crate) proof fn lemma_offset_field(f: u16, imm: u16)
    requires
        f < 128,
        imm == 2 * f || imm == 2 * f + 0xff00,
    ensures
        (0x80 | (imm / 2)) & 0xff == 0x80 | f,
{
    assert((0x80 | (imm / 2)) & 0xff == 0x80 | f) by (bit_vector)
        requires
            f < 128,
            imm == 2 * f || imm == 2 * f + 0xff00,
    ;
}

impl Str {
    pub open spec fn wf(self) -> bool {
        self.op1 < 16 && self.op2.wf()
    }

    pub open spec fn encoded(self) -> u16 {
        0xd000u16 | ((self.op1 << 8) & 0x0f00) | (match self.op2 {
            Op2::Reg(r) => match self.mode {
                StrMode::Str => r,
                StrMode::Push => 0x40,
            },
            Op2::Imm(i) => 0x80 | (i / 2),
        } & 0xff)
    }

    /// The byte address written to, in the processor as it is before the store.
    pub open spec fn target(self, p: Processor) -> u16 {
        match self.mode {
            StrMode::Push => ((p.regs@[SP as int] + 0xfffe) % 0x10000) as u16,
            StrMode::Str => match self.op2 {
                Op2::Reg(r) => p.regs@[r as int],
                Op2::Imm(i) => ((p.regs@[PC as int] + i) % 0x10000) as u16,
            },
        }
    }

    /// Decodes a word of this family.
    pub fn decode(word: u16) -> (r: Str)
        requires
            is_str_word(word),
        ensures
            r == str_decoded(word),
            r.wf(),
    {
        proof {
            assert((word >> 8) & 0xf < 16) by (bit_vector);
            assert(word & 0xf < 16) by (bit_vector);
            assert(word & 0x7f < 128) by (bit_vector);
        }
        Str {
            op1: (word >> 8) & 0xf,
            op2: if word & 0x80 == 0 {
                Op2::Reg(word & 0xf)
            } else {
                Op2::Imm(offset_from_field(word & 0x7f))
            },
            mode: if (word ^ 0x40) & 0xc0 == 0 { StrMode::Push } else { StrMode::Str },
        }
    }

    /// Encodes the instruction; fields are masked to their bit positions.
    pub fn encode(&self) -> (r: u16)
        ensures
            r == self.encoded(),
    {
        let low: u16 = match self.op2 {
            Op2::Reg(r) => match self.mode {
                StrMode::Str => r,
                StrMode::Push => 0x40,
            },
            Op2::Imm(i) => 0x80 | (i / 2),
        };
        0xd000u16 | ((self.op1 << 8) & 0x0f00) | (low & 0xff)
    }

    /// The processor `q` that executing the instruction leaves behind in `p`.
    pub open spec fn executed(self, p: Processor, q: Processor) -> bool {
        &&& q.wf()
        &&& q.ram@ == stored(
            p.ram@,
            self.target(p) as int,
            p.regs@[self.op1 as int]
        )
        &&& q.regs@ == match self.mode {
            StrMode::Push => p.regs@.update(SP as int, self.target(p)),
            StrMode::Str => p.regs@
        }
        &&& q.sr == p.sr
    }

    /// Stores register `op1` at the target address; a push also moves the
    /// stack pointer down to that address.
    pub fn execute(&self, proc: &mut Processor)
        requires
            old(proc).wf(),
            self.wf(),
            self.target(*old(proc)) % 2 == 0,
        ensures
            self.executed(*old(proc), *final(proc)),
    {
        let value = proc.regs[self.op1 as usize];
        let addr: u16 = match self.mode {
            StrMode::Push => ((proc.regs[SP] as u32 + 0xfffe) % 0x10000) as u16,
            StrMode::Str => match self.op2 {
                Op2::Reg(r) => proc.regs[r as usize],
                Op2::Imm(i) => ((proc.regs[PC] as u32 + i as u32) % 0x10000) as u16,
            },
        };
        if let StrMode::Push = self.mode {
            proc.regs.set(SP, addr);
        }
        proc.ram.store_word(addr, value);
    }
}

/// Decoding then encoding a word of this family gives the word back, less the
/// bits that the register and push forms ignore.
pub proof fn lemma_str_round_trip(w: u16)
    requires
        is_str_word(w),
    ensures
        str_decoded(w).encoded() == str_canonical(w),
{
    let op1 = (w >> 8) & 0xf;
    if w & 0x80 == 0 {
        if w & 0x40 != 0 {
            assert((w ^ 0x40) & 0xc0 == 0) by (bit_vector)
                requires
                    w & 0x80 == 0,
                    w & 0x40 != 0,
            ;
            assert(0xd000u16 | ((op1 << 8) & 0x0f00) | (0x40u16 & 0xff) == w & 0xffc0) by (bit_vector)
                requires
                    w >> 12 == 0xd,
                    w & 0x80 == 0,
                    w & 0x40 != 0,
                    op1 == (w >> 8) & 0xf,
            ;
        } else {
            assert((w ^ 0x40) & 0xc0 != 0) by (bit_vector)
                requires
                    w & 0x40 == 0,
            ;
            assert(0xd000u16 | ((op1 << 8) & 0x0f00) | ((w & 0xf) & 0xff) == w & 0xffcf) by (bit_vector)
                requires
                    w >> 12 == 0xd,
                    w & 0x80 == 0,
                    w & 0x40 == 0,
                    op1 == (w >> 8) & 0xf,
            ;
        }
    } else {
        let f = w & 0x7f;
        assert(f < 128) by (bit_vector)
            requires
                f == w & 0x7f,
        ;
        lemma2_to64();
        lemma_sign_extend_value((2 * f) as u16, 8);
        let imm = offset_of_field(f);
        lemma_offset_field(f, imm);
        assert(0xd000u16 | ((op1 << 8) & 0x0f00) | (0x80 | f) == w) by (bit_vector)
            requires
                w >> 12 == 0xd,
                w & 0x80 != 0,
                op1 == (w >> 8) & 0xf,
                f == w & 0x7f,
        ;
    }
}

} // verus!
