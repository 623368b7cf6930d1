//! The six instruction families as one type, and the fetch-decode-execute step.

use vstd::prelude::*;
use crate::add::{Add, add_canonical, add_decoded, is_add_word, lemma_add_round_trip};
use crate::load::{Ldr, is_ldr_word, ldr_canonical, ldr_decoded, lemma_ldr_round_trip};
use crate::machine::{Op2, Processor, PC, SP, word_at};
use crate::mul::{Mul, is_mul_word, lemma_mul_round_trip, mul_canonical, mul_decoded};
use crate::shf::{Shf, is_shf_word, lemma_shf_round_trip, shf_decoded};
use crate::store::{Str, StrMode, is_str_word, lemma_str_round_trip, str_canonical, str_decoded};
use crate::xor::{Xor, is_xor_word, lemma_xor_round_trip, xor_canonical, xor_decoded};

verus! {

#[derive(Clone, Copy, Debug, PartialEq, Eq, Structural)]
pub enum Instruction {
    Add(Add),
    Mul(Mul),
    Xor(Xor),
    Shf(Shf),
    Str(Str),
    Ldr(Ldr),
}

/// The instruction a word stands for, if its opcode names a family and its
/// fields are valid for that family.
pub open spec fn decoded(w: u16) -> Option<Instruction> {
    if is_add_word(w) {
        Some(Instruction::Add(add_decoded(w)))
    } else if is_mul_word(w) {
        Some(Instruction::Mul(mul_decoded(w)))
    } else if is_xor_word(w) {
        Some(Instruction::Xor(xor_decoded(w)))
    } else if is_shf_word(w) {
        Some(Instruction::Shf(shf_decoded(w)))
    } else if is_str_word(w) {
        Some(Instruction::Str(str_decoded(w)))
    } else if is_ldr_word(w) {
        Some(Instruction::Ldr(ldr_decoded(w)))
    } else {
        None
    }
}

/// Why the processor cannot go on.
#[derive(Clone, Copy, Debug, PartialEq, Eq, Structural)]
pub enum Fault {
    /// The word at the program counter is no instruction.
    BadWord(u16),
    /// A word access at an odd address.
    Misaligned(u16),
}

impl Instruction {
    pub open spec fn wf(self) -> bool {
        match self {
            Instruction::Add(i) => i.wf(),
            Instruction::Mul(i) => i.wf(),
            Instruction::Xor(i) => i.wf(),
            Instruction::Shf(i) => i.wf(),
            Instruction::Str(i) => i.wf(),
            Instruction::Ldr(i) => i.wf(),
        }
    }

    pub open spec fn encoded(self) -> u16 {
        match self {
            Instruction::Add(i) => i.encoded(),
            Instruction::Mul(i) => i.encoded(),
            Instruction::Xor(i) => i.encoded(),
            Instruction::Shf(i) => i.encoded(),
            Instruction::Str(i) => i.encoded(),
            Instruction::Ldr(i) => i.encoded(),
        }
    }

    /// The byte address the instruction accesses in memory, if any.
    pub open spec fn access(self, p: Processor) -> Option<u16> {
        match self {
            Instruction::Str(i) => Some(i.target(p)),
            Instruction::Ldr(i) => Some(i.source(p)),
            _ => None,
        }
    }

    /// Whether the instruction writes the program counter.
    pub open spec fn writes_pc(self) -> bool {
        match self {
            Instruction::Add(i) => i.op1 == PC,
            Instruction::Mul(i) => i.op1 == PC,
            Instruction::Xor(i) => i.op1 == PC,
            Instruction::Shf(i) => i.op1 == PC,
            Instruction::Str(_) => false,
            Instruction::Ldr(i) => i.op1 == PC,
        }
    }

    /// The byte address the instruction would access in `proc`, if any.
    pub fn address(&self, proc: &Processor) -> (r: Option<u16>)
        requires
            proc.wf(),
            self.wf(),
        ensures
            r == self.access(*proc),
    {
        match self {
            Instruction::Str(i) => Some(
                match i.mode {
                    StrMode::Push => ((proc.regs[SP] as u32 + 0xfffe) % 0x10000) as u16,
                    StrMode::Str => match i.op2 {
                        Op2::Reg(r) => proc.regs[r as usize],
                        Op2::Imm(v) => ((proc.regs[PC] as u32 + v as u32) % 0x10000) as u16,
                    },
                },
            ),
            Instruction::Ldr(i) => Some(
                match i.op2 {
                    Op2::Reg(r) => if i.pop {
                        proc.regs[SP]
                    } else {
                        proc.regs[r as usize]
                    },
                    Op2::Imm(v) => ((proc.regs[PC] as u32 + v as u32) % 0x10000) as u16,
                },
            ),
            _ => None,
        }
    }

    pub fn sets_pc(&self) -> (r: bool)
        ensures
            r == self.writes_pc(),
    {
        match self {
            Instruction::Add(i) => i.op1 == 15,
            Instruction::Mul(i) => i.op1 == 15,
            Instruction::Xor(i) => i.op1 == 15,
            Instruction::Shf(i) => i.op1 == 15,
            Instruction::Str(_) => false,
            Instruction::Ldr(i) => i.op1 == 15,
        }
    }

    /// Decodes a word by its opcode; `None` for an opcode of no family or a
    /// shift word with an invalid mode.
    pub fn decode(word: u16) -> (r: Option<Instruction>)
        ensures
            r == decoded(word),
            r matches Some(i) ==> i.wf(),
    {
        let op = word >> 12;
        if op == 0xc {
            Some(Instruction::Add(Add::decode(word)))
        } else if op == 0x7 {
            Some(Instruction::Mul(Mul::decode(word)))
        } else if op == 0x5 {
            Some(Instruction::Xor(Xor::decode(word)))
        } else if op == 0xe {
            let m = (word >> 4) & 7;
            assert(m < 8) by (bit_vector)
                requires
                    m == (word >> 4) & 7,
            ;
            if m == 3 || m == 7 {
                None
            } else {
                Some(Instruction::Shf(Shf::decode(word)))
            }
        } else if op == 0xd {
            Some(Instruction::Str(Str::decode(word)))
        } else if op == 0xb {
            Some(Instruction::Ldr(Ldr::decode(word)))
        } else {
            None
        }
    }

    pub fn encode(&self) -> (r: u16)
        ensures
            r == self.encoded(),
    {
        match self {
            Instruction::Add(i) => i.encode(),
            Instruction::Mul(i) => i.encode(),
            Instruction::Xor(i) => i.encode(),
            Instruction::Shf(i) => i.encode(),
            Instruction::Str(i) => i.encode(),
            Instruction::Ldr(i) => i.encode(),
        }
    }

    /// The processor `q` that executing the instruction leaves behind in `p`.
    pub open spec fn executed(self, p: Processor, q: Processor) -> bool {
        match self {
            Instruction::Add(i) => i.executed(p, q),
            Instruction::Mul(i) => i.executed(p, q),
            Instruction::Xor(i) => i.executed(p, q),
            Instruction::Shf(i) => i.executed(p, q),
            Instruction::Str(i) => i.executed(p, q),
            Instruction::Ldr(i) => i.executed(p, q),
        }
    }

    /// Executes the instruction as its family does.
    pub fn execute(&self, proc: &mut Processor)
        requires
            old(proc).wf(),
            self.wf(),
            self.access(*old(proc)) matches Some(a) ==> a % 2 == 0,
        ensures
            final(proc).wf(),
            self.executed(*old(proc), *final(proc)),
            !self.writes_pc() ==> final(proc).regs@[PC as int] == old(proc).regs@[PC as int],
    {
        match self {
            Instruction::Add(i) => i.execute(proc),
            Instruction::Mul(i) => i.execute(proc),
            Instruction::Xor(i) => i.execute(proc),
            Instruction::Shf(i) => i.execute(proc),
            Instruction::Str(i) => i.execute(proc),
            Instruction::Ldr(i) => i.execute(proc),
        }
    }
}

/// One fetch-decode-execute step: reads the word at the program counter,
/// decodes and executes it, then moves the program counter to the next word
/// unless the instruction wrote it. Nothing changes when the step faults.
pub fn step(proc: &mut Processor) -> (r: Result<(), Fault>)
    requires
        old(proc).wf(),
    ensures
        final(proc).wf(),
        old(proc).regs@[PC as int] % 2 != 0 ==> r == Err::<(), Fault>(
            Fault::Misaligned(old(proc).regs@[PC as int]),
        ) && *final(proc) == *old(proc),
        old(proc).regs@[PC as int] % 2 == 0 ==> {
            let w = word_at(old(proc).ram@, old(proc).regs@[PC as int] as int);
            match decoded(w) {
                None => r == Err::<(), Fault>(Fault::BadWord(w)) && *final(proc) == *old(proc),
                Some(i) => match i.access(*old(proc)) {
                    Some(a) if a % 2 != 0 => r == Err::<(), Fault>(Fault::Misaligned(a))
                        && *final(proc) == *old(proc),
                    _ => r is Ok && exists|q: Processor|
                        {
                            &&& #[trigger] i.executed(*old(proc), q)
                            &&& final(proc).sr == q.sr
                            &&& final(proc).ram == q.ram
                            &&& final(proc).regs@ == if i.writes_pc() {
                                q.regs@
                            } else {
                                q.regs@.update(PC as int, ((old(proc).regs@[PC as int] + 2) % 0x10000) as u16)
                            }
                        },
                },
            }
        },
{
    let ghost p0 = *proc;
    let pc = proc.regs[PC];
    if pc % 2 != 0 {
        return Err(Fault::Misaligned(pc));
    }
    let word = proc.ram.load_word(pc);
    let inst = match Instruction::decode(word) {
        Some(i) => i,
        None => {
            return Err(Fault::BadWord(word));
        },
    };
    let addr = inst.address(proc);
    if let Some(a) = addr {
        if a % 2 != 0 {
            return Err(Fault::Misaligned(a));
        }
    }
    inst.execute(proc);
    let ghost q = *proc;
    if !inst.sets_pc() {
        let next = ((pc as u32 + 2) % 0x10000) as u16;
        proc.regs.set(PC, next);
    }
    proof {
        assert(inst.executed(p0, q));
    }
    Ok(())
}

/// A word with the bits cleared that its family's alternate operand forms ignore.
pub open spec fn canonical(w: u16) -> u16 {
    if is_add_word(w) {
        add_canonical(w)
    } else if is_mul_word(w) {
        mul_canonical(w)
    } else if is_xor_word(w) {
        xor_canonical(w)
    } else if is_str_word(w) {
        str_canonical(w)
    } else if is_ldr_word(w) {
        ldr_canonical(w)
    } else {
        w
    }
}

/// Every word that decodes re-encodes to its canonical form.
pub proof fn lemma_round_trip(w: u16)
    ensures
        decoded(w) matches Some(i) ==> i.encoded() == canonical(w),
{
    if is_add_word(w) {
        lemma_add_round_trip(w);
    } else if is_mul_word(w) {
        lemma_mul_round_trip(w);
    } else if is_xor_word(w) {
        lemma_xor_round_trip(w);
    } else if is_shf_word(w) {
        lemma_shf_round_trip(w);
    } else if is_str_word(w) {
        lemma_str_round_trip(w);
    } else if is_ldr_word(w) {
        lemma_ldr_round_trip(w);
    }
}

} // verus!
