//! The processor model: second operands, memory, registers and flags.

use vstd::prelude::*;

verus! {

/// Bytes of memory; every 16-bit address names a byte.
pub const RAM_SIZE: usize = 0x10000;

/// Register used as the stack pointer.
pub const SP: usize = 13;

/// Register used as the program counter.
pub const PC: usize = 15;

/// The second operand of an instruction: a register index or an immediate.
#[derive(Clone, Copy, Debug, PartialEq, Eq, Structural)]
pub enum Op2 {
    Reg(u16),
    Imm(u16),
}

impl Op2 {
    /// A register operand names one of the sixteen registers.
    pub open spec fn wf(self) -> bool {
        match self {
            Op2::Reg(r) => r < 16,
            Op2::Imm(_) => true,
        }
    }
}

/// Byte-addressed memory of `RAM_SIZE` bytes, read and written as
/// little-endian words at even addresses.
#[derive(Debug)]
pub struct Ram {
    bytes: Vec<u8>,
}

/// The word stored at byte address `addr`: low byte first.
pub open spec fn word_at(bytes: Seq<u8>, addr: int) -> u16 {
    (bytes[addr] as int + 256 * bytes[addr + 1] as int) as u16
}

/// The bytes after storing `value` at byte address `addr`: low byte first.
pub open spec fn stored(bytes: Seq<u8>, addr: int, value: u16) -> Seq<u8> {
    bytes.update(addr, (value % 256) as u8).update(addr + 1, (value / 256) as u8)
}

impl View for Ram {
    type V = Seq<u8>;

    closed spec fn view(&self) -> Seq<u8> {
        self.bytes@
    }
}

impl Ram {
    pub open spec fn wf(&self) -> bool {
        self@.len() == RAM_SIZE
    }

    /// Memory of `RAM_SIZE` zero bytes.
    pub fn new() -> (r: Ram)
        ensures
            r.wf(),
            forall|i: int| 0 <= i < RAM_SIZE ==> #[trigger] r@[i] == 0,
    {
        let mut bytes: Vec<u8> = Vec::new();
        let mut i: usize = 0;
        while i < RAM_SIZE
            invariant
                i <= RAM_SIZE,
                bytes@.len() == i,
                forall|j: int| 0 <= j < i ==> #[trigger] bytes@[j] == 0,
            decreases RAM_SIZE - i,
        {
            bytes.push(0);
            i += 1;
        }
        Ram { bytes }
    }

    /// The word at an even byte address.
    pub fn load_word(&self, addr: u16) -> (r: u16)
        requires
            self.wf(),
            addr % 2 == 0,
        ensures
            r == word_at(self@, addr as int),
    {
        let a = addr as usize;
        let lo = self.bytes[a] as u16;
        let hi = self.bytes[a + 1] as u16;
        lo + 256 * hi
    }

    /// Stores a word at an even byte address; every other byte is kept.
    pub fn store_word(&mut self, addr: u16, value: u16)
        requires
            old(self).wf(),
            addr % 2 == 0,
        ensures
            final(self).wf(),
            final(self)@ == stored(old(self)@, addr as int, value),
            word_at(final(self)@, addr as int) == value,
    {
        let a = addr as usize;
        self.bytes.set(a, (value % 256) as u8);
        self.bytes.set(a + 1, (value / 256) as u8);
    }
}

impl Default for Ram {
    fn default() -> (r: Ram)
        ensures
            r.wf(),
            forall|i: int| 0 <= i < RAM_SIZE ==> #[trigger] r@[i] == 0,
    {
        Ram::new()
    }
}

/// Status register bit set when a result is zero.
pub const FLAG_ZERO: u16 = 0x0001;

/// Status register bit set when a result has its top bit set.
pub const FLAG_NEGATIVE: u16 = 0x0002;

/// Status register bit for signed overflow.
pub const FLAG_OVERFLOW: u16 = 0x0004;

/// Status register bit for the carry out.
pub const FLAG_CARRY: u16 = 0x0008;

/// The status register with its four flag bits replaced; other bits kept.
pub open spec fn with_flags(sr: u16, zero: bool, negative: bool, overflow: bool, carry: bool) -> u16 {
    (sr & 0xfff0) | (if zero { FLAG_ZERO } else { 0u16 }) | (if negative { FLAG_NEGATIVE } else { 0u16 })
        | (if overflow { FLAG_OVERFLOW } else { 0u16 }) | (if carry { FLAG_CARRY } else { 0u16 })
}

/// Sixteen registers, a status register and memory.
#[derive(Debug)]
pub struct Processor {
    pub regs: Vec<u16>,
    pub sr: u16,
    pub ram: Ram,
}

impl Processor {
    pub open spec fn wf(&self) -> bool {
        self.regs@.len() == 16 && self.ram.wf()
    }

    /// A processor with every register zero and zeroed memory.
    pub fn new() -> (r: Processor)
        ensures
            r.wf(),
            forall|i: int| 0 <= i < 16 ==> #[trigger] r.regs@[i] == 0,
            r.sr == 0,
    {
        let mut regs: Vec<u16> = Vec::new();
        let mut i: usize = 0;
        while i < 16
            invariant
                i <= 16,
                regs@.len() == i,
                forall|j: int| 0 <= j < i ==> #[trigger] regs@[j] == 0,
            decreases 16 - i,
        {
            regs.push(0);
            i += 1;
        }
        Processor { regs, sr: 0, ram: Ram::new() }
    }

    /// The value an operand stands for: a register's content or the immediate.
    pub open spec fn operand_value(&self, op: Op2) -> u16 {
        match op {
            Op2::Reg(r) => self.regs@[r as int],
            Op2::Imm(i) => i,
        }
    }

    pub fn operand(&self, op: Op2) -> (r: u16)
        requires
            self.wf(),
            op.wf(),
        ensures
            r == self.operand_value(op),
    {
        match op {
            Op2::Reg(r) => self.regs[r as usize],
            Op2::Imm(i) => i,
        }
    }

    /// Replaces the four flag bits of the status register.
    pub fn set_flags(&mut self, zero: bool, negative: bool, overflow: bool, carry: bool)
        ensures
            final(self).sr == with_flags(old(self).sr, zero, negative, overflow, carry),
            final(self).regs == old(self).regs,
            final(self).ram == old(self).ram,
    {
        let z: u16 = if zero { FLAG_ZERO } else { 0 };
        let n: u16 = if negative { FLAG_NEGATIVE } else { 0 };
        let v: u16 = if overflow { FLAG_OVERFLOW } else { 0 };
        let c: u16 = if carry { FLAG_CARRY } else { 0 };
        self.sr = (self.sr & 0xfff0) | z | n | v | c;
    }
}

/// Each flag bit of the status register holds exactly the flag it was given,
/// and the bits above the flags are kept.
pub proof fn lemma_flag_bits(sr: u16, zero: bool, negative: bool, overflow: bool, carry: bool)
    ensures
        (with_flags(sr, zero, negative, overflow, carry) & FLAG_ZERO != 0) == zero,
        (with_flags(sr, zero, negative, overflow, carry) & FLAG_NEGATIVE != 0) == negative,
        (with_flags(sr, zero, negative, overflow, carry) & FLAG_OVERFLOW != 0) == overflow,
        (with_flags(sr, zero, negative, overflow, carry) & FLAG_CARRY != 0) == carry,
        with_flags(sr, zero, negative, overflow, carry) & 0xfff0 == sr & 0xfff0,
{
    let z: u16 = if zero { 1 } else { 0 };
    let n: u16 = if negative { 2 } else { 0 };
    let v: u16 = if overflow { 4 } else { 0 };
    let c: u16 = if carry { 8 } else { 0 };
    let w = (sr & 0xfff0) | z | n | v | c;
    assert(w == with_flags(sr, zero, negative, overflow, carry));
    assert((w & 1 != 0) == (z == 1) && (w & 2 != 0) == (n == 2) && (w & 4 != 0) == (v == 4) && (w & 8
        != 0) == (c == 8) && w & 0xfff0 == sr & 0xfff0) by (bit_vector)
        requires
            w == (sr & 0xfff0) | z | n | v | c,
            z == 0 || z == 1,
            n == 0 || n == 2,
            v == 0 || v == 4,
            c == 0 || c == 8,
    ;
}

} // verus!
