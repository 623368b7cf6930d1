//! Words, their signed reading, and sign extension of narrow fields.

use vstd::prelude::*;
use vstd::arithmetic::power2::{pow2, lemma2_to64, lemma_pow2_adds, lemma_pow2_strictly_increases};
use vstd::bits::{lemma_u32_shl_is_mul, lemma_u32_pow2_no_overflow};

verus! {


/// The two's-complement reading of a word.
pub open spec fn signed(w: u16) -> int {
    if w >= 0x8000 { w as int - 0x10000 } else { w as int }
}

/// The two's-complement reading of a `bits`-wide field.
pub open spec fn field_signed(value: int, bits: nat) -> int {
    if value >= pow2((bits - 1) as nat) { value - pow2(bits) } else { value }
}

/// The word obtained by replicating bit `bits - 1` of `value` into all higher bits.
pub open spec fn sign_extended(value: int, bits: nat) -> int {
    if value >= pow2((bits - 1) as nat) { value + 0x10000 - pow2(bits) } else { value }
}

proof fn lemma_pow2_facts(bits: nat)
    requires
        1 <= bits <= 16,
    ensures
        pow2(bits) == 2 * pow2((bits - 1) as nat),
        pow2(bits) <= 0x10000,
        pow2((bits - 1) as nat) >= 1,
{
    lemma_pow2_adds((bits - 1) as nat, 1);
    lemma2_to64();
    if bits < 16 {
        lemma_pow2_strictly_increases(bits, 16);
    }
    vstd::arithmetic::power2::lemma_pow2_pos((bits - 1) as nat);
}

/// Widens a `bits`-wide field to a full word, replicating its top bit.
pub fn sign_extend(value: u16, bits: u32) -> (r: u16)
    requires
        1 <= bits <= 16,
        (value as int) < pow2(bits as nat),
    ensures
        r as int == sign_extended(value as int, bits as nat),
{
    proof {
        lemma_pow2_facts(bits as nat);
        lemma_u32_pow2_no_overflow((bits - 1) as nat);
        lemma_u32_shl_is_mul(1, (bits - 1) as u32);
    }
    let half: u32 = 1u32 << (bits - 1);
    if (value as u32) >= half {
        (value as u32 + 0x10000 - 2 * half) as u16
    } else {
        value
    }
}

/// Sign extension preserves the two's-complement value of the field: with the
/// top bit set the word reads as the field's negative value, with it clear
/// the field is returned unchanged.
pub proof fn lemma_sign_extend_value(value: u16, bits: u32)
    requires
        1 <= bits <= 16,
        (value as int) < pow2(bits as nat),
    ensures
        0 <= sign_extended(value as int, bits as nat) < 0x10000,
        signed(sign_extended(value as int, bits as nat) as u16) == field_signed(value as int, bits as nat),
        (value as int) < pow2((bits - 1) as nat) ==> sign_extended(value as int, bits as nat) == value as int,
{
    lemma_pow2_facts(bits as nat);
}

} // verus!
