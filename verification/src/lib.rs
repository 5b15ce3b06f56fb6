//! Execution core of a 16-bit, word-addressed machine: register file,
//! status word, instruction decoding and the sixteen instructions.

pub mod cpu;
pub mod error;
pub mod register;
pub mod vm;

use crate::error::CycleError;
use crate::register::R;
use vstd::arithmetic::power2::pow2;
use vstd::bits::lemma_u16_pow2_no_overflow;
use vstd::bits::lemma_u16_shl_is_mul;
use vstd::bits::lemma_u16_shr_is_div;
use vstd::prelude::*;

verus! {

/// Bit `nth` of `args`, as 0 or 1.
pub open spec fn bit_of(args: u16, nth: u16) -> u16 {
    (args >> nth) & 1
}

/// The mask that has every bit from position `bitcount` upward set.
pub open spec fn high_mask(bitcount: u16) -> u16 {
    if bitcount >= 16 {
        0
    } else {
        0xffffu16 << bitcount
    }
}

/// `x` with its bits from position `bitcount` upward set when bit
/// `bitcount - 1` of `x` is set, and `x` itself otherwise.
pub open spec fn sign_extended(x: u16, bitcount: u16) -> u16 {
    if bit_of(x, (bitcount - 1) as u16) == 1 {
        x | high_mask(bitcount)
    } else {
        x
    }
}

/// The general-purpose register named by the three bits of `instr` that
/// start at bit `low`.
pub open spec fn reg_field(instr: u16, low: u16) -> R {
    R::at(((instr >> low) & 7) as int).unwrap()
}

/// Bit `nth` of a word is the parity of the word divided by 2^`nth`.
pub proof fn lemma_bit_of_value(args: u16, nth: u16)
    requires
        nth < 16,
    ensures
        bit_of(args, nth) == (args as nat / pow2(nth as nat)) % 2,
{
    lemma_u16_shr_is_div(args, nth);
    let shifted: u16 = args >> nth;
    assert(shifted & 1 == shifted % 2) by (bit_vector);
}

/// On a field that fits in `bitcount` bits, sign extension keeps a field
/// below 2^(`bitcount` - 1) and takes any other down by 2^`bitcount`,
/// modulo 2^16: the result is the field read as a two's-complement number.
pub proof fn lemma_sign_extended_value(x: u16, bitcount: u16)
    requires
        1 <= bitcount < 16,
        x < pow2(bitcount as nat),
    ensures
        x < pow2((bitcount - 1) as nat) ==> sign_extended(x, bitcount) == x,
        x >= pow2((bitcount - 1) as nat) ==> sign_extended(x, bitcount) == x - pow2(
            bitcount as nat,
        ) + 0x10000,
{
    let below: u16 = (bitcount - 1) as u16;
    lemma_u16_pow2_no_overflow(bitcount as nat);
    lemma_u16_pow2_no_overflow(below as nat);
    lemma_u16_shl_is_mul(1, bitcount);
    lemma_u16_shl_is_mul(1, below);
    let whole: u16 = 1u16 << bitcount;
    let half: u16 = 1u16 << below;
    assert(x < half ==> sign_extended(x, bitcount) == x) by (bit_vector)
        requires
            1 <= bitcount < 16,
            below == bitcount - 1,
            half == 1u16 << below,
    ;
    assert(x >= half ==> sign_extended(x, bitcount) == x - whole + 0x10000) by (bit_vector)
        requires
            1 <= bitcount < 16,
            below == bitcount - 1,
            x < whole,
            whole == 1u16 << bitcount,
            half == 1u16 << below,
    ;
}

/// A register field of an instruction names a general-purpose register.
pub proof fn lemma_reg_field(instr: u16)
    ensures
        reg_field(instr, 9).index() < 8,
        reg_field(instr, 6).index() < 8,
        reg_field(instr, 0).index() < 8,
        R::at((instr & 7) as int) == Some(reg_field(instr, 0)),
{
    assert(((instr >> 9) & 7) < 8 && ((instr >> 6) & 7) < 8 && ((instr >> 0) & 7) < 8 && (instr
        >> 0) & 7 == instr & 7) by (bit_vector);
}

/// Extracts bit `nth` of `args`.
pub fn bit(args: u16, nth: u16) -> (b: u16)
    requires
        nth < 16,
    ensures
        b == bit_of(args, nth),
        b == (args as nat / pow2(nth as nat)) % 2,
{
    proof {
        lemma_bit_of_value(args, nth);
    }
    (args >> nth) & 0x1
}

/// Sign-extends the low `bitcount` bits of `x` to a full word.
pub fn sign_extend(x: u16, bitcount: u16) -> (y: u16)
    requires
        1 <= bitcount <= 16,
    ensures
        y == sign_extended(x, bitcount),
{
    if bit(x, bitcount - 1) == 1 && bitcount < 16 {
        x | (0xffffu16 << bitcount)
    } else {
        assert(x | 0 == x) by (bit_vector);
        x
    }
}

/// The register named by bits 11 to 9 of an instruction.
pub fn reg_1st(instr: u16) -> (res: Result<R, CycleError>)
    ensures
        res == Ok::<R, CycleError>(reg_field(instr, 9)),
{
    let i: u16 = (instr >> 9) & 0x7;
    assert(((instr >> 9) & 0x7) < 8) by (bit_vector);
    R::try_from(i)
}

/// The register named by bits 8 to 6 of an instruction.
pub fn reg_2nd(instr: u16) -> (res: Result<R, CycleError>)
    ensures
        res == Ok::<R, CycleError>(reg_field(instr, 6)),
{
    let i: u16 = (instr >> 6) & 0x7;
    assert(((instr >> 6) & 0x7) < 8) by (bit_vector);
    R::try_from(i)
}

} // verus!
