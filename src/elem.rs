//! Element values as raw bit patterns, and what each bitwise operation does
//! to them. An element of a `w`-bit type is held in a `u64` below `2^w`;
//! signed types use two's complement within those `w` bits.

use crate::dtype::{dtype_bits, is_signed_dtype, DType};
use crate::ops::BitwiseBinaryOp;
use vstd::prelude::*;

verus! {

/// All-ones in the low `w` bits of an element of type `d`.
pub open spec fn dtype_mask(d: DType) -> u64 {
    if dtype_bits(d) == 8 {
        0xffu64
    } else if dtype_bits(d) == 16 {
        0xffffu64
    } else if dtype_bits(d) == 32 {
        0xffff_ffffu64
    } else {
        0xffff_ffff_ffff_ffffu64
    }
}

/// The sign bit of a signed element is set.
pub open spec fn is_negative(d: DType, x: u64) -> bool {
    is_signed_dtype(d) && (x >> ((dtype_bits(d) - 1) as u64)) & 1u64 == 1u64
}

/// Left shift within the element's width; shifting by the width or more gives 0.
pub open spec fn shl_bits(d: DType, x: u64, s: u64) -> u64 {
    if s >= dtype_bits(d) {
        0
    } else {
        (x << s) & dtype_mask(d)
    }
}

/// Right shift: logical for unsigned types, arithmetic (sign-filling) for
/// signed ones; shifting by the width or more leaves only sign bits.
pub open spec fn shr_bits(d: DType, x: u64, s: u64) -> u64 {
    if s >= dtype_bits(d) {
        if is_negative(d, x) {
            dtype_mask(d)
        } else {
            0
        }
    } else if is_negative(d, x) {
        ((x >> s) | (dtype_mask(d) ^ (dtype_mask(d) >> s))) & dtype_mask(d)
    } else {
        x >> s
    }
}

/// Result of a binary bitwise operation on two elements; for shifts the
/// right element, read as unsigned, is the shift amount.
pub open spec fn binary_bits(op: BitwiseBinaryOp, d: DType, x: u64, y: u64) -> u64 {
    match op {
        BitwiseBinaryOp::Shl => shl_bits(d, x, y),
        BitwiseBinaryOp::Shr => shr_bits(d, x, y),
        BitwiseBinaryOp::And => x & y,
        BitwiseBinaryOp::Or => x | y,
        BitwiseBinaryOp::Xor => x ^ y,
    }
}

/// Bitwise complement within the element's width.
pub open spec fn not_bits(d: DType, x: u64) -> u64 {
    !x & dtype_mask(d)
}

pub fn mask_exec(d: DType) -> (r: u64)
    ensures
        r == dtype_mask(d),
{
    let b = d.bits();
    if b == 8 {
        0xff
    } else if b == 16 {
        0xffff
    } else if b == 32 {
        0xffff_ffff
    } else {
        0xffff_ffff_ffff_ffff
    }
}

proof fn lemma_dtype_bits_cases(d: DType)
    ensures
        dtype_bits(d) == 8 || dtype_bits(d) == 16 || dtype_bits(d) == 32 || dtype_bits(d) == 64,
{
}

proof fn lemma_or_xor_within(x: u64, y: u64, m: u64)
    requires
        m == 0xffu64 || m == 0xffffu64 || m == 0xffff_ffffu64 || m == 0xffff_ffff_ffff_ffffu64,
        x <= m,
        y <= m,
    ensures
        x | y <= m,
        x ^ y <= m,
{
    if m == 0xffu64 {
        assert(x <= 0xffu64 && y <= 0xffu64 ==> (x | y) <= 0xffu64 && (x ^ y) <= 0xffu64)
            by (bit_vector);
    } else if m == 0xffffu64 {
        assert(x <= 0xffffu64 && y <= 0xffffu64 ==> (x | y) <= 0xffffu64 && (x ^ y) <= 0xffffu64)
            by (bit_vector);
    } else if m == 0xffff_ffffu64 {
        assert(x <= 0xffff_ffffu64 && y <= 0xffff_ffffu64 ==> (x | y) <= 0xffff_ffffu64 && (x
            ^ y) <= 0xffff_ffffu64) by (bit_vector);
    }
}

/// Every operation keeps elements within their type's width.
pub proof fn lemma_binary_bits_within(op: BitwiseBinaryOp, d: DType, x: u64, y: u64)
    requires
        x <= dtype_mask(d),
        y <= dtype_mask(d),
    ensures
        binary_bits(op, d, x, y) <= dtype_mask(d),
{
    let m = dtype_mask(d);
    lemma_dtype_bits_cases(d);
    lemma_shl_shr_within(d, x, y);
    lemma_or_xor_within(x, y, m);
    assert(x & y <= x) by (bit_vector);
}

pub proof fn lemma_shl_shr_within(d: DType, x: u64, s: u64)
    requires
        x <= dtype_mask(d),
    ensures
        shl_bits(d, x, s) <= dtype_mask(d),
        shr_bits(d, x, s) <= dtype_mask(d),
{
    let m = dtype_mask(d);
    lemma_dtype_bits_cases(d);
    if s < dtype_bits(d) {
        let z = x << s;
        assert(z & m <= m) by (bit_vector);
        let w = (x >> s) | (m ^ (m >> s));
        assert(w & m <= m) by (bit_vector);
        assert(x >> s <= x) by (bit_vector);
    }
}

pub proof fn lemma_not_bits_within(d: DType, x: u64)
    ensures
        not_bits(d, x) <= dtype_mask(d),
{
    let m = dtype_mask(d);
    assert(!x & m <= m) by (bit_vector);
}

/// Left shift of one element.
pub fn shl_elem(d: DType, x: u64, s: u64) -> (r: u64)
    ensures
        r == shl_bits(d, x, s),
{
    let b = d.bits() as u64;
    if s >= b {
        0
    } else {
        (x << s) & mask_exec(d)
    }
}

fn negative_exec(d: DType, x: u64) -> (r: bool)
    ensures
        r == is_negative(d, x),
{
    if d.is_signed() {
        let b = d.bits() as u64;
        (x >> (b - 1)) & 1 == 1
    } else {
        false
    }
}

/// Right shift of one element.
pub fn shr_elem(d: DType, x: u64, s: u64) -> (r: u64)
    ensures
        r == shr_bits(d, x, s),
{
    let b = d.bits() as u64;
    let m = mask_exec(d);
    let neg = negative_exec(d, x);
    if s >= b {
        if neg {
            m
        } else {
            0
        }
    } else if neg {
        ((x >> s) | (m ^ (m >> s))) & m
    } else {
        x >> s
    }
}

/// A binary bitwise operation on one pair of elements.
pub fn binary_elem(op: BitwiseBinaryOp, d: DType, x: u64, y: u64) -> (r: u64)
    ensures
        r == binary_bits(op, d, x, y),
{
    match op {
        BitwiseBinaryOp::Shl => shl_elem(d, x, y),
        BitwiseBinaryOp::Shr => shr_elem(d, x, y),
        BitwiseBinaryOp::And => x & y,
        BitwiseBinaryOp::Or => x | y,
        BitwiseBinaryOp::Xor => x ^ y,
    }
}

} // verus!
