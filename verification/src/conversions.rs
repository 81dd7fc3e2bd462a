//! Narrowing a binary64 sample to each pixel representation.
//!
//! The integer kinds truncate toward zero and saturate at their bounds.
//! For the signed kinds whatever is not finite, negative infinity too,
//! counts as above the maximum and goes to the maximum. For the unsigned
//! kinds not-a-number and positive infinity go to the maximum, and negative
//! infinity, being below zero, goes to zero. The binary32 kind rounds to
//! the nearest number and turns everything that is not finite into
//! not-a-number: for the infinities the policies differ, on purpose.

use crate::binary32::{narrow, narrowed};
use crate::binary64::{
    is_finite, lemma_narrowing_signed, saturate, saturate_from_zero, saturated,
    saturated_from_zero,
};
use vstd::prelude::*;

verus! {

/// A pixel representation that every binary64 sample can be narrowed to.
///
/// The conversion is total: each encoding, the infinities and not-a-number
/// included, has exactly one result.
pub trait ConvertFromF64: Sized {
    /// The pixel that the sample encoded by `bits` narrows to.
    spec fn converted(bits: u64) -> Self;

    /// Narrows the sample encoded by `bits`.
    fn convert_from_f64(bits: u64) -> (pixel: Self)
        ensures
            pixel == Self::converted(bits),
    ;
}

impl ConvertFromF64 for u8 {
    open spec fn converted(bits: u64) -> u8 {
        saturated_from_zero(bits, 0xff) as u8
    }

    fn convert_from_f64(bits: u64) -> (pixel: u8) {
        saturate_from_zero(bits, 0xff) as u8
    }
}

impl ConvertFromF64 for u16 {
    open spec fn converted(bits: u64) -> u16 {
        saturated_from_zero(bits, 0xffff) as u16
    }

    fn convert_from_f64(bits: u64) -> (pixel: u16) {
        saturate_from_zero(bits, 0xffff) as u16
    }
}

impl ConvertFromF64 for i16 {
    open spec fn converted(bits: u64) -> i16 {
        saturated(bits, -0x8000, 0x7fff) as i16
    }

    fn convert_from_f64(bits: u64) -> (pixel: i16) {
        saturate(bits, -0x8000, 0x7fff) as i16
    }
}

impl ConvertFromF64 for u32 {
    open spec fn converted(bits: u64) -> u32 {
        saturated_from_zero(bits, 0xffff_ffff) as u32
    }

    fn convert_from_f64(bits: u64) -> (pixel: u32) {
        saturate_from_zero(bits, 0xffff_ffff) as u32
    }
}

impl ConvertFromF64 for i32 {
    open spec fn converted(bits: u64) -> i32 {
        saturated(bits, -0x8000_0000, 0x7fff_ffff) as i32
    }

    fn convert_from_f64(bits: u64) -> (pixel: i32) {
        saturate(bits, -0x8000_0000, 0x7fff_ffff) as i32
    }
}

/// A binary32 pixel, given by its encoding.
#[derive(Debug, Clone, Copy, PartialEq, Eq)]
pub struct Binary32 {
    pub bits: u32,
}

/// A binary64 pixel, given by its encoding.
#[derive(Debug, Clone, Copy, PartialEq, Eq)]
pub struct Binary64 {
    pub bits: u64,
}

impl ConvertFromF64 for Binary32 {
    /// The nearest binary32 number for a finite sample, not-a-number for
    /// every other.
    open spec fn converted(bits: u64) -> Binary32 {
        Binary32 { bits: narrowed(bits) }
    }

    fn convert_from_f64(bits: u64) -> (pixel: Binary32) {
        Binary32 { bits: narrow(bits) }
    }
}

impl ConvertFromF64 for Binary64 {
    /// A binary64 pixel is the sample itself.
    open spec fn converted(bits: u64) -> Binary64 {
        Binary64 { bits }
    }

    fn convert_from_f64(bits: u64) -> (pixel: Binary64) {
        Binary64 { bits }
    }
}

/// A sample that is not finite becomes the largest pixel of a signed kind,
/// whatever its sign.
pub proof fn lemma_signed_pixel_of_non_finite(bits: u64)
    requires
        !is_finite(bits),
    ensures
        <i16 as ConvertFromF64>::converted(bits) == i16::MAX,
        <i32 as ConvertFromF64>::converted(bits) == i32::MAX,
{
    lemma_narrowing_signed(bits, -0x8000, 0x7fff);
    lemma_narrowing_signed(bits, -0x8000_0000, 0x7fff_ffff);
}

} // verus!
