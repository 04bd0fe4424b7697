//! The bit field held by one sample of a pulse train.
//!
//! Bit 0 is the camshaft level, bit 1 the crankshaft level, and bits 2 to 7 are
//! the top-dead-center markers of cylinders 0 to 5. The layout is the same for
//! every element width; a wider element only carries more untouched bits.

use crate::level::Level;
use vstd::prelude::*;

verus! {

/// Mask of the camshaft bit.
pub const CAM_MASK: u32 = 0x01;

/// Mask of the crankshaft bit.
pub const CRK_MASK: u32 = 0x02;

/// Number of top-dead-center markers that a sample can hold.
pub const TDC_SLOTS: usize = 6;

/// Mask of the top-dead-center marker of cylinder `cyl`.
pub open spec fn tdc_mask(cyl: int) -> u32 {
    if cyl == 0 {
        0x04
    } else if cyl == 1 {
        0x08
    } else if cyl == 2 {
        0x10
    } else if cyl == 3 {
        0x20
    } else if cyl == 4 {
        0x40
    } else {
        0x80
    }
}

/// The level that `bits` shows under `mask`.
pub open spec fn level_of(bits: u32, mask: u32) -> Level {
    if bits & mask != 0 {
        Level::High
    } else {
        Level::Low
    }
}

/// `bits` with the bits under `mask` driven to `level`.
pub open spec fn with_level(bits: u32, mask: u32, level: Level) -> u32 {
    match level {
        Level::High => bits | mask,
        Level::Low => bits & !mask,
    }
}

/// An unsigned integer that can serve as one sample of a pulse train.
pub trait PulseWord: Copy + Sized {
    /// The sample as a 32-bit pattern, zero-extended.
    spec fn bits(self) -> u32;

    /// Two samples with the same bit pattern are the same sample.
    proof fn lemma_bits_injective(a: Self, b: Self)
        requires
            a.bits() == b.bits(),
        ensures
            a == b,
    ;

    /// The sample in which every bit is clear.
    fn zero() -> (r: Self)
        ensures
            r.bits() == 0,
    ;

    fn set_cam(&mut self, level: Level)
        ensures
            final(self).bits() == with_level(old(self).bits(), CAM_MASK, level),
    ;

    fn get_cam(&self) -> (r: Level)
        ensures
            r == level_of(self.bits(), CAM_MASK),
    ;

    fn set_crk(&mut self, level: Level)
        ensures
            final(self).bits() == with_level(old(self).bits(), CRK_MASK, level),
    ;

    fn get_crk(&self) -> (r: Level)
        ensures
            r == level_of(self.bits(), CRK_MASK),
    ;

    fn set_tdc(&mut self, cyl: usize, level: Level)
        requires
            cyl < TDC_SLOTS,
        ensures
            final(self).bits() == with_level(old(self).bits(), tdc_mask(cyl as int), level),
    ;

    fn get_tdc(&self, cyl: usize) -> (r: Level)
        requires
            cyl < TDC_SLOTS,
        ensures
            r == level_of(self.bits(), tdc_mask(cyl as int)),
    ;
}

/// The mask of cylinder `cyl` as an 8-bit value.
fn tdc_mask_u8(cyl: usize) -> (m: u8)
    requires
        cyl < TDC_SLOTS,
    ensures
        m as u32 == tdc_mask(cyl as int),
{
    if cyl == 0 {
        0x04
    } else if cyl == 1 {
        0x08
    } else if cyl == 2 {
        0x10
    } else if cyl == 3 {
        0x20
    } else if cyl == 4 {
        0x40
    } else {
        0x80
    }
}

/// `w` with the bits under `mask` driven to `level`, on 8 bits.
fn put_u8(w: u8, mask: u8, level: Level) -> (r: u8)
    ensures
        r as u32 == with_level(w as u32, mask as u32, level),
{
    match level {
        Level::High => {
            assert((w | mask) as u32 == (w as u32) | (mask as u32)) by (bit_vector);
            w | mask
        },
        Level::Low => {
            assert((w & !mask) as u32 == (w as u32) & !(mask as u32)) by (bit_vector);
            w & !mask
        },
    }
}

/// The level that `w` shows under `mask`, on 8 bits.
fn probe_u8(w: u8, mask: u8) -> (r: Level)
    ensures
        r == level_of(w as u32, mask as u32),
{
    assert(((w & mask) != 0) == (((w as u32) & (mask as u32)) != 0)) by (bit_vector);
    if w & mask != 0 {
        Level::High
    } else {
        Level::Low
    }
}

impl PulseWord for u8 {
    open spec fn bits(self) -> u32 {
        self as u32
    }

    proof fn lemma_bits_injective(a: u8, b: u8) {
    }

    fn zero() -> (r: u8) {
        0
    }

    fn set_cam(&mut self, level: Level) {
        *self = put_u8(*self, 0x01, level);
    }

    fn get_cam(&self) -> (r: Level) {
        probe_u8(*self, 0x01)
    }

    fn set_crk(&mut self, level: Level) {
        *self = put_u8(*self, 0x02, level);
    }

    fn get_crk(&self) -> (r: Level) {
        probe_u8(*self, 0x02)
    }

    fn set_tdc(&mut self, cyl: usize, level: Level) {
        *self = put_u8(*self, tdc_mask_u8(cyl), level);
    }

    fn get_tdc(&self, cyl: usize) -> (r: Level) {
        probe_u8(*self, tdc_mask_u8(cyl))
    }
}

/// `w` with the bits under `mask` driven to `level`, on 16 bits.
fn put_u16(w: u16, mask: u16, level: Level) -> (r: u16)
    ensures
        r as u32 == with_level(w as u32, mask as u32, level),
{
    match level {
        Level::High => {
            assert((w | mask) as u32 == (w as u32) | (mask as u32)) by (bit_vector);
            w | mask
        },
        Level::Low => {
            assert((w & !mask) as u32 == (w as u32) & !(mask as u32)) by (bit_vector);
            w & !mask
        },
    }
}

/// The level that `w` shows under `mask`, on 16 bits.
fn probe_u16(w: u16, mask: u16) -> (r: Level)
    ensures
        r == level_of(w as u32, mask as u32),
{
    assert(((w & mask) != 0) == (((w as u32) & (mask as u32)) != 0)) by (bit_vector);
    if w & mask != 0 {
        Level::High
    } else {
        Level::Low
    }
}

impl PulseWord for u16 {
    open spec fn bits(self) -> u32 {
        self as u32
    }

    proof fn lemma_bits_injective(a: u16, b: u16) {
    }

    fn zero() -> (r: u16) {
        0
    }

    fn set_cam(&mut self, level: Level) {
        *self = put_u16(*self, 0x01, level);
    }

    fn get_cam(&self) -> (r: Level) {
        probe_u16(*self, 0x01)
    }

    fn set_crk(&mut self, level: Level) {
        *self = put_u16(*self, 0x02, level);
    }

    fn get_crk(&self) -> (r: Level) {
        probe_u16(*self, 0x02)
    }

    fn set_tdc(&mut self, cyl: usize, level: Level) {
        *self = put_u16(*self, tdc_mask_u8(cyl) as u16, level);
    }

    fn get_tdc(&self, cyl: usize) -> (r: Level) {
        probe_u16(*self, tdc_mask_u8(cyl) as u16)
    }
}

/// `w` with the bits under `mask` driven to `level`, on 32 bits.
fn put_u32(w: u32, mask: u32, level: Level) -> (r: u32)
    ensures
        r == with_level(w, mask, level),
{
    match level {
        Level::High => w | mask,
        Level::Low => w & !mask,
    }
}

/// The level that `w` shows under `mask`, on 32 bits.
fn probe_u32(w: u32, mask: u32) -> (r: Level)
    ensures
        r == level_of(w, mask),
{
    if w & mask != 0 {
        Level::High
    } else {
        Level::Low
    }
}

impl PulseWord for u32 {
    open spec fn bits(self) -> u32 {
        self
    }

    proof fn lemma_bits_injective(a: u32, b: u32) {
    }

    fn zero() -> (r: u32) {
        0
    }

    fn set_cam(&mut self, level: Level) {
        *self = put_u32(*self, 0x01, level);
    }

    fn get_cam(&self) -> (r: Level) {
        probe_u32(*self, 0x01)
    }

    fn set_crk(&mut self, level: Level) {
        *self = put_u32(*self, 0x02, level);
    }

    fn get_crk(&self) -> (r: Level) {
        probe_u32(*self, 0x02)
    }

    fn set_tdc(&mut self, cyl: usize, level: Level) {
        *self = put_u32(*self, tdc_mask_u8(cyl) as u32, level);
    }

    fn get_tdc(&self, cyl: usize) -> (r: Level) {
        probe_u32(*self, tdc_mask_u8(cyl) as u32)
    }
}

} // verus!
