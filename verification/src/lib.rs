//! A typed codec for the MIDI 2.0 Universal MIDI Packet (UMP) wire format.
//!
//! A packet is a fixed number of 32-bit words, addressed as a flat sequence
//! of bits with bit 0 the most significant bit of word 0. The codec builds
//! typed messages over such packets: named fields are written into exact bit
//! ranges, read back with validation, and an untyped buffer is classified
//! into one of the statically known message shapes by its discriminant
//! fields.

pub mod message;
pub mod packet;

use vstd::prelude::*;

verus! {

/// The failures the codec can report. Every fallible operation returns one
/// of these; none of the library's verified functions panics.
#[derive(Clone, Copy, Debug, PartialEq, Eq, Structural)]
pub enum Error {
    /// A decoded discriminant or enumeration code has no defined variant.
    /// Carries the offending raw code.
    Conversion(u8),
    /// A value intended for a width-bounded field exceeds that field's
    /// declared bit width. Carries the offending value and the width.
    Overflow(u64, u8),
    /// A buffer's total bit length does not equal the length required by the
    /// message kind being constructed. Carries expected and actual bit
    /// counts.
    Size(u64, u64),
}

impl Error {
    pub fn conversion(value: u8) -> (r: Self)
        ensures
            r == Error::Conversion(value),
    {
        Self::Conversion(value)
    }

    pub fn overflow(value: u64, size: u8) -> (r: Self)
        ensures
            r == Error::Overflow(value, size),
    {
        Self::Overflow(value, size)
    }

    pub fn size(expected: u64, actual: u64) -> (r: Self)
        ensures
            r == Error::Size(expected, actual),
    {
        Self::Size(expected, actual)
    }
}

} // verus!
