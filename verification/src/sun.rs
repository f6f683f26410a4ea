//! Sun position as the pipeline carries it.
//!
//! The solar-position algorithm works on double-precision floats, which this
//! library does not hold; the I/O layer runs it and hands the two angles in as
//! their IEEE-754 bit patterns. The library stores them with the sample and
//! hands them back out unread: no query or aggregate ever inspects them.

use vstd::prelude::*;

verus! {

/// A computed sun position. Both angles are 64-bit IEEE-754 bit patterns of
/// degrees; the library treats them as opaque payload.
#[derive(Clone, Copy, PartialEq, Eq, Structural, Debug)]
pub struct Position {
    pub azimuth_bits: u64,
    pub altitude_bits: u64,
}

} // verus!
