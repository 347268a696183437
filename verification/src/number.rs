//! Floating-point numbers that the crate carries from place to place without computing on them.
use vstd::prelude::*;

verus! {

/// The bit pattern of a double-precision number (a coordinate or a distance in metres).
pub type Double = u64;

/// The bit pattern of a single-precision number (a gain factor).
pub type Single = u32;

/// The bit pattern of positive zero.
pub const ZERO: Double = 0;

} // verus!
