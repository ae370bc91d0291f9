//! Mouse cursor shapes.
use vstd::prelude::*;

verus! {

pub const ARROW: i32 = 0;

pub const IBEAM: i32 = 4;

/// Resize up and down.
pub const SIZE_VER: i32 = 5;

/// Resize left and right.
pub const SIZE_HOR: i32 = 6;

pub const POINTING_HAND: i32 = 13;

} // verus!
