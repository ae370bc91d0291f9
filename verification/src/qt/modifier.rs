//! Modifier bits.
use vstd::prelude::*;

verus! {

pub const SHIFT: i32 = 0x0200_0000;

pub const CONTROL: i32 = 0x0400_0000;

pub const ALT: i32 = 0x0800_0000;

/// The modifiers that key bindings look at.
pub const MASK: i32 = 0x0e00_0000;

} // verus!
