//! Mouse buttons.
use vstd::prelude::*;

verus! {

pub const NONE: i32 = 0;

pub const LEFT: i32 = 1;

pub const RIGHT: i32 = 2;

pub const MIDDLE: i32 = 4;

} // verus!
