//! Key codes of keys that have no character of their own.
use vstd::prelude::*;

verus! {

pub const ESCAPE: i32 = 0x0100_0000;

pub const TAB: i32 = 0x0100_0001;

/// Shift+Tab.
pub const BACKTAB: i32 = 0x0100_0002;

pub const BACKSPACE: i32 = 0x0100_0003;

pub const RETURN: i32 = 0x0100_0004;

/// The keypad's Enter.
pub const ENTER: i32 = 0x0100_0005;

pub const INSERT: i32 = 0x0100_0006;

pub const DELETE: i32 = 0x0100_0007;

pub const HOME: i32 = 0x0100_0010;

pub const END: i32 = 0x0100_0011;

pub const LEFT: i32 = 0x0100_0012;

pub const UP: i32 = 0x0100_0013;

pub const RIGHT: i32 = 0x0100_0014;

pub const DOWN: i32 = 0x0100_0015;

pub const PAGE_UP: i32 = 0x0100_0016;

pub const PAGE_DOWN: i32 = 0x0100_0017;

pub const CONTROL: i32 = 0x0100_0021;

} // verus!
