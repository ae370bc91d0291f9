//! Numbers that the windowing toolkit uses for keys, modifiers, mouse buttons
//! and cursor shapes.
pub mod cursor;
pub mod key;
pub mod modifier;
pub mod mouse_button;
