//! What can happen to a window.
use vstd::prelude::*;

verus! {

/// Nothing had happened.
pub const NONE: u32 = 0;

/// A key was typed. The value is the character.
pub const CHARACTER: u32 = 1;

/// A key that is not a character. The value is which.
pub const KEY: u32 = 2;

/// The window changed size, and has a new surface.
pub const RESIZED: u32 = 3;

/// The compositor has gone, and there is no window any more.
pub const CLOSED: u32 = 4;

} // verus!
