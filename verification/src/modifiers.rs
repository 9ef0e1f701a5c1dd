//! Modifier bitmask flags used by mouse bindings.
use vstd::prelude::*;

verus! {

pub const NONE: u8 = 0;

pub const CTRL: u8 = 1;

pub const SHIFT: u8 = 2;

pub const ALT: u8 = 4;

/// Command (macOS) / Super (Windows, Linux).
pub const META: u8 = 8;

} // verus!
