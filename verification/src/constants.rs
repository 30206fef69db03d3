//! Integer settings of the simulation window.
use vstd::prelude::*;

verus! {

/// Width of the window, in logical pixels.
pub const SCREEN_WIDTH: u32 = 800;

/// Height of the window, in logical pixels.
pub const SCREEN_HEIGHT: u32 = 600;

} // verus!
