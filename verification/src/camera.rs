//! Directions in which the free-flying camera can move.
use vstd::prelude::*;

verus! {

/// A step of the camera: along its line of sight, sideways, or along its up vector.
#[derive(Clone, Copy, Debug, PartialEq, Eq, Structural)]
pub enum CameraMovement {
    Forward,
    Backward,
    Left,
    Right,
    Up,
    Down,
}

} // verus!
