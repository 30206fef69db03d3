//! The verified core of a small 3D gravity simulation: how input drives the
//! simulation, in which order bodies pull on each other, and how the meshes
//! of the spheres and of the floor grid are laid out.
use vstd::prelude::*;

pub mod camera;
pub mod constants;
pub mod control;
pub mod galaxy;
pub mod grid;
pub mod input;
pub mod physics;
pub mod sphere;
