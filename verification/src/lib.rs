//! A retained-mode 2D vector-shape rendering core.
//!
//! Turns declarative shape descriptions into triangle geometry, manages
//! per-instance attribute streams and a glyph atlas, and maps between world
//! coordinates and screen pixels under pan and zoom. All coordinates are
//! exact rationals, so the camera transforms are exact inverses of each
//! other and the geometric invariants are proved rather than approximated.

pub mod camera;
pub mod color;
pub mod font;
pub mod geometry;
pub mod mesh;
pub mod rat;
pub mod shapes;

use vstd::prelude::*;

verus! {

} // verus!
