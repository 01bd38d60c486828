//! Discrete locations for grid-based fields.

use vstd::prelude::*;

verus! {

/// A two-dimensional integer location, for use in discrete fields such as a grid.
#[derive(Clone, Copy, Debug, PartialEq, Eq, Hash, Structural)]
pub struct Int2D {
    pub x: i32,
    pub y: i32,
}

} // verus!
