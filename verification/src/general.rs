//! Plain geometry shared by the front end and the compute helpers.

use vstd::prelude::*;

verus! {

/// Extent of a surface in physical pixels.
#[derive(Debug, PartialEq, Eq)]
pub struct PhysicalSize<P> {
    pub width: P,
    pub height: P,
}

impl<P> PhysicalSize<P> {
    /// Builds a size from its two extents.
    pub fn new(width: P, height: P) -> (size: Self)
        ensures
            size.width == width,
            size.height == height,
    {
        PhysicalSize { width, height }
    }
}

} // verus!
