use vstd::prelude::*;

verus! {

/// The ways in which a request can be refused before any raster is built.
#[derive(Clone, Copy, Debug, PartialEq, Eq, Structural)]
pub enum ShadeError {
    /// A configuration value is unusable: a cell size that is not strictly
    /// positive, or a light direction outside the unit range.
    InvalidConfiguration,
    /// Two rasters that must cover the same grid differ in width or height.
    DimensionMismatch,
}

} // verus!
