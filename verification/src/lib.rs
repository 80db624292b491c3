//! Shaded-relief rendering of 8-bit elevation rasters.
//!
//! An elevation raster is coloured by a fixed ramp, lit by a simulated sun
//! (Horn's gradient estimator), and the two results are multiplied into one
//! picture. Every stage is a pure function from rasters to a fresh raster.

pub mod blend;
pub mod error;
pub mod gradient;
pub mod hillshade;
pub mod imaging;
pub mod light;
pub mod ramp;
pub mod raster;
