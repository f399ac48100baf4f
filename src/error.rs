//! Errors that the rendering core reports.

use vstd::prelude::*;

verus! {

#[derive(Clone, Copy, Debug, PartialEq, Eq, Structural)]
pub enum Error {
    /// Two rasters (or a buffer and its view) disagree on their dimensions.
    DimensionMismatch,
}

} // verus!
