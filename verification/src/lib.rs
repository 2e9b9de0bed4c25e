//! Per-grid-cell simulation support: named dimensions, dimension-reordering
//! views over gridded variables, deterministic grid-cell enumeration, and the
//! fixed-width text codec expected by the external point-simulation tool.
use vstd::prelude::*;

pub mod dims;
pub mod grid;
pub mod run;
pub mod vars;
pub mod model;
pub mod text;
pub mod series;

pub use dims::Dimension;
pub use dims::SliceType;
pub use series::Series;
pub use series::series_seq;

verus! {

/// The error taxonomy of this crate.
///
/// `InvalidSlice`: a slice specification's length does not match the
/// dimension order it is applied against. `DimensionMismatch`: a dimension of
/// a wrapped variable cannot be located in a caller-chosen order.
/// `PersistError`: an input file could not be written or an output file could
/// not be read. `MalformedRecord`: a single output line failed to parse.
/// `ProcessFailure`: the external simulator failed to spawn or exited with a
/// non-zero status.
#[derive(Clone, Copy, Debug, PartialEq, Eq, Structural)]
pub enum Error {
    InvalidSlice,
    DimensionMismatch,
    PersistError,
    MalformedRecord,
    ProcessFailure,
}

} // verus!
