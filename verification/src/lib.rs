//! Selection engine for a 3D spatial gene-expression viewer.
//!
//! Cells are points with an index in `0..n_cells`; each gene has a label and
//! an expression vector with one value per covered cell. Given which genes
//! are toggled on and a threshold, the engine classifies each cell as
//! highlighted when any selected gene's expression at that cell strictly
//! exceeds the threshold, and turns the classification into a color array
//! for the renderer. A dirtiness check skips recomputation while the
//! selection is unchanged and the threshold has moved only within a small
//! band.
//!
//! Expression values and thresholds are fixed-point integers in hundredths
//! of an expression unit; the I/O layer converts measured values on the way
//! in.

pub mod color;
pub mod engine;
pub mod parse;
pub mod table;

pub use color::Color;
pub use engine::Snapshot;
pub use table::GeneTable;
