//! Schema inference and record validation for delimited text.
//!
//! A header row is turned into a [`data::DataProjectSchema`], an ordered
//! mapping from trimmed column names to their positions, and every data row is
//! checked against it before it becomes a [`data::DataRecord`]. The crate does
//! no I/O: callers hand it lines that they have already read.

pub mod csv;
pub mod data;
pub mod launch;
pub mod text;
