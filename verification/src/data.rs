//! Schemas, records and the project that ties them to one source file.
//!
//! [`DataProjectSchema::new`] builds a schema from a header row and reports
//! every bad header at once. [`DataRecord::from_fields`] validates one data
//! row against a schema. [`FileFormat`] says how the lines of a source are
//! cut into fields, and [`DataProject`] applies all three to the lines of one
//! file.

pub mod format;
pub mod project;
pub mod record;
pub mod schema;

pub use format::FileFormat;
pub use project::{DataProject, DataProjectView, ProjectError, ProjectErrorView};
pub use record::{DataRecord, RecordError};
pub use schema::{DataProjectSchema, HeaderError, HeaderErrorView};
