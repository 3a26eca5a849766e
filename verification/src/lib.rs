//! A library for attaching one auxiliary tag/value pair to every alignment
//! record of a container file, while preserving the header and appending a
//! provenance record that documents the run.
//!
//! The data model (headers, records, auxiliary entries) and the whole
//! transformation are verified; file encoding and decoding are left to the
//! host program, which converts between the on-disk form and these types.

pub mod args;
pub mod errors;
pub mod header;
pub mod pipeline;
pub mod record;

pub use crate::args::validate_tag;
pub use crate::args::Args;
pub use crate::errors::TransformError;
