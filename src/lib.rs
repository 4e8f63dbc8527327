//! Moves tabular data between CSV records and the typed, fixed-capacity
//! column buffers of a scoring engine's frame, one batch at a time.
pub mod carray;
pub mod codec;
pub mod column;
pub mod csv_export;
pub mod csv_import;
pub mod error;
pub mod frame;
pub mod schema;
pub mod session;

pub use carray::{CArrayIterator, CTwinArrayIterator};
pub use codec::{Cell, MOJO_DataType, MOJO_INT32_NAN, MOJO_INT64_NAN};
pub use column::RawColumnBuffer;
pub use csv_export::FrameExporter;
pub use csv_import::{FrameImporter, RecordSource};
pub use error::MojoError;
pub use frame::{RawFrame, MOJO_Frame};
pub use schema::PipelineSchema;
pub use session::{
    batch_size_magic, check_api_version, MOJO_Transform_Operations, MOJO_Transform_Operations_Type,
};
