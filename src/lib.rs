//! Schema-directed transcoding between loosely typed records and
//! column-major batches.
//!
//! A caller describes its columns with a dynamic mapping from field name to
//! type descriptor; [`schema::resolve`] turns that mapping into a typed
//! [`schema::ColumnSchema`]. [`encode::encode`] turns a sequence of records
//! into a [`batch::Batch`] that conforms to such a schema, and
//! [`decode::decode`] turns a batch back into records.
//!
//! Floating-point numbers are carried as their IEEE-754 bit patterns: the
//! host boundary does every conversion that needs floating-point arithmetic.

pub mod batch;
pub mod cell;
pub mod decode;
pub mod encode;
pub mod error;
pub mod index;
pub mod laws;
pub mod schema;
pub mod value;

pub use batch::{Batch, BatchColumn, BatchView, Column, ColumnView};
pub use cell::{coerce, Cell, CellView};
pub use decode::{decode, decode_all};
pub use encode::encode;
pub use error::{Fault, TranscodeError};
pub use index::ivf_partition_count;
pub use schema::{resolve, type_tag, ColumnSchema, FieldDef, FieldType, FieldView, MAX_DIMENSION};
pub use value::{Key, Number, Value};
