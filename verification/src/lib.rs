//! Row-to-struct mapping driven by per-field directives.
//!
//! A struct definition annotated with `from_row(..)` directives is compiled
//! into a mapping: one extraction per field, one null probe per field that is
//! backed by columns, and the capabilities that each field's type must have.
//! Mappings are registered in a [`Schema`], which decodes rows into values and
//! probes them for absent nested records. A row is any source of column
//! values that is addressed by name: an [`OwnedRow`](row::OwnedRow) held in
//! memory, or the current row of a `rusqlite` query.
pub mod error;
pub mod directive;
pub mod syntax;
pub mod raw;
pub mod plan;
pub mod field;
pub mod derive;
pub mod row;
pub mod value;
pub mod schema;
pub mod decode;
pub mod from_row;
pub mod sqlite;
pub mod laws;

pub use rusqlite;

pub use crate::decode::Schema;
pub use crate::derive::derive_from_row;
pub use crate::error::MappingError;
pub use crate::from_row::FromRow;
