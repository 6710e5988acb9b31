//! Rows of `rusqlite` as a source of column values. The one contract in
//! this file is believed, not proved.
use vstd::prelude::*;
use crate::row::{lookup, ColumnView, Columns, SqlValue};

verus! {

/// `rusqlite::Row`, the current row of a running query.
#[verifier::external_type_specification]
#[verifier::external_body]
pub struct ExRow<'stmt>(rusqlite::Row<'stmt>);

/// The columns of a row whose names are UTF-8, in the order of the query's
/// result, each with the value that the row holds in it.
pub uninterp spec fn row_columns(row: rusqlite::Row<'_>) -> Seq<ColumnView>;

/// `rusqlite::Row::get_ref` with a name. Believed: it fails only where no
/// column has the name, and it finds the first column whose name is equal to
/// `name` up to the case of ASCII letters; the value is handed over as it is,
/// a real number as its bits and a text as its bytes.
#[verifier::external_body]
fn get_ref(row: &rusqlite::Row<'_>, name: &str) -> (value: Option<SqlValue>)
    ensures
        match value {
            Some(v) => lookup(row_columns(*row), name@) == Some(v@),
            None => lookup(row_columns(*row), name@) is None,
        },
{
    match row.get_ref(name) {
        Ok(rusqlite::types::ValueRef::Null) => Some(SqlValue::Null),
        Ok(rusqlite::types::ValueRef::Integer(i)) => Some(SqlValue::Integer(i)),
        Ok(rusqlite::types::ValueRef::Real(r)) => Some(SqlValue::Real(r.to_bits())),
        Ok(rusqlite::types::ValueRef::Text(t)) => Some(SqlValue::Text(t.to_vec())),
        Ok(rusqlite::types::ValueRef::Blob(b)) => Some(SqlValue::Blob(b.to_vec())),
        Err(_) => None,
    }
}

impl<'stmt> Columns for rusqlite::Row<'stmt> {
    open spec fn columns(&self) -> Seq<ColumnView> {
        row_columns(*self)
    }

    fn value_of(&self, name: &str) -> (value: Option<SqlValue>) {
        get_ref(self, name)
    }
}

} // verus!
