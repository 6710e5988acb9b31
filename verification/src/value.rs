//! What decoding a row yields.
use vstd::prelude::*;
use crate::directive::{Convert, ConvertView};
use crate::row::{SqlValue, SqlValueView};

verus! {

/// A decoded value.
#[derive(Debug, PartialEq, Eq)]
pub enum Value {
    /// The value of a column, decoded as it stands.
    Column(SqlValue),
    /// The default value of the type `ty`.
    Default { ty: String },
    /// `value`, to be converted by `convert` into the type `ty`.
    Converted { convert: Convert, ty: String, value: Box<Value> },
    /// A record of the struct `ty`: the values of its fields under their
    /// names, in declaration order.
    Record { ty: String, fields: Vec<(String, Value)> },
    /// A nested record that is not there.
    Absent,
    /// A nested record that is there.
    Present(Box<Value>),
}

/// A [`Value`] with its contents as sequences.
pub enum ValueView {
    Column(SqlValueView),
    Default { ty: Seq<char> },
    Converted { convert: ConvertView, ty: Seq<char>, value: Box<ValueView> },
    Record { ty: Seq<char>, fields: Seq<(Seq<char>, ValueView)> },
    Absent,
    Present(Box<ValueView>),
}

/// The view of a value.
pub open spec fn value_view(v: Value) -> ValueView
    decreases v,
{
    match v {
        Value::Column(value) => ValueView::Column(value@),
        Value::Default { ty } => ValueView::Default { ty: ty@ },
        Value::Converted { convert, ty, value } => ValueView::Converted {
            convert: convert@,
            ty: ty@,
            value: Box::new(value_view(*value)),
        },
        Value::Record { ty, fields } => ValueView::Record {
            ty: ty@,
            fields: Seq::new(
                fields@.len(),
                |i: int|
                    if 0 <= i < fields@.len() {
                        (fields@[i].0@, value_view(fields@[i].1))
                    } else {
                        (Seq::empty(), ValueView::Absent)
                    },
            ),
        },
        Value::Absent => ValueView::Absent,
        Value::Present(value) => ValueView::Present(Box::new(value_view(*value))),
    }
}

impl View for Value {
    type V = ValueView;

    open spec fn view(&self) -> ValueView {
        value_view(*self)
    }
}

/// The views of the named values of a record, in order.
pub open spec fn field_value_views(fields: Seq<(String, Value)>) -> Seq<(Seq<char>, ValueView)> {
    Seq::new(fields.len(), |i: int| (fields[i].0@, fields[i].1@))
}

/// The view of a record is made of the views of its named values.
pub proof fn record_view(ty: String, fields: Vec<(String, Value)>)
    ensures
        (Value::Record { ty, fields })@ == (ValueView::Record {
            ty: ty@,
            fields: field_value_views(fields@),
        }),
{
    let v = Value::Record { ty, fields };
    assert(v@->Record_fields =~= field_value_views(fields@));
}

} // verus!
