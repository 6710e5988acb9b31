//! A row: an ordered collection of column values that is addressed by name.
use vstd::prelude::*;
use vstd::string::StrSliceExecFns;
use crate::error::Storage;

verus! {

/// The value of one column.
#[derive(Clone, Debug, PartialEq, Eq)]
pub enum SqlValue {
    Null,
    Integer(i64),
    /// A floating-point number, held as the 64 bits of its representation.
    Real(u64),
    /// A text, held as its bytes: they are UTF-8 unless the source holds other.
    Text(Vec<u8>),
    Blob(Vec<u8>),
}

/// A [`SqlValue`] with its contents as sequences.
pub enum SqlValueView {
    Null,
    Integer(i64),
    Real(u64),
    Text(Seq<u8>),
    Blob(Seq<u8>),
}

impl SqlValueView {
    /// The storage class of the value.
    pub open spec fn storage(self) -> Storage {
        match self {
            SqlValueView::Null => Storage::Null,
            SqlValueView::Integer(_) => Storage::Integer,
            SqlValueView::Real(_) => Storage::Real,
            SqlValueView::Text(_) => Storage::Text,
            SqlValueView::Blob(_) => Storage::Blob,
        }
    }
}

impl View for SqlValue {
    type V = SqlValueView;

    open spec fn view(&self) -> SqlValueView {
        match *self {
            SqlValue::Null => SqlValueView::Null,
            SqlValue::Integer(i) => SqlValueView::Integer(i),
            SqlValue::Real(bits) => SqlValueView::Real(bits),
            SqlValue::Text(text) => SqlValueView::Text(text@),
            SqlValue::Blob(bytes) => SqlValueView::Blob(bytes@),
        }
    }
}

/// A copy of a list of bytes.
pub fn copy_bytes(bytes: &Vec<u8>) -> (copy: Vec<u8>)
    ensures
        copy@ == bytes@,
{
    let mut copy: Vec<u8> = Vec::new();
    let mut i: usize = 0;
    while i < bytes.len()
        invariant
            i <= bytes.len(),
            copy@ == bytes@.take(i as int),
        decreases bytes.len() - i,
    {
        copy.push(bytes[i]);
        assert(bytes@.take(i + 1) =~= bytes@.take(i as int).push(bytes@[i as int]));
        i += 1;
    }
    assert(bytes@.take(i as int) =~= bytes@);
    copy
}

impl SqlValue {
    /// The storage class of the value.
    pub fn storage(&self) -> (s: Storage)
        ensures
            s == self@.storage(),
    {
        match self {
            SqlValue::Null => Storage::Null,
            SqlValue::Integer(_) => Storage::Integer,
            SqlValue::Real(_) => Storage::Real,
            SqlValue::Text(_) => Storage::Text,
            SqlValue::Blob(_) => Storage::Blob,
        }
    }

    /// Whether the value is null.
    pub fn is_null(&self) -> (b: bool)
        ensures
            b == (self@ is Null),
    {
        match self {
            SqlValue::Null => true,
            _ => false,
        }
    }

    /// The text value of the characters of `text`, in UTF-8.
    pub fn text(text: &str) -> (value: SqlValue)
        ensures
            value@ == SqlValueView::Text(vstd::utf8::encode_utf8(text@)),
    {
        SqlValue::Text(text.as_bytes_vec())
    }

    /// A copy.
    pub fn duplicate(&self) -> (copy: SqlValue)
        ensures
            copy@ == self@,
    {
        match self {
            SqlValue::Null => SqlValue::Null,
            SqlValue::Integer(i) => SqlValue::Integer(*i),
            SqlValue::Real(bits) => SqlValue::Real(*bits),
            SqlValue::Text(text) => SqlValue::Text(copy_bytes(text)),
            SqlValue::Blob(bytes) => SqlValue::Blob(copy_bytes(bytes)),
        }
    }
}

/// One column of a row: its name and its value.
#[derive(Clone, Debug, PartialEq, Eq)]
pub struct Column {
    pub name: String,
    pub value: SqlValue,
}

/// A [`Column`] with its contents as sequences.
pub struct ColumnView {
    pub name: Seq<char>,
    pub value: SqlValueView,
}

impl View for Column {
    type V = ColumnView;

    open spec fn view(&self) -> ColumnView {
        ColumnView { name: self.name@, value: self.value@ }
    }
}

/// One record of a tabular source, held in memory: its columns in order.
#[derive(Clone, Debug, PartialEq, Eq)]
pub struct OwnedRow {
    pub columns: Vec<Column>,
}

impl View for OwnedRow {
    type V = Seq<ColumnView>;

    open spec fn view(&self) -> Seq<ColumnView> {
        self.columns@.map_values(|c: Column| c@)
    }
}

/// A byte with an upper-case ASCII letter turned into its lower-case letter.
pub open spec fn lowered(byte: u8) -> u8 {
    if 0x41 <= byte <= 0x5a {
        (byte + 0x20) as u8
    } else {
        byte
    }
}

/// A byte string with its upper-case ASCII letters turned into lower case.
pub open spec fn lowered_bytes(bytes: Seq<u8>) -> Seq<u8> {
    bytes.map_values(|x: u8| lowered(x))
}

/// Whether two byte strings are equal up to the case of their ASCII letters.
pub open spec fn same_bytes(a: Seq<u8>, b: Seq<u8>) -> bool {
    lowered_bytes(a) == lowered_bytes(b)
}

/// Whether two names address the same column: their UTF-8 encodings are
/// equal up to the case of their ASCII letters.
pub open spec fn same_name(a: Seq<char>, b: Seq<char>) -> bool {
    same_bytes(vstd::utf8::encode_utf8(a), vstd::utf8::encode_utf8(b))
}

/// The value of the first column of `row` that `name` addresses.
pub open spec fn lookup(row: Seq<ColumnView>, name: Seq<char>) -> Option<SqlValueView>
    decreases row.len(),
{
    if row.len() == 0 {
        None
    } else if same_name(row.first().name, name) {
        Some(row.first().value)
    } else {
        lookup(row.drop_first(), name)
    }
}

/// Turns an upper-case ASCII letter into its lower-case letter.
pub fn lower(byte: u8) -> (b: u8)
    ensures
        b == lowered(byte),
{
    if 0x41 <= byte && byte <= 0x5a {
        byte + 0x20
    } else {
        byte
    }
}

/// Tells whether two names address the same column.
pub fn names_match(a: &str, b: &str) -> (same: bool)
    ensures
        same == same_name(a@, b@),
{
    let x = a.as_bytes();
    let y = b.as_bytes();
    let ghost lx = lowered_bytes(x@);
    let ghost ly = lowered_bytes(y@);
    if x.len() != y.len() {
        assert(lx.len() != ly.len());
        return false;
    }
    let mut i: usize = 0;
    while i < x.len()
        invariant
            i <= x.len(),
            x.len() == y.len(),
            lx == lowered_bytes(x@),
            ly == lowered_bytes(y@),
            x@ == vstd::utf8::encode_utf8(a@),
            y@ == vstd::utf8::encode_utf8(b@),
            forall|k: int| 0 <= k < i ==> lx[k] == ly[k],
        decreases x.len() - i,
    {
        if lower(x[i]) != lower(y[i]) {
            assert(lx[i as int] == lowered(x@[i as int]));
            assert(ly[i as int] == lowered(y@[i as int]));
            return false;
        }
        i += 1;
    }
    assert(lx =~= ly);
    true
}

impl OwnedRow {
    /// A row without columns.
    pub fn new() -> (row: OwnedRow)
        ensures
            row@ == Seq::<ColumnView>::empty(),
    {
        let row = OwnedRow { columns: Vec::new() };
        assert(row@ =~= Seq::<ColumnView>::empty());
        row
    }

    /// Appends a column.
    pub fn push(&mut self, name: String, value: SqlValue)
        ensures
            final(self)@ == old(self)@.push(ColumnView { name: name@, value: value@ }),
    {
        self.columns.push(Column { name, value });
        assert(self@ =~= old(self)@.push(ColumnView { name: name@, value: value@ }));
    }

    /// The value of the first column that `name` addresses, if there is one.
    pub fn get_ref(&self, name: &str) -> (value: Option<&SqlValue>)
        ensures
            match value {
                Some(v) => lookup(self@, name@) == Some(v@),
                None => lookup(self@, name@) is None,
            },
    {
        let mut i: usize = 0;
        assert(self@.skip(0) =~= self@);
        while i < self.columns.len()
            invariant
                i <= self.columns.len(),
                lookup(self@, name@) == lookup(self@.skip(i as int), name@),
            decreases self.columns.len() - i,
        {
            let ghost rest = self@.skip(i as int);
            assert(rest.first() == self.columns[i as int]@);
            assert(rest.drop_first() =~= self@.skip(i + 1));
            if names_match(self.columns[i].name.as_str(), name) {
                return Some(&self.columns[i].value);
            }
            i += 1;
        }
        None
    }
}

/// A source of column values that is addressed by name.
pub trait Columns {
    /// The columns, in order.
    spec fn columns(&self) -> Seq<ColumnView>;

    /// The value of the first column that `name` addresses, if there is one.
    fn value_of(&self, name: &str) -> (value: Option<SqlValue>)
        ensures
            match value {
                Some(v) => lookup(self.columns(), name@) == Some(v@),
                None => lookup(self.columns(), name@) is None,
            },
    ;
}

impl Columns for OwnedRow {
    open spec fn columns(&self) -> Seq<ColumnView> {
        self@
    }

    fn value_of(&self, name: &str) -> (value: Option<SqlValue>) {
        match self.get_ref(name) {
            Some(v) => Some(v.duplicate()),
            None => None,
        }
    }
}

} // verus!
