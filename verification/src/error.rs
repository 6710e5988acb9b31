//! The failures that generation and decoding report.
use vstd::prelude::*;

verus! {

/// The rule that a combination of directives on one field breaks.
#[derive(Clone, Copy, Debug, PartialEq, Eq, Structural)]
pub enum ConflictRule {
    /// `skip` stands beside another directive.
    SkipExcludesOthers,
    /// `flatten` stands beside `rename`, `from`, `try_from` or `from_fn`.
    FlattenExcludesColumnKeys,
    /// `prefix` stands on a field that is not flattened.
    PrefixRequiresFlatten,
    /// More than one of `from`, `try_from` and `from_fn` is given.
    ConversionsExcludeEachOther,
}

/// The storage class of a column value.
#[derive(Clone, Copy, Debug, PartialEq, Eq, Structural)]
pub enum Storage {
    Null,
    Integer,
    Real,
    Text,
    Blob,
}

/// A failure of generation or of decoding.
#[derive(Clone, Debug, PartialEq, Eq)]
pub enum MappingError {
    /// The row has no column of this name.
    MissingColumn { name: String },
    /// The column holds a value of another storage class than the requested type takes.
    TypeMismatch { name: String, expected: Storage, found: Storage },
    /// The column is null and the requested type takes no null.
    NullOnNonNullable { name: String },
    /// A fallible conversion rejected the decoded value.
    ConversionFailed { name: String, cause: String },
    /// The directives of a field break a rule; nothing is generated.
    DirectiveConflict { field: String, rule: ConflictRule },
    /// The input could not be read as a struct with annotated named fields.
    Syntax { message: String },
    /// The type has not been registered with the capability that is asked of it.
    Unregistered { ty: String },
}

/// A [`MappingError`] with its texts as sequences of characters.
pub enum MappingErrorView {
    MissingColumn { name: Seq<char> },
    TypeMismatch { name: Seq<char>, expected: Storage, found: Storage },
    NullOnNonNullable { name: Seq<char> },
    ConversionFailed { name: Seq<char>, cause: Seq<char> },
    DirectiveConflict { field: Seq<char>, rule: ConflictRule },
    Syntax { message: Seq<char> },
    Unregistered { ty: Seq<char> },
}

impl View for MappingError {
    type V = MappingErrorView;

    open spec fn view(&self) -> MappingErrorView {
        match *self {
            MappingError::MissingColumn { name } => MappingErrorView::MissingColumn { name: name@ },
            MappingError::TypeMismatch { name, expected, found } => MappingErrorView::TypeMismatch {
                name: name@,
                expected,
                found,
            },
            MappingError::NullOnNonNullable { name } => MappingErrorView::NullOnNonNullable {
                name: name@,
            },
            MappingError::ConversionFailed { name, cause } => MappingErrorView::ConversionFailed {
                name: name@,
                cause: cause@,
            },
            MappingError::DirectiveConflict { field, rule } => MappingErrorView::DirectiveConflict {
                field: field@,
                rule,
            },
            MappingError::Syntax { message } => MappingErrorView::Syntax { message: message@ },
            MappingError::Unregistered { ty } => MappingErrorView::Unregistered { ty: ty@ },
        }
    }
}

} // verus!
