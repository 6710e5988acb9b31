//! The mapping protocol: what a type offers that can be decoded from a row.
use vstd::prelude::*;
use crate::decode::prefix_text;
use crate::error::{MappingError, MappingErrorView};
use crate::row::{ColumnView, Columns};

verus! {

/// A type that can be decoded from a row and probed for absence.
///
/// Both operations are functions of the row and the prefix alone:
/// [`decoded`](FromRow::decoded) and [`absent`](FromRow::absent) say what
/// they return, over the deep view of the type.
pub trait FromRow: Sized + DeepView {
    /// What `row` decodes to behind `prefix`.
    spec fn decoded(row: Seq<ColumnView>, prefix: Seq<char>) -> Result<
        <Self as DeepView>::V,
        MappingErrorView,
    >;

    /// Whether every column that the type needs behind `prefix` is null.
    spec fn absent(row: Seq<ColumnView>, prefix: Seq<char>) -> Result<bool, MappingErrorView>;

    /// Decodes a row that is known to decode, without a prefix.
    fn from_row<R: Columns>(row: &R) -> (value: Self)
        requires
            Self::decoded(row.columns(), Seq::empty()) is Ok,
        ensures
            Self::decoded(row.columns(), Seq::empty()) == Ok::<_, MappingErrorView>(
                value.deep_view(),
            ),
    {
        Self::from_row_prefixed(row, None)
    }

    /// Decodes a row without a prefix.
    fn try_from_row<R: Columns>(row: &R) -> (r: Result<Self, MappingError>)
        ensures
            match r {
                Ok(value) => Self::decoded(row.columns(), Seq::empty()) == Ok::<
                    _,
                    MappingErrorView,
                >(value.deep_view()),
                Err(e) => Self::decoded(row.columns(), Seq::empty()) == Err::<
                    <Self as DeepView>::V,
                    _,
                >(e@),
            },
    {
        Self::try_from_row_prefixed(row, None)
    }

    /// Decodes a row that is known to decode, each column addressed behind `prefix`.
    fn from_row_prefixed<R: Columns>(row: &R, prefix: Option<&str>) -> (value: Self)
        requires
            Self::decoded(row.columns(), prefix_text(prefix)) is Ok,
        ensures
            Self::decoded(row.columns(), prefix_text(prefix)) == Ok::<_, MappingErrorView>(
                value.deep_view(),
            ),
    {
        match Self::try_from_row_prefixed(row, prefix) {
            Ok(value) => value,
            Err(_) => vstd::pervasive::unreached(),
        }
    }

    /// Decodes a row, each column addressed behind `prefix`.
    fn try_from_row_prefixed<R: Columns>(row: &R, prefix: Option<&str>) -> (r: Result<
        Self,
        MappingError,
    >)
        ensures
            match r {
                Ok(value) => Self::decoded(row.columns(), prefix_text(prefix)) == Ok::<
                    _,
                    MappingErrorView,
                >(value.deep_view()),
                Err(e) => Self::decoded(row.columns(), prefix_text(prefix)) == Err::<
                    <Self as DeepView>::V,
                    _,
                >(e@),
            },
    ;

    /// Tells whether every column that the type needs behind `prefix` is null.
    fn is_all_null<R: Columns>(row: &R, prefix: Option<&str>) -> (r: Result<bool, MappingError>)
        ensures
            match r {
                Ok(flag) => Self::absent(row.columns(), prefix_text(prefix)) == Ok::<
                    _,
                    MappingErrorView,
                >(flag),
                Err(e) => Self::absent(row.columns(), prefix_text(prefix)) == Err::<bool, _>(e@),
            },
    ;
}

/// An optional value is absent where the probe of its type finds every
/// column null, and is the decoded value otherwise; its probe is the probe
/// of its type.
impl<T: FromRow> FromRow for Option<T> {
    open spec fn decoded(row: Seq<ColumnView>, prefix: Seq<char>) -> Result<
        Option<<T as DeepView>::V>,
        MappingErrorView,
    > {
        match T::absent(row, prefix) {
            Err(e) => Err(e),
            Ok(true) => Ok(None),
            Ok(false) => match T::decoded(row, prefix) {
                Ok(value) => Ok(Some(value)),
                Err(e) => Err(e),
            },
        }
    }

    open spec fn absent(row: Seq<ColumnView>, prefix: Seq<char>) -> Result<bool, MappingErrorView> {
        T::absent(row, prefix)
    }

    fn try_from_row_prefixed<R: Columns>(row: &R, prefix: Option<&str>) -> (r: Result<
        Self,
        MappingError,
    >) {
        if T::is_all_null(row, prefix)? {
            Ok(None)
        } else {
            Ok(Some(T::try_from_row_prefixed(row, prefix)?))
        }
    }

    fn is_all_null<R: Columns>(row: &R, prefix: Option<&str>) -> (r: Result<bool, MappingError>) {
        T::is_all_null(row, prefix)
    }
}

/// Decodes an optional value from the outcome of its type's probe: a failed
/// probe is the failure, an absent value is `None` without any decoding, and
/// a present value is what `decode` gives.
pub fn optional<T, F: FnOnce() -> Result<T, MappingError>>(
    absent: Result<bool, MappingError>,
    decode: F,
) -> (r: Result<Option<T>, MappingError>)
    requires
        absent == Ok::<bool, MappingError>(false) ==> call_requires(decode, ()),
    ensures
        match absent {
            Err(e) => r == Err::<Option<T>, MappingError>(e),
            Ok(true) => r == Ok::<Option<T>, MappingError>(None),
            Ok(false) => exists|decoded: Result<T, MappingError>|
                #[trigger] call_ensures(decode, (), decoded) && r == (match decoded {
                    Ok(value) => Ok(Some(value)),
                    Err(e) => Err(e),
                }),
        },
{
    match absent {
        Err(e) => Err(e),
        Ok(true) => Ok(None),
        Ok(false) => {
            let decoded = decode();
            match decoded {
                Ok(value) => Ok(Some(value)),
                Err(e) => Err(e),
            }
        },
    }
}

} // verus!
