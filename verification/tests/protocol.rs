use rusqlite_from_row::error::{MappingError, MappingErrorView};
use rusqlite_from_row::from_row::{optional, FromRow};
use rusqlite_from_row::row::{ColumnView, Columns, OwnedRow, SqlValue};
use vstd::seq::Seq;
use vstd::view::DeepView;

#[derive(Debug, PartialEq)]
struct Role {
    id: i64,
}

fn name_of(prefix: Option<&str>, column: &str) -> String {
    format!("{}{}", prefix.unwrap_or(""), column)
}

impl DeepView for Role {
    type V = i64;

    fn deep_view(&self) -> i64 {
        unreachable!()
    }
}

impl FromRow for Role {
    fn decoded(_: Seq<ColumnView>, _: Seq<char>) -> Result<i64, MappingErrorView> {
        unreachable!()
    }

    fn absent(_: Seq<ColumnView>, _: Seq<char>) -> Result<bool, MappingErrorView> {
        unreachable!()
    }

    fn try_from_row_prefixed<R: Columns>(
        row: &R,
        prefix: Option<&str>,
    ) -> Result<Self, MappingError> {
        let name = name_of(prefix, "id");
        match row.value_of(&name) {
            Some(SqlValue::Integer(id)) => Ok(Role { id }),
            Some(SqlValue::Null) => Err(MappingError::NullOnNonNullable { name }),
            Some(_) => Err(MappingError::ConversionFailed { name, cause: "no integer".to_string() }),
            None => Err(MappingError::MissingColumn { name }),
        }
    }

    fn is_all_null<R: Columns>(row: &R, prefix: Option<&str>) -> Result<bool, MappingError> {
        let name = name_of(prefix, "id");
        match row.value_of(&name) {
            Some(value) => Ok(value.is_null()),
            None => Err(MappingError::MissingColumn { name }),
        }
    }
}

fn cells(columns: Vec<(&str, SqlValue)>) -> OwnedRow {
    let mut row = OwnedRow::new();
    for (name, value) in columns {
        row.push(name.to_string(), value);
    }
    row
}

#[test]
fn an_optional_value_is_absent_where_all_is_null() {
    let row = cells(vec![("id", SqlValue::Null), ("role_id", SqlValue::Integer(2))]);
    assert_eq!(Option::<Role>::try_from_row_prefixed(&row, None), Ok(None));
    assert_eq!(Option::<Role>::try_from_row(&row), Ok(None));
    assert_eq!(Option::<Role>::is_all_null(&row, None), Ok(true));
    assert_eq!(
        Option::<Role>::try_from_row_prefixed(&row, Some("role_")),
        Ok(Some(Role { id: 2 }))
    );
    assert_eq!(Option::<Role>::is_all_null(&row, Some("role_")), Ok(false));
    assert_eq!(Option::<Role>::from_row(&row), None);
    assert_eq!(Option::<Role>::from_row_prefixed(&row, Some("role_")), Some(Role { id: 2 }));
    assert_eq!(Role::from_row_prefixed(&row, Some("role_")), Role { id: 2 });
}

#[test]
fn an_optional_value_hands_failures_on() {
    let row = cells(vec![("id", SqlValue::text("x"))]);
    assert_eq!(
        Option::<Role>::try_from_row_prefixed(&row, Some("role_")),
        Err(MappingError::MissingColumn { name: "role_id".to_string() })
    );
    assert_eq!(
        Option::<Role>::is_all_null(&row, Some("role_")),
        Err(MappingError::MissingColumn { name: "role_id".to_string() })
    );
    assert_eq!(
        Option::<Role>::try_from_row(&row),
        Err(MappingError::ConversionFailed { name: "id".to_string(), cause: "no integer".to_string() })
    );
    assert_eq!(
        Option::<Option<Role>>::try_from_row(&cells(vec![("id", SqlValue::Null)])),
        Ok(None)
    );
    assert_eq!(
        Option::<Option<Role>>::try_from_row(&cells(vec![("id", SqlValue::Integer(1))])),
        Ok(Some(Some(Role { id: 1 })))
    );
}

#[test]
fn an_optional_value_is_decoded_only_where_it_is_present() {
    let failure = MappingError::MissingColumn { name: "id".to_string() };
    assert_eq!(optional(Ok(true), || -> Result<i64, MappingError> { panic!("decoded") }), Ok(None));
    assert_eq!(
        optional(Err(failure.clone()), || -> Result<i64, MappingError> { panic!("decoded") }),
        Err(failure.clone())
    );
    assert_eq!(optional(Ok(false), || Ok(7i64)), Ok(Some(7)));
    assert_eq!(optional(Ok(false), || Err::<i64, _>(failure.clone())), Err(failure));
}
