use quote::ToTokens;
use rusqlite_from_row::decode::{joined, Schema};
use rusqlite_from_row::derive::{derive_from_row, Mapping};
use rusqlite_from_row::directive::Convert;
use rusqlite_from_row::error::{MappingError, Storage};
use rusqlite_from_row::plan::{ChildPrefix, Extract, FieldInit, Predicate, Probe};
use rusqlite_from_row::row::{OwnedRow, SqlValue};
use rusqlite_from_row::value::Value;

fn text(s: &str) -> String {
    s.to_string()
}

/// The text that a mapping holds for the type `ty`.
fn printed(ty: &str) -> String {
    syn::parse_str::<syn::Type>(ty).unwrap().to_token_stream().to_string()
}

fn cells(columns: Vec<(&str, SqlValue)>) -> OwnedRow {
    let mut row = OwnedRow::new();
    for (name, value) in columns {
        row.push(text(name), value);
    }
    row
}

fn integer(i: i64) -> SqlValue {
    SqlValue::Integer(i)
}

fn words(s: &str) -> SqlValue {
    SqlValue::text(s)
}

fn scalars() -> Schema {
    let mut schema = Schema::new();
    schema.scalar("i32", Storage::Integer, false);
    schema.scalar("String", Storage::Text, false);
    schema.scalar(&printed("Option<i32>"), Storage::Integer, true);
    schema
}

fn register(schema: &mut Schema, source: &str) {
    schema.register(derive_from_row(source).unwrap()).unwrap();
}

const USER: &str = "struct User { id: i32, name: String }";

fn todo_schema(author: &str) -> Schema {
    let mut schema = scalars();
    register(&mut schema, USER);
    let todo = format!("struct Todo {{ id: i32, text: String, {} author: User }}", author);
    register(&mut schema, &todo);
    schema
}

fn record(ty: &str, fields: Vec<(&str, Value)>) -> Value {
    Value::Record {
        ty: text(ty),
        fields: fields.into_iter().map(|(name, value)| (text(name), value)).collect(),
    }
}

fn column(value: SqlValue) -> Value {
    Value::Column(value)
}

fn missing(name: &str) -> MappingError {
    MappingError::MissingColumn { name: text(name) }
}

fn null_on(name: &str) -> MappingError {
    MappingError::NullOnNonNullable { name: text(name) }
}

fn unregistered(ty: &str) -> MappingError {
    MappingError::Unregistered { ty: text(ty) }
}

#[test]
fn a_todo_with_its_author_is_decoded() {
    let schema = todo_schema("#[from_row(flatten, prefix = \"author_\")]");
    let row = cells(vec![
        ("id", integer(1)),
        ("text", words("laundry")),
        ("author_id", integer(7)),
        ("author_name", words("john")),
    ]);
    let expected = record(
        "Todo",
        vec![
            ("id", column(integer(1))),
            ("text", column(words("laundry"))),
            (
                "author",
                record("User", vec![("id", column(integer(7))), ("name", column(words("john")))]),
            ),
        ],
    );
    assert_eq!(schema.decode("Todo", &row, None), Ok(expected));
    assert_eq!(schema.is_absent("Todo", &row, None), Ok(false));
}

#[test]
fn an_absent_author_with_default_is_the_default_user() {
    let schema = todo_schema("#[from_row(flatten, prefix = \"author_\", default)]");
    let row = cells(vec![
        ("id", integer(1)),
        ("text", words("laundry")),
        ("author_id", SqlValue::Null),
        ("author_name", SqlValue::Null),
    ]);
    let expected = record(
        "Todo",
        vec![
            ("id", column(integer(1))),
            ("text", column(words("laundry"))),
            ("author", Value::Default { ty: text("User") }),
        ],
    );
    assert_eq!(schema.decode("Todo", &row, None), Ok(expected));
}

#[test]
fn an_absent_author_without_default_fails() {
    let schema = todo_schema("#[from_row(flatten, prefix = \"author_\")]");
    let row = cells(vec![
        ("id", integer(1)),
        ("text", words("laundry")),
        ("author_id", SqlValue::Null),
        ("author_name", SqlValue::Null),
    ]);
    assert_eq!(schema.decode("Todo", &row, None), Err(null_on("author_id")));
}

#[test]
fn a_partly_present_author_with_default_is_decoded_not_defaulted() {
    let schema = todo_schema("#[from_row(flatten, prefix = \"author_\", default)]");
    let row = cells(vec![
        ("id", integer(1)),
        ("text", words("laundry")),
        ("author_id", SqlValue::Null),
        ("author_name", words("john")),
    ]);
    assert_eq!(schema.decode("Todo", &row, None), Err(null_on("author_id")));
}

#[test]
fn plain_fields_decode_where_every_column_is_there_and_fits() {
    let mut schema = scalars();
    register(&mut schema, USER);
    let full = cells(vec![("name", words("john")), ("extra", integer(0)), ("id", integer(7))]);
    assert_eq!(
        schema.decode("User", &full, None),
        Ok(record("User", vec![("id", column(integer(7))), ("name", column(words("john")))]))
    );
    let no_name = cells(vec![("id", integer(7))]);
    assert_eq!(schema.decode("User", &no_name, None), Err(missing("name")));
    let no_id = cells(vec![("name", words("john"))]);
    assert_eq!(schema.decode("User", &no_id, None), Err(missing("id")));
    let wrong = cells(vec![("id", words("7")), ("name", words("john"))]);
    assert_eq!(
        schema.decode("User", &wrong, None),
        Err(MappingError::TypeMismatch {
            name: text("id"),
            expected: Storage::Integer,
            found: Storage::Text
        })
    );
    let null = cells(vec![("id", integer(7)), ("name", SqlValue::Null)]);
    assert_eq!(schema.decode("User", &null, None), Err(null_on("name")));
}

#[test]
fn the_first_failing_field_decides_the_failure() {
    let mut schema = scalars();
    register(&mut schema, USER);
    let both_bad = cells(vec![("id", SqlValue::Null)]);
    assert_eq!(schema.decode("User", &both_bad, None), Err(null_on("id")));
    let empty = cells(vec![]);
    assert_eq!(schema.decode("User", &empty, None), Err(missing("id")));
}

#[test]
fn a_prefix_stands_before_every_column_name() {
    let mut schema = scalars();
    register(&mut schema, USER);
    let row = cells(vec![
        ("id", integer(1)),
        ("name", words("wrong")),
        ("author_id", integer(7)),
        ("author_name", words("john")),
    ]);
    assert_eq!(
        schema.decode("User", &row, Some("author_")),
        Ok(record("User", vec![("id", column(integer(7))), ("name", column(words("john")))]))
    );
    assert_eq!(schema.decode("User", &row, Some("editor_")), Err(missing("editor_id")));
    assert_eq!(schema.decode("User", &row, Some("")), schema.decode("User", &row, None));
    assert_eq!(schema.try_from_row("User", &row), schema.decode("User", &row, None));
}

#[test]
fn prefixes_compose_through_nested_structs() {
    let mut schema = scalars();
    register(&mut schema, "struct Role { id: i32 }");
    register(&mut schema, "struct User { id: i32, #[from_row(flatten, prefix)] role: Role }");
    register(
        &mut schema,
        "struct Todo {
            #[from_row(flatten, prefix = \"ed_\")] editor: User,
            #[from_row(flatten)] same: Role,
        }",
    );
    let row = cells(vec![("id", integer(3)), ("t_id", integer(4)), ("t_ed_id", integer(1)), ("t_ed_role_id", integer(2))]);
    let expected = record(
        "Todo",
        vec![
            (
                "editor",
                record(
                    "User",
                    vec![("id", column(integer(1))), ("role", record("Role", vec![("id", column(integer(2)))]))],
                ),
            ),
            ("same", record("Role", vec![("id", column(integer(4)))])),
        ],
    );
    assert_eq!(schema.decode("Todo", &row, Some("t_")), Ok(expected));
}

#[test]
fn column_names_match_up_to_ascii_case_and_the_first_match_counts() {
    let mut schema = scalars();
    register(&mut schema, "struct S { id: i32 }");
    let row = cells(vec![("other", integer(0)), ("ID", integer(1)), ("id", integer(2))]);
    assert_eq!(schema.decode("S", &row, None), Ok(record("S", vec![("id", column(integer(1)))])));
}

#[test]
fn a_default_column_takes_the_default_on_null_only() {
    let mut schema = scalars();
    register(&mut schema, "struct S { #[from_row(default)] views: i32 }");
    let null = cells(vec![("views", SqlValue::Null)]);
    assert_eq!(
        schema.decode("S", &null, None),
        Ok(record("S", vec![("views", Value::Default { ty: text("i32") })]))
    );
    let set = cells(vec![("views", integer(5))]);
    assert_eq!(schema.decode("S", &set, None), Ok(record("S", vec![("views", column(integer(5)))])));
    let absent = cells(vec![]);
    assert_eq!(schema.decode("S", &absent, None), Err(missing("views")));
    let wrong = cells(vec![("views", words("5"))]);
    assert_eq!(
        schema.decode("S", &wrong, None),
        Err(MappingError::TypeMismatch {
            name: text("views"),
            expected: Storage::Integer,
            found: Storage::Text
        })
    );
}

#[test]
fn a_nullable_column_takes_null() {
    let mut schema = scalars();
    register(&mut schema, "struct S { views: Option<i32> }");
    let null = cells(vec![("views", SqlValue::Null)]);
    assert_eq!(
        schema.decode("S", &null, None),
        Ok(record("S", vec![("views", column(SqlValue::Null))]))
    );
    let set = cells(vec![("views", integer(5))]);
    assert_eq!(schema.decode("S", &set, None), Ok(record("S", vec![("views", column(integer(5)))])));
}

#[test]
fn a_renamed_column_is_read_under_its_new_name() {
    let mut schema = scalars();
    register(&mut schema, "struct S { #[from_row(rename = \"ident\")] id: i32 }");
    let row = cells(vec![("id", integer(1)), ("p_ident", integer(2))]);
    assert_eq!(schema.decode("S", &row, Some("p_")), Ok(record("S", vec![("id", column(integer(2)))])));
    assert_eq!(schema.decode("S", &row, None), Err(missing("ident")));
}

#[test]
fn conversions_are_put_on_the_decoded_value() {
    let mut schema = scalars();
    register(
        &mut schema,
        "struct S {
            #[from_row(from = \"i32\")] a: Id,
            #[from_row(try_from = \"String\")] b: Name,
            #[from_row(from_fn = \"make\")] c: Made,
            #[from_row(from_fn = \"make\", default)] d: Made,
        }",
    );
    let row = cells(vec![
        ("a", integer(1)),
        ("b", words("x")),
        ("c", SqlValue::Blob(vec![1, 2])),
        ("d", SqlValue::Null),
    ]);
    let converted = |convert: Convert, ty: &str, value: Value| Value::Converted {
        convert,
        ty: text(ty),
        value: Box::new(value),
    };
    let expected = record(
        "S",
        vec![
            ("a", converted(Convert::From(text("i32")), "Id", column(integer(1)))),
            ("b", converted(Convert::TryFrom(text("String")), "Name", column(words("x")))),
            (
                "c",
                converted(Convert::FromFn(text("make")), "Made", column(SqlValue::Blob(vec![1, 2]))),
            ),
            (
                "d",
                converted(Convert::FromFn(text("make")), "Made", Value::Default { ty: text("_") }),
            ),
        ],
    );
    assert_eq!(schema.decode("S", &row, None), Ok(expected));
    let wrong = cells(vec![("a", words("1"))]);
    assert!(matches!(
        schema.decode("S", &wrong, None),
        Err(MappingError::TypeMismatch { expected: Storage::Integer, found: Storage::Text, .. })
    ));
}

#[test]
fn skipped_fields_never_touch_the_row() {
    let mut schema = scalars();
    register(&mut schema, "struct S { id: i32, #[from_row(skip)] cache: Cache }");
    let with = cells(vec![("id", integer(1)), ("cache", words("x"))]);
    let without = cells(vec![("id", integer(1))]);
    let expected =
        record("S", vec![("id", column(integer(1))), ("cache", Value::Default { ty: text("Cache") })]);
    assert_eq!(schema.decode("S", &with, None), Ok(expected));
    assert_eq!(schema.decode("S", &with, None), schema.decode("S", &without, None));
    assert_eq!(schema.is_absent("S", &without, None), Ok(false));
    let null = cells(vec![("id", SqlValue::Null)]);
    assert_eq!(schema.is_absent("S", &null, None), Ok(true));
}

#[test]
fn a_struct_of_skipped_fields_decodes_from_any_row() {
    let mut schema = Schema::new();
    register(&mut schema, "struct S { #[from_row(skip)] a: A, #[from_row(skip)] b: B }");
    let expected =
        record("S", vec![("a", Value::Default { ty: text("A") }), ("b", Value::Default { ty: text("B") })]);
    assert_eq!(schema.decode("S", &cells(vec![]), Some("p_")), Ok(expected));
    assert_eq!(schema.is_absent("S", &cells(vec![]), None), Ok(true));
}

#[test]
fn the_probe_is_a_strict_conjunction() {
    let schema = todo_schema("#[from_row(flatten, prefix = \"author_\")]");
    let names = ["id", "text", "author_id", "author_name"];
    let all_null = cells(names.iter().map(|name| (*name, SqlValue::Null)).collect());
    assert_eq!(schema.is_absent("Todo", &all_null, None), Ok(true));
    for flipped in names {
        let one_set = cells(
            names
                .iter()
                .map(|name| (*name, if *name == flipped { integer(1) } else { SqlValue::Null }))
                .collect(),
        );
        assert_eq!(schema.is_absent("Todo", &one_set, None), Ok(false));
    }
    let mut unread = cells(names.iter().map(|name| (*name, SqlValue::Null)).collect());
    unread.push(text("other"), integer(1));
    assert_eq!(schema.is_absent("Todo", &unread, None), Ok(true));
}

#[test]
fn the_probe_stops_at_the_first_value_or_failure() {
    let mut schema = scalars();
    register(&mut schema, USER);
    let value_first = cells(vec![("id", integer(1))]);
    assert_eq!(schema.is_absent("User", &value_first, None), Ok(false));
    let null_first = cells(vec![("id", SqlValue::Null)]);
    assert_eq!(schema.is_absent("User", &null_first, None), Err(missing("name")));
    assert_eq!(schema.is_absent("User", &cells(vec![]), Some("x_")), Err(missing("x_id")));
}

#[test]
fn an_optional_struct_is_absent_or_present() {
    let mut schema = scalars();
    register(&mut schema, "struct Role { id: i32, kind: String }");
    schema.optional(&printed("Option<Role>"), "Role").unwrap();
    register(
        &mut schema,
        "struct User { id: i32, #[from_row(flatten, prefix = \"role_\")] role: Option<Role> }",
    );
    let without = cells(vec![("id", integer(1)), ("role_id", SqlValue::Null), ("role_kind", SqlValue::Null)]);
    assert_eq!(
        schema.decode("User", &without, None),
        Ok(record("User", vec![("id", column(integer(1))), ("role", Value::Absent)]))
    );
    let with = cells(vec![("id", integer(1)), ("role_id", integer(2)), ("role_kind", words("admin"))]);
    let role = record("Role", vec![("id", column(integer(2))), ("kind", column(words("admin")))]);
    assert_eq!(
        schema.decode("User", &with, None),
        Ok(record("User", vec![("id", column(integer(1))), ("role", Value::Present(Box::new(role)))]))
    );
    let partial = cells(vec![("id", integer(1)), ("role_id", integer(2)), ("role_kind", SqlValue::Null)]);
    assert_eq!(schema.decode("User", &partial, None), Err(null_on("role_kind")));
    assert_eq!(schema.is_absent(&printed("Option<Role>"), &without, Some("role_")), Ok(true));
    assert_eq!(schema.is_absent(&printed("Option<Role>"), &with, Some("role_")), Ok(false));
    assert_eq!(schema.decode(&printed("Option<Role>"), &without, Some("role_")), Ok(Value::Absent));
    let no_columns = cells(vec![("id", integer(1))]);
    assert_eq!(schema.decode("User", &no_columns, None), Err(missing("role_id")));
}

#[test]
fn decoding_twice_gives_the_same() {
    let schema = todo_schema("#[from_row(flatten, prefix = \"author_\")]");
    let good = cells(vec![
        ("id", integer(1)),
        ("text", words("laundry")),
        ("author_id", integer(7)),
        ("author_name", words("john")),
    ]);
    assert_eq!(schema.decode("Todo", &good, None), schema.decode("Todo", &good, None));
    let bad = cells(vec![("id", integer(1))]);
    assert_eq!(schema.decode("Todo", &bad, None), schema.decode("Todo", &bad, None));
    assert_eq!(schema.is_absent("Todo", &good, None), schema.is_absent("Todo", &good, None));
}

#[test]
fn rows_that_decode_can_be_decoded_without_a_result() {
    let mut schema = scalars();
    register(&mut schema, USER);
    let row = cells(vec![("id", integer(7)), ("name", words("john")), ("a_id", integer(8)), ("a_name", words("jack"))]);
    assert_eq!(
        schema.from_row("User", &row),
        record("User", vec![("id", column(integer(7))), ("name", column(words("john")))])
    );
    assert_eq!(
        schema.from_row_prefixed("User", &row, Some("a_")),
        record("User", vec![("id", column(integer(8))), ("name", column(words("jack")))])
    );
}

#[test]
fn types_must_be_registered_before_they_are_needed() {
    let mut schema = Schema::new();
    assert_eq!(schema.decode("User", &cells(vec![]), None), Err(unregistered("User")));
    assert_eq!(schema.is_absent("User", &cells(vec![]), None), Err(unregistered("User")));
    let user = derive_from_row(USER).unwrap();
    assert_eq!(schema.unmet(&user), Some(text("i32")));
    assert_eq!(schema.register(user), Err(unregistered("i32")));
    assert_eq!(schema.len(), 0);
    schema.scalar("i32", Storage::Integer, false);
    assert_eq!(schema.register(derive_from_row(USER).unwrap()), Err(unregistered("String")));
    schema.scalar("String", Storage::Text, false);
    assert_eq!(schema.unmet(&derive_from_row(USER).unwrap()), None);
    assert_eq!(schema.register(derive_from_row(USER).unwrap()), Ok(()));
    assert_eq!(schema.len(), 3);
    assert!(schema.has_scalar("i32") && !schema.has_mapping("i32"));
    assert!(schema.has_mapping("User") && !schema.has_scalar("User"));
    assert!(!schema.has_mapping("Todo") && !schema.has_scalar("Todo"));
    assert_eq!(schema.find("String"), Some(1));
    assert_eq!(schema.find("Todo"), None);
    assert_eq!(schema.find("User"), Some(2));
}

#[test]
fn nested_types_must_have_a_mapping() {
    let mut schema = scalars();
    let todo = "struct Todo { #[from_row(flatten)] author: User }";
    assert_eq!(schema.register(derive_from_row(todo).unwrap()), Err(unregistered("User")));
    let on_scalar = "struct Todo { #[from_row(flatten)] author: i32 }";
    assert_eq!(schema.register(derive_from_row(on_scalar).unwrap()), Err(unregistered("i32")));
    let on_struct = "struct Todo { author: User }";
    register(&mut schema, USER);
    assert_eq!(schema.register(derive_from_row(on_struct).unwrap()), Err(unregistered("User")));
    assert_eq!(schema.optional(&printed("Option<Role>"), "Role"), Err(unregistered("Role")));
    assert_eq!(schema.optional(&printed("Option<i32>"), "i32"), Err(unregistered("i32")));
    assert_eq!(schema.optional(&printed("Option<User>"), "User"), Ok(()));
    assert_eq!(schema.optional(&printed("Option<Option<User>>"), &printed("Option<User>")), Ok(()));
    assert_eq!(schema.decode("i32", &cells(vec![]), None), Err(unregistered("i32")));
    assert_eq!(schema.is_absent("i32", &cells(vec![]), None), Err(unregistered("i32")));
}

#[test]
fn a_struct_cannot_be_nested_in_itself() {
    let mut schema = scalars();
    let list = "struct List { head: i32, #[from_row(flatten, prefix)] tail: Option<List> }";
    assert_eq!(schema.optional(&printed("Option<List>"), "List"), Err(unregistered("List")));
    assert_eq!(
        schema.register(derive_from_row(list).unwrap()),
        Err(unregistered(&printed("Option<List>")))
    );
}

#[test]
fn a_mapping_made_by_hand_is_checked_part_by_part() {
    let mut schema = scalars();
    let mapping = |predicates: Vec<Predicate>, fields: Vec<FieldInit>, probes: Vec<Probe>| Mapping {
        ident: text("S"),
        predicates,
        fields,
        probes,
    };
    let nested = Extract::Nested { ty: text("B"), prefix: ChildPrefix::Inherited, default: false };
    let probe = Probe::Nested { ty: text("C"), prefix: ChildPrefix::Inherited };
    let all = mapping(
        vec![Predicate::Default { ty: text("Z") }, Predicate::FromRow { ty: text("A") }],
        vec![FieldInit { ident: text("b"), extract: nested.clone() }],
        vec![probe.clone()],
    );
    assert_eq!(schema.unmet(&all), Some(text("A")));
    let no_predicates =
        mapping(vec![], vec![FieldInit { ident: text("b"), extract: nested }], vec![probe.clone()]);
    assert_eq!(schema.unmet(&no_predicates), Some(text("B")));
    let only_probes = mapping(vec![], vec![], vec![Probe::Column { name: text("x") }, probe]);
    assert_eq!(schema.unmet(&only_probes), Some(text("C")));
    assert_eq!(schema.unmet(&mapping(vec![], vec![], vec![])), None);
}

#[test]
fn the_first_entry_of_a_name_stays() {
    let mut schema = Schema::new();
    register(&mut schema, "struct A { #[from_row(skip)] a: Unit }");
    schema.scalar("A", Storage::Integer, false);
    assert!(schema.has_mapping("A") && !schema.has_scalar("A"));
    assert_eq!(schema.find("A"), Some(0));
    assert_eq!(
        schema.decode("A", &cells(vec![]), None),
        Ok(record("A", vec![("a", Value::Default { ty: text("Unit") })]))
    );
}

#[test]
fn texts_are_joined_in_order() {
    assert_eq!(joined("author_", "id"), "author_id");
    assert_eq!(joined("", "id"), "id");
    assert_eq!(joined("a", ""), "a");
}

fn host(convert: &Convert, ty: &str, value: Value) -> Result<Value, String> {
    match (convert, value) {
        (Convert::From(_), Value::Column(SqlValue::Integer(i))) => {
            Ok(Value::Column(SqlValue::text(&format!("{}#{}", ty, i))))
        }
        (Convert::TryFrom(_), Value::Column(SqlValue::Integer(i))) if i >= 0 => {
            Ok(Value::Column(SqlValue::Integer(i + 1)))
        }
        (Convert::TryFrom(source), _) => Err(format!("no {} from {}", ty, source)),
        (Convert::FromFn(path), value) => {
            Ok(Value::Record { ty: text(path), fields: vec![(text("made"), value)] })
        }
        (_, other) => Ok(other),
    }
}

const CONVERTED: &str = "struct S {
    #[from_row(from = \"i32\")] a: Id,
    #[from_row(try_from = \"i32\")] b: Age,
    #[from_row(from_fn = \"make\", default)] c: Made,
    d: i32,
}";

#[test]
fn the_host_makes_the_conversions() {
    let mut schema = scalars();
    register(&mut schema, CONVERTED);
    let row = cells(vec![
        ("p_a", integer(1)),
        ("p_b", integer(41)),
        ("p_c", SqlValue::Null),
        ("p_d", integer(4)),
    ]);
    let expected = record(
        "S",
        vec![
            ("a", column(words("Id#1"))),
            ("b", column(integer(42))),
            ("c", record("make", vec![("made", Value::Default { ty: text("_") })])),
            ("d", column(integer(4))),
        ],
    );
    assert_eq!(schema.decode_with("S", &row, Some("p_"), &host), Ok(expected));
}

#[test]
fn a_failed_conversion_fails_the_decoding_at_its_field() {
    let mut schema = scalars();
    register(&mut schema, CONVERTED);
    let failure = MappingError::ConversionFailed { name: text("p_b"), cause: text("no Age from i32") };
    let negative = cells(vec![
        ("p_a", integer(1)),
        ("p_b", integer(-1)),
        ("p_c", SqlValue::Null),
        ("p_d", integer(4)),
    ]);
    assert_eq!(schema.decode_with("S", &negative, Some("p_"), &host), Err(failure.clone()));
    let later_column_missing = cells(vec![("p_a", integer(1)), ("p_b", integer(-1))]);
    assert_eq!(schema.decode_with("S", &later_column_missing, Some("p_"), &host), Err(failure));
    let earlier_column_missing = cells(vec![("p_b", integer(-1))]);
    assert_eq!(
        schema.decode_with("S", &earlier_column_missing, Some("p_"), &host),
        Err(missing("p_a"))
    );
    let undecodable = cells(vec![("p_a", integer(1)), ("p_b", words("x"))]);
    assert_eq!(
        schema.decode_with("S", &undecodable, Some("p_"), &host),
        Err(MappingError::TypeMismatch {
            name: text("p_b"),
            expected: Storage::Integer,
            found: Storage::Text
        })
    );
}

#[test]
fn conversions_reach_nested_structs() {
    let mut schema = scalars();
    register(&mut schema, "struct Inner { #[from_row(try_from = \"i32\")] age: Age }");
    schema.optional(&printed("Option<Inner>"), "Inner").unwrap();
    register(
        &mut schema,
        "struct Outer {
            #[from_row(flatten, prefix)] one: Inner,
            #[from_row(flatten, prefix)] two: Option<Inner>,
            #[from_row(flatten, prefix, default)] three: Inner,
        }",
    );
    let row = cells(vec![("one_age", integer(1)), ("two_age", integer(2)), ("three_age", integer(3))]);
    let inner = |age: i64| record("Inner", vec![("age", column(integer(age)))]);
    assert_eq!(
        schema.decode_with("Outer", &row, None, &host),
        Ok(record(
            "Outer",
            vec![
                ("one", inner(2)),
                ("two", Value::Present(Box::new(inner(3)))),
                ("three", inner(4)),
            ]
        ))
    );
    let failing = cells(vec![("one_age", integer(1)), ("two_age", integer(2)), ("three_age", integer(-3))]);
    assert_eq!(
        schema.decode_with("Outer", &failing, None, &host),
        Err(MappingError::ConversionFailed {
            name: text("three_age"),
            cause: text("no Age from i32")
        })
    );
    assert_eq!(schema.decode_with("Nothing", &row, None, &host), Err(unregistered("Nothing")));
}

#[test]
fn without_conversions_the_host_is_not_needed() {
    let mut schema = scalars();
    register(&mut schema, USER);
    let row = cells(vec![("id", integer(7)), ("name", words("john"))]);
    assert_eq!(schema.decode_with("User", &row, None, &host), schema.decode("User", &row, None));
}
