use rusqlite::Connection;
use rusqlite_from_row::error::Storage;
use rusqlite_from_row::row::{copy_bytes, lower, names_match, Columns, OwnedRow, SqlValue};

#[test]
fn ascii_letters_are_lowered_and_nothing_else() {
    assert_eq!(lower(b'A'), b'a');
    assert_eq!(lower(b'Z'), b'z');
    assert_eq!(lower(b'a'), b'a');
    assert_eq!(lower(b'@'), b'@');
    assert_eq!(lower(b'['), b'[');
    assert_eq!(lower(0xc4), 0xc4);
    for byte in 0..=255u8 {
        assert_eq!(lower(byte), byte.to_ascii_lowercase());
    }
}

#[test]
fn names_match_up_to_ascii_case() {
    assert!(names_match("author_id", "author_id"));
    assert!(names_match("Author_ID", "aUTHOR_id"));
    assert!(names_match("", ""));
    assert!(!names_match("author_id", "author_i"));
    assert!(!names_match("author_id", "author-id"));
    assert!(!names_match("ä", "Ä"));
    assert!(names_match("ÄB", "Äb"));
    for (a, b) in [("x", "X"), ("x", "y"), ("[", "{"), ("@", "`"), ("é", "É")] {
        assert_eq!(names_match(a, b), a.eq_ignore_ascii_case(b));
    }
}

#[test]
fn the_first_column_of_a_name_is_found() {
    let mut row = OwnedRow::new();
    assert_eq!(row.get_ref("id"), None);
    row.push("id".to_string(), SqlValue::Integer(1));
    row.push("name".to_string(), SqlValue::text("john"));
    row.push("ID".to_string(), SqlValue::Integer(2));
    assert_eq!(row.get_ref("id"), Some(&SqlValue::Integer(1)));
    assert_eq!(row.get_ref("Id"), Some(&SqlValue::Integer(1)));
    assert_eq!(row.get_ref("NAME"), Some(&SqlValue::text("john")));
    assert_eq!(row.get_ref("nam"), None);
    assert_eq!(row.value_of("name"), Some(SqlValue::text("john")));
    assert_eq!(row.value_of("none"), None);
    assert_eq!(row.columns.len(), 3);
}

#[test]
fn values_know_their_storage_class() {
    assert_eq!(SqlValue::Null.storage(), Storage::Null);
    assert_eq!(SqlValue::Integer(0).storage(), Storage::Integer);
    assert_eq!(SqlValue::Real(0).storage(), Storage::Real);
    assert_eq!(SqlValue::text("").storage(), Storage::Text);
    assert_eq!(SqlValue::Blob(vec![]).storage(), Storage::Blob);
    assert!(SqlValue::Null.is_null());
    assert!(!SqlValue::Integer(0).is_null());
    assert!(!SqlValue::text("").is_null());
}

#[test]
fn a_text_is_held_as_its_bytes() {
    assert_eq!(SqlValue::text("aé"), SqlValue::Text(vec![0x61, 0xc3, 0xa9]));
    assert_eq!(SqlValue::text(""), SqlValue::Text(vec![]));
}

#[test]
fn copies_are_equal() {
    let values = vec![
        SqlValue::Null,
        SqlValue::Integer(-3),
        SqlValue::Real(1.5f64.to_bits()),
        SqlValue::text("john"),
        SqlValue::Blob(vec![0, 255, 7]),
    ];
    for value in values {
        assert_eq!(value.duplicate(), value);
    }
    assert_eq!(copy_bytes(&vec![1, 2, 3]), vec![1, 2, 3]);
    assert_eq!(copy_bytes(&vec![]), Vec::<u8>::new());
}

#[test]
fn a_database_row_hands_out_its_values_by_name() {
    let connection = Connection::open_in_memory().unwrap();
    let seen = connection
        .query_row(
            "SELECT 7 AS id, 'john' AS Name, NULL AS role, 1.5 AS score, x'00ff' AS raw, 8 AS ID",
            [],
            |row| {
                Ok(vec![
                    row.value_of("id"),
                    row.value_of("name"),
                    row.value_of("ROLE"),
                    row.value_of("score"),
                    row.value_of("raw"),
                    row.value_of("missing"),
                ])
            },
        )
        .unwrap();
    assert_eq!(
        seen,
        vec![
            Some(SqlValue::Integer(7)),
            Some(SqlValue::text("john")),
            Some(SqlValue::Null),
            Some(SqlValue::Real(1.5f64.to_bits())),
            Some(SqlValue::Blob(vec![0, 255])),
            None,
        ]
    );
}
