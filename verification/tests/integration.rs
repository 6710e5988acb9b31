use std::path::PathBuf;

use rusqlite::Connection;
use rusqlite_from_row::decode::Schema;
use rusqlite_from_row::derive::{derive_from_row, Mapping};
use rusqlite_from_row::directive::Convert;
use rusqlite_from_row::error::Storage;
use rusqlite_from_row::plan::Extract;
use rusqlite_from_row::row::SqlValue;
use rusqlite_from_row::value::Value;

const TASK: &str = r#"
    #[derive(Debug, FromRow)]
    pub struct Todo {
        id: i32,
        text: String,
        #[from_row(flatten, prefix = "author_")]
        author: User,
        #[from_row(flatten, prefix)]
        editor: User,
        #[from_row(flatten, default)]
        status: Status,
        #[from_row(default)]
        views: i32,
        #[from_row(from_fn = "<PathBuf as From<String>>::from")]
        file: PathBuf,
        #[from_row(skip)]
        empty: PhantomData<()>,
    }
"#;

const STATUS: &str = r#"
    #[derive(Debug, FromRow, PartialEq, Eq, Default)]
    pub struct Status {
        is_done: bool,
    }
"#;

const USER: &str = r#"
    #[derive(Debug, FromRow)]
    #[allow(dead_code)]
    pub struct User {
        id: i32,
        name: String,
        #[from_row(flatten, prefix = "role_")]
        role: Option<Role>,
    }
"#;

const ROLE: &str = r#"
    #[derive(Debug, FromRow)]
    pub struct Role {
        id: i32,
        kind: String,
    }
"#;

/// The text that `mapping` holds for the declared type of the field `name`.
fn declared(mapping: &Mapping, name: &str) -> String {
    let init = mapping.fields.iter().find(|init| init.ident == name).expect("no such field");
    match &init.extract {
        Extract::Default { ty } | Extract::Nested { ty, .. } | Extract::Column { ty, .. } => {
            ty.clone()
        }
    }
}

fn schema() -> Schema {
    let mut schema = Schema::new();
    schema.scalar("i32", Storage::Integer, false);
    schema.scalar("bool", Storage::Integer, false);
    schema.scalar("String", Storage::Text, false);
    schema.register(derive_from_row(ROLE).unwrap()).unwrap();
    let user = derive_from_row(USER).unwrap();
    schema.optional(&declared(&user, "role"), "Role").unwrap();
    schema.register(user).unwrap();
    schema.register(derive_from_row(STATUS).unwrap()).unwrap();
    schema.register(derive_from_row(TASK).unwrap()).unwrap();
    schema
}

fn field<'a>(record: &'a Value, name: &str) -> &'a Value {
    match record {
        Value::Record { fields, .. } => {
            &fields.iter().find(|(ident, _)| ident == name).expect("no such field").1
        }
        other => panic!("not a record: {:?}", other),
    }
}

fn integer(value: i32) -> Value {
    Value::Column(SqlValue::Integer(value as i64))
}

#[test]
fn from_row() {
    let connection = Connection::open_in_memory().unwrap();

    connection
        .execute_batch(
            "

            CREATE TABLE role (
                id INTEGER PRIMARY KEY,
                kind TEXT NOT NULL
            );

            CREATE TABLE user (
                id INTEGER PRIMARY KEY,
                name TEXT NOT NULL,
                role_id INTEGER NULL REFERENCES role(id)
            );

            CREATE TABLE status (
                id INTEGER PRIMARY KEY,
                is_done BOOL NOT NULL
            );

            CREATE TABLE todo (
                id INTEGER PRIMARY KEY, 
                text TEXT NOT NULL, 
                author_id INTEGER NOT NULL REFERENCES user(id),
                editor_id INTEGER NOT NULL REFERENCES user(id),
                views INTEGER NULL DEFAULT NULL,
                status_id INTEGER NULL REFERENCES status(id),
                file TEXT NOT NULL
            );
            ",
        )
        .unwrap();

    let role_id: i32 = connection
        .prepare("INSERT INTO role(kind) VALUES ('admin') RETURNING id")
        .unwrap()
        .query_row([], |r| r.get(0))
        .unwrap();

    let user_ids = connection
        .prepare("INSERT INTO user(name, role_id) VALUES ('john', ?1), ('jack', null) RETURNING id")
        .unwrap()
        .query_map([role_id], |r| r.get(0))
        .unwrap()
        .collect::<Result<Vec<i32>, _>>()
        .unwrap();

    let todo_id: i32 = connection
        .prepare(
            "INSERT INTO todo(text, author_id, editor_id, file) VALUES ('laundry', ?1, ?2, 'foo/bar.txt') RETURNING id",
        )
        .unwrap()
        .query_row([user_ids[0], user_ids[1]], |r| r.get(0))
        .unwrap();

    let schema = schema();
    let todo = connection
        .query_row(
            "
            SELECT 
                t.id, 
                t.text, 
                t.views,
                t.file,
                a.id as author_id, 
                a.name as author_name,
                ar.id as author_role_id,
                ar.kind as author_role_kind,
                e.id as editor_id,
                e.name as editor_name,
                er.id as editor_role_id,
                er.kind as editor_role_kind,
                st.is_done as is_done
            FROM 
                todo t 
            JOIN user a ON 
                a.id = t.author_id 
            LEFT JOIN role ar ON 
                a.role_id = ar.id
            JOIN user e ON 
                e.id = t.editor_id
            LEFT JOIN role er ON 
                e.role_id = er.id
            LEFT JOIN status st ON
                t.status_id = st.id
            WHERE 
                t.id = ?1",
            [todo_id],
            |row| Ok(schema.try_from_row("Todo", row)),
        )
        .unwrap()
        .unwrap();

    assert_eq!(field(&todo, "id"), &integer(todo_id));
    assert_eq!(field(&todo, "text"), &Value::Column(SqlValue::text("laundry")));
    assert_eq!(field(&todo, "status"), &Value::Default { ty: "Status".to_string() });
    assert_eq!(field(&todo, "views"), &Value::Default { ty: "i32".to_string() });
    match field(&todo, "file") {
        Value::Converted { convert: Convert::FromFn(_), ty, value } => {
            assert_eq!(ty, "PathBuf");
            match &**value {
                Value::Column(SqlValue::Text(bytes)) => {
                    let text = String::from_utf8(bytes.clone()).unwrap();
                    assert_eq!(text, "foo/bar.txt");
                    let file = PathBuf::from(text);
                    assert_eq!(file.file_name().and_then(|name| name.to_str()), Some("bar.txt"));
                }
                other => panic!("not a text: {:?}", other),
            }
        }
        other => panic!("not converted: {:?}", other),
    }
    let empty = declared(&derive_from_row(TASK).unwrap(), "empty");
    assert_eq!(field(&todo, "empty"), &Value::Default { ty: empty });

    let author = field(&todo, "author");
    assert_eq!(field(author, "id"), &integer(user_ids[0]));
    assert_eq!(field(author, "name"), &Value::Column(SqlValue::text("john")));
    match field(author, "role") {
        Value::Present(role) => {
            assert_eq!(field(role, "id"), &integer(role_id));
            assert_eq!(field(role, "kind"), &Value::Column(SqlValue::text("admin")));
        }
        other => panic!("the author has a role: {:?}", other),
    }
    let editor = field(&todo, "editor");
    assert_eq!(field(editor, "name"), &Value::Column(SqlValue::text("jack")));
    assert_eq!(field(editor, "role"), &Value::Absent);
}
