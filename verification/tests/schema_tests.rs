use akgine::database::column::{ColType, Column, IndexDef, OnDelete};
use akgine::database::error::DbError;
use akgine::database::ident::{quote_ident, validate_identifier};
use akgine::database::schema::{
    build_create_indexes, build_create_table, build_select_cols, column_names, ensure_table_sql,
};
use akgine::database::value::SqlValue;

fn task_columns() -> Vec<Column> {
    vec![
        Column::new("user_id", ColType::Integer).not_null(),
        Column::new("title", ColType::Text).not_null(),
        Column::new("done", ColType::Integer).not_null().default("0"),
    ]
}

#[test]
fn identifiers_are_quoted_with_doubled_quotes() {
    assert_eq!(quote_ident("title"), "\"title\"");
    assert_eq!(quote_ident("a\"b"), "\"a\"\"b\"");
    assert_eq!(quote_ident(""), "\"\"");
}

#[test]
fn identifier_validation() {
    assert_eq!(validate_identifier("user_id"), Ok(()));
    assert_eq!(validate_identifier("_x9"), Ok(()));
    assert_eq!(validate_identifier("9x"), Err(DbError::InvalidIdentifier(String::from("9x"))));
    assert_eq!(validate_identifier(""), Err(DbError::InvalidIdentifier(String::new())));
    assert_eq!(
        validate_identifier("a;DROP"),
        Err(DbError::InvalidIdentifier(String::from("a;DROP")))
    );
}

#[test]
fn column_fragments() {
    assert_eq!(
        Column::new("done", ColType::Integer).not_null().default("0").to_sql_fragment(),
        "\"done\" INTEGER NOT NULL DEFAULT 0"
    );
    assert_eq!(
        Column::new("category_id", ColType::Integer)
            .references("categories", "id")
            .on_delete(OnDelete::SetNull)
            .to_sql_fragment(),
        "\"category_id\" INTEGER REFERENCES \"categories\"(\"id\") ON DELETE SET NULL"
    );
    assert_eq!(Column::new("r", ColType::Real).to_sql_fragment(), "\"r\" REAL");
    assert_eq!(OnDelete::Cascade.as_sql(), "CASCADE");
    assert_eq!(OnDelete::Restrict.as_sql(), "RESTRICT");
    assert_eq!(OnDelete::NoAction.as_sql(), "NO ACTION");
}

#[test]
fn create_table_statement() {
    assert_eq!(
        build_create_table("tasks", &task_columns()),
        Ok(String::from(
            "CREATE TABLE IF NOT EXISTS \"tasks\" (\n    \"id\" INTEGER PRIMARY KEY AUTOINCREMENT,\n    \"user_id\" INTEGER NOT NULL,\n    \"title\" TEXT NOT NULL,\n    \"done\" INTEGER NOT NULL DEFAULT 0\n);"
        ))
    );
    let bad = vec![Column::new("ok", ColType::Text), Column::new("no good", ColType::Text)];
    assert_eq!(
        build_create_table("t", &bad),
        Err(DbError::InvalidIdentifier(String::from("no good")))
    );
}

#[test]
fn create_index_statements() {
    let idx = vec![IndexDef::new(&["user_id", "deleted"]), IndexDef::new(&["title"]).unique()];
    assert_eq!(
        build_create_indexes("tasks", &idx),
        Ok(vec![
            String::from("CREATE INDEX IF NOT EXISTS \"idx_tasks_user_id_deleted\" ON \"tasks\" (\"user_id\", \"deleted\");"),
            String::from("CREATE UNIQUE INDEX IF NOT EXISTS \"uidx_tasks_title\" ON \"tasks\" (\"title\");"),
        ])
    );
    assert_eq!(
        build_create_indexes("tasks", &vec![IndexDef::new(&["a-b"])]),
        Err(DbError::InvalidIdentifier(String::from("a-b")))
    );
}

#[test]
fn ensure_table_batch() {
    let sql = ensure_table_sql("t", &vec![Column::new("a", ColType::Text)], &vec![IndexDef::new(&["a"])]).unwrap();
    assert_eq!(
        sql,
        "BEGIN;\nCREATE TABLE IF NOT EXISTS \"t\" (\n    \"id\" INTEGER PRIMARY KEY AUTOINCREMENT,\n    \"a\" TEXT\n);\nCREATE INDEX IF NOT EXISTS \"idx_t_a\" ON \"t\" (\"a\");\nCOMMIT;"
    );
    assert_eq!(
        ensure_table_sql("bad table", &vec![], &vec![]),
        Err(DbError::InvalidIdentifier(String::from("bad table")))
    );
}

#[test]
fn select_columns() {
    assert_eq!(build_select_cols(&task_columns()), "\"id\", \"user_id\", \"title\", \"done\"");
    assert_eq!(build_select_cols(&vec![]), "\"id\"");
    assert_eq!(column_names(&task_columns()), vec!["user_id", "title", "done"]);
}

#[test]
fn sql_values() {
    assert_eq!(SqlValue::Integer(3).as_i64(), Ok(3));
    assert_eq!(SqlValue::Integer(0).as_bool(), Ok(false));
    assert_eq!(SqlValue::Integer(-4).as_bool(), Ok(true));
    assert_eq!(SqlValue::Null.as_i64(), Err(DbError::NullValue(String::from("?"))));
    assert_eq!(
        SqlValue::Real(0).as_i64(),
        Err(DbError::TypeMismatch { column: String::from("?"), expected: "Integer", found: "Real" })
    );
    assert_eq!(SqlValue::Text(String::from("t")).as_text(), Ok(String::from("t")));
    assert_eq!(SqlValue::Null.as_opt_text(), Ok(None));
    assert_eq!(SqlValue::Integer(9).as_opt_i64(), Ok(Some(9)));
    assert_eq!(SqlValue::Text(String::new()).type_label(), "Text");
    assert_eq!(SqlValue::Null.type_label(), "Null");
    assert_eq!(SqlValue::from(Some(String::from("x"))), SqlValue::Text(String::from("x")));
    assert_eq!(SqlValue::from(None::<String>), SqlValue::Null);
    assert_eq!(SqlValue::Integer(2).duplicate(), SqlValue::Integer(2));
}

#[test]
fn written_values_read_back() {
    assert_eq!(SqlValue::from(-7i64).as_i64(), Ok(-7));
    assert_eq!(SqlValue::from(true).as_bool(), Ok(true));
    assert_eq!(SqlValue::from(false).as_bool(), Ok(false));
    assert_eq!(SqlValue::from(String::from("txt")).as_text(), Ok(String::from("txt")));
    assert_eq!(SqlValue::from(Some(3i64)).as_opt_i64(), Ok(Some(3)));
    assert_eq!(SqlValue::from(None::<i64>).as_opt_i64(), Ok(None));
    assert_eq!(SqlValue::from(None::<String>).as_opt_text(), Ok(None));
    assert_eq!(SqlValue::from(12u32).as_i64(), Ok(12));
    assert_eq!(SqlValue::from(-12i32).as_i64(), Ok(-12));
}

#[test]
fn distinct_names_have_distinct_quoted_forms() {
    let names = ["a", "a\"", "a\"\"", "\"a", "a b", ""];
    for (i, x) in names.iter().enumerate() {
        for (j, y) in names.iter().enumerate() {
            assert_eq!(quote_ident(x) == quote_ident(y), i == j);
        }
    }
}
