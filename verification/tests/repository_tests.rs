use akgine::database::column::{ColType, Column};
use akgine::database::error::DbError;
use akgine::database::repository::{
    build_hard_delete, build_insert, build_soft_delete, build_update, find_many_query, find_query,
    generate_insert_query, validate_params,
};
use akgine::database::value::SqlValue;

fn sample_params() -> Vec<(&'static str, SqlValue)> {
    vec![
        ("user_id", SqlValue::Integer(1)),
        ("title", SqlValue::Text(String::from("Buy milk"))),
    ]
}

#[test]
fn insert_parts() {
    let (cols, placeholders, values) = generate_insert_query(&sample_params());
    assert_eq!(cols, "\"user_id\", \"title\"");
    assert_eq!(placeholders, "?, ?");
    assert_eq!(
        values,
        vec![SqlValue::Integer(1), SqlValue::Text(String::from("Buy milk"))]
    );
}

#[test]
fn insert_statement() {
    let (sql, values) = build_insert("tasks", &sample_params());
    assert_eq!(sql, "INSERT INTO \"tasks\" (\"user_id\", \"title\") VALUES (?, ?)");
    assert_eq!(values.len(), 2);
    let (sql, values) = build_insert("t", &vec![]);
    assert_eq!(sql, "INSERT INTO \"t\" () VALUES ()");
    assert!(values.is_empty());
}

#[test]
fn update_statement_binds_the_id_last() {
    let (sql, values) = build_update("tasks", &sample_params(), 42);
    assert_eq!(sql, "UPDATE \"tasks\" SET \"user_id\" = ?, \"title\" = ? WHERE \"id\" = ?");
    assert_eq!(
        values,
        vec![
            SqlValue::Integer(1),
            SqlValue::Text(String::from("Buy milk")),
            SqlValue::Integer(42)
        ]
    );
    assert_eq!(sql.chars().filter(|c| *c == '?').count(), values.len());
}

#[test]
fn delete_statements() {
    assert_eq!(build_soft_delete("tasks"), "UPDATE \"tasks\" SET \"deleted\" = 1 WHERE \"id\" = ?");
    assert_eq!(build_hard_delete("tasks"), "DELETE FROM \"tasks\" WHERE \"id\" = ?");
}

#[test]
fn table_names_are_escaped() {
    assert_eq!(build_hard_delete("a\"b"), "DELETE FROM \"a\"\"b\" WHERE \"id\" = ?");
}

#[test]
fn params_validation() {
    assert_eq!(validate_params(&sample_params()), Ok(()));
    let bad = vec![
        ("ok", SqlValue::Null),
        ("bad-col", SqlValue::Null),
        ("also bad", SqlValue::Null),
    ];
    assert_eq!(
        validate_params(&bad),
        Err(DbError::InvalidIdentifier(String::from("bad-col")))
    );
}

#[test]
fn find_reads_one_row_by_id() {
    let q = find_query("tasks", vec![Column::new("title", ColType::Text)], 7);
    let (sql, params) = q.build_select();
    assert_eq!(sql, "SELECT \"id\", \"title\" FROM \"tasks\" WHERE \"id\" = ? LIMIT 1");
    assert_eq!(params, vec![SqlValue::Integer(7)]);
}

#[test]
fn find_many_reads_rows_by_ids() {
    assert!(find_many_query("tasks", vec![], &vec![]).is_none());
    let q = find_many_query("tasks", vec![], &vec![3, 9]).unwrap();
    let (sql, params) = q.build_select();
    assert_eq!(sql, "SELECT \"id\" FROM \"tasks\" WHERE \"id\" IN (?, ?)");
    assert_eq!(params, vec![SqlValue::Integer(3), SqlValue::Integer(9)]);
}
