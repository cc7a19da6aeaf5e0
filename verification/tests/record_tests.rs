use akgine::database::error::DbError;
use akgine::database::record::{DbRecord, ValueSet};
use akgine::database::value::SqlValue;
use akgine::ia::category::Category;
use akgine::ia::task::Task as CategorizedTask;
use akgine::todo::task::Task;

fn row_of<T: DbRecord>(id: i64, record: &T) -> ValueSet {
    let params = record.to_params();
    let mut values = vec![SqlValue::Integer(id)];
    let mut names = Vec::new();
    for (name, value) in params {
        names.push(name);
        values.push(value);
    }
    ValueSet::new(values, names)
}

#[test]
fn value_set_get_by_name() {
    let v = ValueSet::new(
        vec![SqlValue::Integer(3), SqlValue::Text(String::from("a")), SqlValue::Null],
        vec!["title", "color"],
    );
    assert_eq!(v.get("id"), Ok(&SqlValue::Integer(3)));
    assert_eq!(v.get("title"), Ok(&SqlValue::Text(String::from("a"))));
    assert_eq!(v.get("color"), Ok(&SqlValue::Null));
    assert_eq!(v.get("missing"), Err(DbError::ColumnNotFound(String::from("missing"))));
}

#[test]
fn value_set_short_row() {
    let v = ValueSet::new(vec![], vec!["title"]);
    assert_eq!(v.get("id"), Err(DbError::ColumnNotFound(String::from("id"))));
    assert_eq!(v.get("title"), Err(DbError::ColumnNotFound(String::from("title"))));
}

#[test]
fn typed_reads() {
    let v = ValueSet::new(
        vec![SqlValue::Integer(1), SqlValue::Null, SqlValue::Integer(2), SqlValue::Text(String::from("x"))],
        vec!["a", "b", "c"],
    );
    assert_eq!(v.read_i64("a"), Err(DbError::NullValue(String::from("?"))));
    assert_eq!(v.read_opt_i64("a"), Ok(None));
    assert_eq!(v.read_opt_i64("b"), Ok(Some(2)));
    assert_eq!(v.read_bool("a"), Err(DbError::NullValue(String::from("?"))));
    assert_eq!(v.read_bool("id"), Ok(true));
    assert_eq!(v.read_opt_text("a"), Ok(None));
    assert_eq!(v.read_text("c"), Ok(String::from("x")));
    assert_eq!(
        v.read_text("b"),
        Err(DbError::TypeMismatch { column: String::from("?"), expected: "Text", found: "Integer" })
    );
    assert_eq!(
        v.read_opt_i64("c"),
        Err(DbError::TypeMismatch { column: String::from("?"), expected: "Integer or Null", found: "Text" })
    );
    assert_eq!(v.read_i64("zz"), Err(DbError::ColumnNotFound(String::from("zz"))));
}

#[test]
fn task_is_read_back_as_written() {
    let mut t = Task::new(1, String::from("Buy milk"));
    t.done = true;
    let v = row_of(12, &t);
    let back = Task::from_values(&v).unwrap();
    assert_eq!(back.id, 12);
    assert_eq!(back.user_id, 1);
    assert_eq!(back.title, "Buy milk");
    assert!(back.done);
    assert!(!back.deleted);
}

#[test]
fn task_schema() {
    assert_eq!(Task::table_name(), "tasks");
    let cols = Task::columns();
    let names: Vec<&str> = cols.iter().map(|c| c.name).collect();
    assert_eq!(names, vec!["user_id", "title", "done", "deleted", "updated_at"]);
    assert_eq!(cols[2].default, Some("0"));
    assert_eq!(Task::indexes()[0].columns, &["user_id", "deleted"]);
}

#[test]
fn task_id_and_set_id() {
    let mut t = Task::new(1, String::from("x"));
    assert_eq!(t.id(), None);
    t.set_id(5);
    assert_eq!(t.id(), Some(5));
    assert_eq!(t.title, "x");
}

#[test]
fn task_read_reports_the_first_bad_column() {
    let v = ValueSet::new(
        vec![
            SqlValue::Integer(1),
            SqlValue::Integer(2),
            SqlValue::Integer(3),
            SqlValue::Null,
            SqlValue::Integer(0),
            SqlValue::Integer(0),
        ],
        vec!["user_id", "title", "done", "deleted", "updated_at"],
    );
    assert_eq!(
        Task::from_values(&v).err(),
        Some(DbError::TypeMismatch { column: String::from("?"), expected: "Text", found: "Integer" })
    );
    let v = ValueSet::new(vec![SqlValue::Integer(1)], vec![]);
    assert_eq!(
        Task::from_values(&v).err(),
        Some(DbError::ColumnNotFound(String::from("user_id")))
    );
}

#[test]
fn categorized_task_is_read_back_as_written() {
    let t = CategorizedTask::new(4, "  Read book  ").in_category(9);
    assert_eq!(t.title, "Read book");
    let v = row_of(3, &t);
    let back = CategorizedTask::from_values(&v).unwrap();
    assert_eq!(back.id, 3);
    assert_eq!(back.category_id, Some(9));
    assert_eq!(back.title, "Read book");
    let plain = CategorizedTask::new(4, "x");
    let back = CategorizedTask::from_values(&row_of(1, &plain)).unwrap();
    assert_eq!(back.category_id, None);
    assert_eq!(CategorizedTask::indexes().len(), 2);
    assert_eq!(CategorizedTask::columns()[1].references, Some(("categories", "id")));
}

#[test]
fn category_is_read_back_as_written() {
    let c = Category::new(2, " Work ").with_color("#FF5733");
    assert_eq!(c.name, "Work");
    let back = Category::from_values(&row_of(8, &c)).unwrap();
    assert_eq!(back.id, 8);
    assert_eq!(back.name, "Work");
    assert_eq!(back.color, Some(String::from("#FF5733")));
    let plain = Category::new(2, "Home");
    assert_eq!(Category::from_values(&row_of(1, &plain)).unwrap().color, None);
    assert_eq!(Category::table_name(), "categories");
    assert_eq!(plain.duplicate().name, "Home");
}

#[test]
fn column_order_does_not_matter() {
    let in_order = ValueSet::new(
        vec![
            SqlValue::Integer(4),
            SqlValue::Integer(1),
            SqlValue::Text(String::from("t")),
            SqlValue::Integer(1),
            SqlValue::Integer(0),
            SqlValue::Integer(99),
        ],
        vec!["user_id", "title", "done", "deleted", "updated_at"],
    );
    let shuffled = ValueSet::new(
        vec![
            SqlValue::Integer(4),
            SqlValue::Integer(99),
            SqlValue::Integer(0),
            SqlValue::Text(String::from("t")),
            SqlValue::Integer(1),
            SqlValue::Integer(1),
        ],
        vec!["updated_at", "deleted", "title", "done", "user_id"],
    );
    for name in ["id", "user_id", "title", "done", "deleted", "updated_at", "nope"] {
        assert_eq!(in_order.get(name), shuffled.get(name));
    }
    let a = Task::from_values(&in_order).unwrap();
    let b = Task::from_values(&shuffled).unwrap();
    assert_eq!((a.id, a.user_id, a.title, a.done, a.deleted, a.updated_at), (b.id, b.user_id, b.title, b.done, b.deleted, b.updated_at));
}
