use akgine::database::clock::{now, timestamp_from_secs};
use akgine::database::error::DbError;
use akgine::database::value::SqlValue;
use akgine::ia::category::Category;
use akgine::ia::task::Task;
use akgine::ia::todo::{
    all_tasks_query, attach_categories, by_category_query, categories_query, check_category_owner,
    checked_name, checked_title, completed_query, distinct_category_ids, group_by_category,
    pending_query, search_query, uncategorized_query,
};
use akgine::storage::{android_files_dir, package_name};

fn cat(id: i64, name: &str, deleted: bool) -> Category {
    let mut c = Category::new(1, name);
    c.id = id;
    c.deleted = deleted;
    c
}

fn task(id: i64, title: &str, category: Option<i64>) -> Task {
    let mut t = Task::new(1, title);
    t.id = id;
    t.category_id = category;
    t
}

#[test]
fn titles_are_trimmed_and_must_not_be_empty() {
    assert_eq!(checked_title("  Buy milk \n"), Ok("Buy milk"));
    assert_eq!(
        checked_title(" \t "),
        Err(DbError::Validation(String::from("title cannot be empty")))
    );
    assert_eq!(checked_name(" Work"), Ok("Work"));
    assert_eq!(
        checked_name(""),
        Err(DbError::Validation(String::from("name cannot be empty")))
    );
}

#[test]
fn category_must_belong_to_the_user() {
    let c = cat(3, "Work", false);
    assert_eq!(check_category_owner(&c, 1), Ok(()));
    let err = Err(DbError::Validation(String::from("category not found for this user")));
    assert_eq!(check_category_owner(&c, 2), err);
    assert_eq!(check_category_owner(&cat(3, "Work", true), 1), err);
}

#[test]
fn distinct_ids_in_first_order() {
    let tasks = vec![task(1, "a", Some(5)), task(2, "b", None), task(3, "c", Some(2)), task(4, "d", Some(5))];
    assert_eq!(distinct_category_ids(&tasks), vec![5, 2]);
    assert!(distinct_category_ids(&vec![]).is_empty());
}

#[test]
fn tasks_get_their_live_category() {
    let cats = vec![cat(5, "Work", false), cat(2, "Old", true)];
    let tasks = vec![task(1, "a", Some(5)), task(2, "b", Some(2)), task(3, "c", None), task(4, "d", Some(9))];
    let paired = attach_categories(tasks, &cats);
    assert_eq!(paired.len(), 4);
    assert_eq!(paired[0].0.id, 1);
    assert_eq!(paired[0].1.as_ref().map(|c| c.name.clone()), Some(String::from("Work")));
    assert!(paired[1].1.is_none());
    assert!(paired[2].1.is_none());
    assert!(paired[3].1.is_none());
}

#[test]
fn tasks_are_grouped_by_category_name() {
    let cats = vec![cat(5, "Work", false), cat(6, "Home", false)];
    let tasks = vec![
        task(1, "a", Some(6)),
        task(2, "b", None),
        task(3, "c", Some(6)),
        task(4, "d", Some(9)),
        task(5, "e", Some(5)),
    ];
    let groups = group_by_category(&cats, tasks);
    let names: Vec<&str> = groups.iter().map(|g| g.0.as_str()).collect();
    assert_eq!(names, vec!["Home", "Uncategorized", "Work"]);
    let ids: Vec<Vec<i64>> = groups.iter().map(|g| g.1.iter().map(|t| t.id).collect()).collect();
    assert_eq!(ids, vec![vec![1, 3], vec![2, 4], vec![5]]);
    assert!(group_by_category(&cats, vec![]).is_empty());
}

#[test]
fn repository_queries() {
    let (sql, params) = pending_query(1).build_select();
    assert_eq!(
        sql,
        "SELECT \"id\", \"user_id\", \"category_id\", \"title\", \"done\", \"deleted\", \"updated_at\" FROM \"tasks\" WHERE \"user_id\" = ? AND \"done\" = ? AND \"deleted\" = ? ORDER BY \"id\" ASC"
    );
    assert_eq!(params, vec![SqlValue::Integer(1), SqlValue::Integer(0), SqlValue::Integer(0)]);
    let (sql, params) = completed_query(2).build_count();
    assert_eq!(
        sql,
        "SELECT COUNT(*) FROM \"tasks\"  WHERE \"user_id\" = ? AND \"done\" = ? AND \"deleted\" = ?"
    );
    assert_eq!(params, vec![SqlValue::Integer(2), SqlValue::Integer(1), SqlValue::Integer(0)]);
    let (sql, _) = completed_query(2).build_select();
    assert!(sql.ends_with(" ORDER BY \"updated_at\" DESC"));
    let (sql, params) = categories_query(1).build_select();
    assert_eq!(
        sql,
        "SELECT \"id\", \"user_id\", \"name\", \"color\", \"deleted\", \"updated_at\" FROM \"categories\" WHERE \"user_id\" = ? AND \"deleted\" = ? ORDER BY \"name\" ASC"
    );
    assert_eq!(params.len(), 2);
    let (_, params) = by_category_query(1, 7).build_select();
    assert_eq!(params, vec![SqlValue::Integer(1), SqlValue::Integer(7), SqlValue::Integer(0)]);
    let (sql, params) = uncategorized_query(1).build_select();
    assert!(sql.contains("WHERE \"user_id\" = ? AND \"category_id\" IS NULL AND \"deleted\" = ?"));
    assert_eq!(params.len(), 2);
    let (sql, params) = search_query(1, "  milk ").build_select();
    assert!(sql.ends_with("WHERE \"user_id\" = ? AND \"deleted\" = ? AND \"title\" LIKE ?"));
    assert_eq!(params[2], SqlValue::Text(String::from("%milk%")));
    let (_, params) = all_tasks_query(3).build_select();
    assert_eq!(params, vec![SqlValue::Integer(3), SqlValue::Integer(0)]);
}

#[test]
fn package_name_from_cmdline() {
    assert_eq!(package_name(Some("com.app.x\0--flag\0")), "com.app.x");
    assert_eq!(package_name(Some("  spaced \0")), "spaced");
    assert_eq!(package_name(Some("no-nul")), "no-nul");
    assert_eq!(package_name(Some("")), "");
    assert_eq!(package_name(None), "com.example.myrustlife");
}

#[test]
fn timestamps() {
    assert_eq!(timestamp_from_secs(Some(5)), 5);
    assert_eq!(timestamp_from_secs(Some(u64::MAX)), -1);
    assert_eq!(timestamp_from_secs(Some(1u64 << 63)), i64::MIN);
    assert_eq!(timestamp_from_secs(None), 0);
    assert!(now() > 1_600_000_000);
}

#[test]
fn error_messages() {
    assert_eq!(DbError::Sql(String::from("boom")).message(), "SQLite: boom");
    assert_eq!(
        DbError::TypeMismatch { column: String::from("c"), expected: "Integer", found: "Text" }.message(),
        "column 'c': expected Integer, found Text"
    );
    assert_eq!(DbError::ColumnNotFound(String::from("x")).message(), "column not found: 'x'");
    assert_eq!(DbError::InvalidIdentifier(String::from("a b")).message(), "invalid SQL identifier: 'a b'");
    assert_eq!(DbError::NullValue(String::from("?")).message(), "column '?' is NULL");
    assert_eq!(DbError::NotFound.message(), "record not found");
    assert_eq!(DbError::Validation(String::from("v")).message(), "validation: v");
}

#[test]
fn android_files_dir_of_a_package() {
    assert_eq!(android_files_dir("com.app.x"), "/data/data/com.app.x/files");
    assert_eq!(
        android_files_dir(&package_name(None)),
        "/data/data/com.example.myrustlife/files"
    );
}
