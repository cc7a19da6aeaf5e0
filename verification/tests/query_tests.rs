use akgine::database::column::{ColType, Column};
use akgine::database::query::{build_where, Dir, Direction, Filter, QueryBuilder};
use akgine::database::value::SqlValue;

fn params_of(f: &Filter) -> Vec<SqlValue> {
    let mut out = Vec::new();
    f.push_params(&mut out);
    out
}

fn marks(s: &str) -> usize {
    s.chars().filter(|c| *c == '?').count()
}

#[test]
fn eq_filter_is_a_bound_comparison() {
    let f = Filter::eq("title", 5i64);
    assert_eq!(f.to_sql(), "\"title\" = ?");
    assert_eq!(params_of(&f), vec![SqlValue::Integer(5)]);
}

#[test]
fn invalid_column_gives_an_empty_filter() {
    let f = Filter::eq("bad name", 1i64);
    assert!(matches!(f, Filter::Empty));
    assert_eq!(f.to_sql(), "");
    assert!(params_of(&f).is_empty());
    assert!(matches!(Filter::like("1abc", String::from("%x%")), Filter::Empty));
    assert!(matches!(Filter::null(""), Filter::Empty));
}

#[test]
fn each_operator_has_its_sql() {
    assert_eq!(Filter::neq("a", 1i64).to_sql(), "\"a\" != ?");
    assert_eq!(Filter::gt("a", 1i64).to_sql(), "\"a\" > ?");
    assert_eq!(Filter::gte("a", 1i64).to_sql(), "\"a\" >= ?");
    assert_eq!(Filter::lt("a", 1i64).to_sql(), "\"a\" < ?");
    assert_eq!(Filter::lte("a", 1i64).to_sql(), "\"a\" <= ?");
    let like = Filter::like("title", String::from("%milk%"));
    assert_eq!(like.to_sql(), "\"title\" LIKE ?");
    assert_eq!(params_of(&like), vec![SqlValue::Text(String::from("%milk%"))]);
    let null = Filter::null("category_id");
    assert_eq!(null.to_sql(), "\"category_id\" IS NULL");
    assert!(params_of(&null).is_empty());
    assert_eq!(Filter::notNull("category_id").to_sql(), "\"category_id\" IS NOT NULL");
}

#[test]
fn bool_values_are_stored_as_integers() {
    assert_eq!(params_of(&Filter::eq("done", true)), vec![SqlValue::Integer(1)]);
    assert_eq!(params_of(&Filter::eq("done", false)), vec![SqlValue::Integer(0)]);
    assert_eq!(params_of(&Filter::eq("n", 7i32)), vec![SqlValue::Integer(7)]);
    assert_eq!(params_of(&Filter::eq("n", 7u32)), vec![SqlValue::Integer(7)]);
    assert_eq!(params_of(&Filter::eq("c", None::<i64>)), vec![SqlValue::Null]);
}

#[test]
fn in_list_has_one_placeholder_per_value() {
    let f = Filter::in_list("category_id", vec![1i64, 3, 7]);
    assert_eq!(f.to_sql(), "\"category_id\" IN (?, ?, ?)");
    assert_eq!(
        params_of(&f),
        vec![SqlValue::Integer(1), SqlValue::Integer(3), SqlValue::Integer(7)]
    );
}

#[test]
fn empty_in_list_matches_no_row() {
    let f = Filter::in_list::<i64>("category_id", vec![]);
    assert_eq!(f.to_sql(), "\"id\" = ?");
    assert_eq!(params_of(&f), vec![SqlValue::Integer(-1)]);
    assert!(matches!(Filter::in_list::<i64>("bad col", vec![]), Filter::Empty));
}

#[test]
fn nested_and_or() {
    let f = Filter::and(vec![
        Filter::eq("a", 1i64),
        Filter::or(vec![Filter::eq("b", 2i64), Filter::null("c")]),
        Filter::Empty,
    ]);
    assert_eq!(f.to_sql(), "(\"a\" = ? AND (\"b\" = ? OR \"c\" IS NULL))");
    assert_eq!(params_of(&f), vec![SqlValue::Integer(1), SqlValue::Integer(2)]);
}

#[test]
fn single_and_empty_groups() {
    assert_eq!(Filter::and(vec![Filter::eq("a", 1i64)]).to_sql(), "\"a\" = ?");
    assert_eq!(Filter::and(vec![]).to_sql(), "");
    assert_eq!(Filter::or(vec![Filter::Empty, Filter::Empty]).to_sql(), "");
    assert_eq!(
        Filter::or(vec![Filter::Empty, Filter::gt("x", 2i64)]).to_sql(),
        "\"x\" > ?"
    );
}

#[test]
fn where_clause() {
    let (sql, params) = build_where(&vec![]);
    assert_eq!(sql, "");
    assert!(params.is_empty());
    let (sql, params) = build_where(&vec![
        Filter::eq("a", 1i64),
        Filter::Empty,
        Filter::like("b", String::from("x%")),
    ]);
    assert_eq!(sql, " WHERE \"a\" = ? AND \"b\" LIKE ?");
    assert_eq!(params, vec![SqlValue::Integer(1), SqlValue::Text(String::from("x%"))]);
    let (sql, params) = build_where(&vec![Filter::Empty]);
    assert_eq!(sql, "");
    assert!(params.is_empty());
    let (sql, params) = build_where(&vec![Filter::eq("bad-col", 1i64), Filter::and(vec![])]);
    assert_eq!(sql, "");
    assert!(params.is_empty());
    let (sql, _) = QueryBuilder::new("t", vec![]).where_eq("bad-col", 1i64).build_count();
    assert_eq!(sql, "SELECT COUNT(*) FROM \"t\" ");
}

#[test]
fn select_statement() {
    let q = QueryBuilder::new("tasks", vec![Column::new("title", ColType::Text)])
        .where_eq("user_id", 1i64)
        .where_eq("deleted", false)
        .order_by("id", Direction::Asc)
        .order_by("bad col", Dir::Desc)
        .limit(20)
        .offset(5);
    let (sql, params) = q.build_select();
    assert_eq!(
        sql,
        "SELECT \"id\", \"title\" FROM \"tasks\" WHERE \"user_id\" = ? AND \"deleted\" = ? ORDER BY \"id\" ASC LIMIT 20 OFFSET 5"
    );
    assert_eq!(params, vec![SqlValue::Integer(1), SqlValue::Integer(0)]);
    assert_eq!(q.column_names(), vec!["title"]);
}

#[test]
fn select_without_filters_orders_or_limit() {
    let q = QueryBuilder::new("t", vec![]);
    let (sql, params) = q.build_select();
    assert_eq!(sql, "SELECT \"id\" FROM \"t\"");
    assert!(params.is_empty());
}

#[test]
fn offset_alone_is_left_out_and_negative_limits_are_kept() {
    let (sql, _) = QueryBuilder::new("t", vec![]).offset(3).build_select();
    assert_eq!(sql, "SELECT \"id\" FROM \"t\"");
    let (sql, _) = QueryBuilder::new("t", vec![]).limit(-1).build_select();
    assert_eq!(sql, "SELECT \"id\" FROM \"t\" LIMIT -1");
    let (sql, _) = QueryBuilder::new("t", vec![])
        .order_by("a", Direction::Desc)
        .order_by("b", Direction::Asc)
        .build_select();
    assert_eq!(sql, "SELECT \"id\" FROM \"t\" ORDER BY \"a\" DESC, \"b\" ASC");
}

#[test]
fn count_statement_ignores_order_and_limit() {
    let q = QueryBuilder::new("tasks", vec![])
        .where_eq("done", false)
        .order_by("id", Direction::Asc)
        .limit(3);
    let (sql, params) = q.build_count();
    assert_eq!(sql, "SELECT COUNT(*) FROM \"tasks\"  WHERE \"done\" = ?");
    assert_eq!(params, vec![SqlValue::Integer(0)]);
    let (sql, _) = QueryBuilder::new("tasks", vec![]).build_count();
    assert_eq!(sql, "SELECT COUNT(*) FROM \"tasks\" ");
}

#[test]
fn every_value_is_bound_to_one_mark() {
    let q = QueryBuilder::new("tasks", vec![Column::new("title", ColType::Text)])
        .where_eq("user_id", 1i64)
        .where_in("id", vec![4i64, 5, 6])
        .where_filter(Filter::or(vec![
            Filter::like("title", String::from("%a%")),
            Filter::notNull("title"),
            Filter::in_list::<i64>("x", vec![]),
        ]))
        .where_null("category_id")
        .order_by("id", Direction::Desc)
        .limit(2);
    let (sql, params) = q.build_select();
    assert_eq!(marks(&sql), params.len());
    assert_eq!(params.len(), 6);
    let (sql, params) = q.build_count();
    assert_eq!(marks(&sql), params.len());
}

#[test]
fn direction_keywords() {
    assert_eq!(Direction::Asc.as_sql(), "ASC");
    assert_eq!(Direction::Desc.as_sql(), "DESC");
}

#[test]
fn builder_where_helpers() {
    let (sql, params) = QueryBuilder::new("t", vec![])
        .where_neq("a", 1i64)
        .where_gt("b", 2i64)
        .where_gte("c", 3i64)
        .where_lt("d", 4i64)
        .where_lte("e", 5i64)
        .where_like("f", String::from("g"))
        .where_not_null("h")
        .build_select();
    assert_eq!(
        sql,
        "SELECT \"id\" FROM \"t\" WHERE \"a\" != ? AND \"b\" > ? AND \"c\" >= ? AND \"d\" < ? AND \"e\" <= ? AND \"f\" LIKE ? AND \"h\" IS NOT NULL"
    );
    assert_eq!(params.len(), 6);
}

#[test]
fn each_mark_takes_the_value_of_its_filter() {
    let (sql, params) = build_where(&vec![
        Filter::eq("a", 1i64),
        Filter::in_list("b", vec![2i64, 3]),
        Filter::or(vec![Filter::null("c"), Filter::lt("d", 4i64)]),
    ]);
    assert_eq!(sql, " WHERE \"a\" = ? AND \"b\" IN (?, ?) AND (\"c\" IS NULL OR \"d\" < ?)");
    assert_eq!(marks(&sql), params.len());
    // The text before each mark names the filter whose value that mark takes.
    let pieces: Vec<&str> = sql.split('?').collect();
    assert!(pieces[0].ends_with("\"a\" = "));
    assert!(pieces[1].ends_with("\"b\" IN ("));
    assert!(pieces[2].ends_with(", "));
    assert!(pieces[3].ends_with("\"d\" < "));
    assert_eq!(
        params,
        vec![
            SqlValue::Integer(1),
            SqlValue::Integer(2),
            SqlValue::Integer(3),
            SqlValue::Integer(4)
        ]
    );
}
