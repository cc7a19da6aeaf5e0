// SQL of the write and read operations of a repository: each statement names its table and
// columns quoted, and binds every value to a `?`.
use vstd::prelude::*;

use crate::database::column::Column;
use crate::database::error::DbError;
use crate::database::ident::{quote_ident, quoted, valid_identifier, validate_identifier};
use crate::database::query::{
    count_marks, lemma_count_concat, lemma_count_free, lemma_join_marks, lemma_quoted_marks,
    mark_free, placeholders, sum_marks, vals, QueryBuilder,
};
use crate::database::schema::all_valid;
use crate::database::value::{SqlVal, SqlValue};
use crate::text::{join_exec, join_with, lemma_views_push, views};

verus! {

/// The column names of the pairs.
pub open spec fn param_names(params: Seq<(&'static str, SqlValue)>) -> Seq<Seq<char>> {
    params.map_values(|p: (&'static str, SqlValue)| p.0@)
}

/// The values of the pairs.
pub open spec fn param_values(params: Seq<(&'static str, SqlValue)>) -> Seq<SqlVal> {
    params.map_values(|p: (&'static str, SqlValue)| p.1@)
}

/// The quoted column names separated by `, `.
pub open spec fn insert_cols_sql(names: Seq<Seq<char>>) -> Seq<char> {
    join_with(names.map_values(|n: Seq<char>| quoted(n)), ", "@)
}

/// `n` placeholders separated by `, `.
pub open spec fn placeholder_sql(n: nat) -> Seq<char> {
    join_with(placeholders(n), ", "@)
}

/// `INSERT INTO "table" ("col1", "col2") VALUES (?, ?)`
pub open spec fn insert_sql(table: Seq<char>, names: Seq<Seq<char>>) -> Seq<char> {
    "INSERT INTO "@ + quoted(table) + " ("@ + insert_cols_sql(names) + ") VALUES ("@
        + placeholder_sql(names.len()) + ")"@
}

/// `"col" = ?`
pub open spec fn set_clause(name: Seq<char>) -> Seq<char> {
    quoted(name) + " = ?"@
}

/// `UPDATE "table" SET "col1" = ?, "col2" = ? WHERE "id" = ?`
pub open spec fn update_sql(table: Seq<char>, names: Seq<Seq<char>>) -> Seq<char> {
    "UPDATE "@ + quoted(table) + " SET "@ + join_with(
        names.map_values(|n: Seq<char>| set_clause(n)),
        ", "@,
    ) + " WHERE "@ + quoted("id"@) + " = ?"@
}

/// `UPDATE "table" SET "deleted" = 1 WHERE "id" = ?`
pub open spec fn soft_delete_sql(table: Seq<char>) -> Seq<char> {
    "UPDATE "@ + quoted(table) + " SET "@ + quoted("deleted"@) + " = 1 WHERE "@ + quoted("id"@)
        + " = ?"@
}

/// `DELETE FROM "table" WHERE "id" = ?`
pub open spec fn hard_delete_sql(table: Seq<char>) -> Seq<char> {
    "DELETE FROM "@ + quoted(table) + " WHERE "@ + quoted("id"@) + " = ?"@
}

/// Checks that every column name of the pairs is a valid identifier; reports the first that
/// is not.
pub fn validate_params(params: &Vec<(&'static str, SqlValue)>) -> (res: Result<(), DbError>)
    ensures
        res is Ok <==> all_valid(param_names(params@)),
        res matches Err(e) ==> exists|i: int|
            {
                &&& 0 <= i < params@.len()
                &&& !valid_identifier(#[trigger] param_names(params@)[i])
                &&& forall|j: int| 0 <= j < i ==> valid_identifier(param_names(params@)[j])
                &&& e matches DbError::InvalidIdentifier(n) && n@ == param_names(params@)[i]
            },
{
    let ghost names = param_names(params@);
    let n: usize = params.len();
    let mut i: usize = 0;
    while i < n
        invariant
            n == params@.len(),
            names == param_names(params@),
            i <= n,
            forall|j: int| 0 <= j < i ==> valid_identifier(#[trigger] names[j]),
        decreases n - i,
    {
        match validate_identifier(params[i].0) {
            Ok(()) => {},
            Err(e) => {
                assert(names[i as int] == params@[i as int].0@);
                return Err(e);
            },
        }
        i = i + 1;
    }
    Ok(())
}

/// Copies the values of the pairs, in order.
fn param_value_list(params: &Vec<(&'static str, SqlValue)>) -> (res: Vec<SqlValue>)
    ensures
        vals(res@) == param_values(params@),
{
    let mut res: Vec<SqlValue> = Vec::new();
    let n: usize = params.len();
    let mut i: usize = 0;
    while i < n
        invariant
            n == params@.len(),
            i <= n,
            vals(res@) =~= param_values(params@).take(i as int),
        decreases n - i,
    {
        let ghost before = res@;
        res.push(params[i].1.duplicate());
        assert(vals(res@) =~= vals(before).push(params@[i as int].1@));
        i = i + 1;
    }
    assert(param_values(params@).take(n as int) =~= param_values(params@));
    res
}

/// Joins `n` placeholders with `, `.
fn placeholder_text(n: usize) -> (res: String)
    ensures
        res@ == placeholder_sql(n as nat),
{
    let mut pieces: Vec<String> = Vec::new();
    let mut i: usize = 0;
    while i < n
        invariant
            i <= n,
            views(pieces@) =~= placeholders(i as nat),
        decreases n - i,
    {
        let q: String = String::from_str("?");
        let ghost before = pieces@;
        pieces.push(q);
        proof {
            lemma_views_push(before, q);
            reveal_strlit("?");
            assert(placeholders((i + 1) as nat) =~= placeholders(i as nat).push("?"@));
        }
        i = i + 1;
    }
    join_exec(&pieces, ", ")
}

/// The column list, the placeholders and the values of an INSERT:
/// `"col1", "col2"`, `?, ?` and the values in the same order.
pub fn generate_insert_query(params: &Vec<(&'static str, SqlValue)>) -> (res: (
    String,
    String,
    Vec<SqlValue>,
))
    ensures
        res.0@ == insert_cols_sql(param_names(params@)),
        res.1@ == placeholder_sql(params@.len()),
        vals(res.2@) == param_values(params@),
{
    let ghost target = param_names(params@).map_values(|n: Seq<char>| quoted(n));
    let mut cols: Vec<String> = Vec::new();
    let n: usize = params.len();
    let mut i: usize = 0;
    while i < n
        invariant
            n == params@.len(),
            i <= n,
            target == param_names(params@).map_values(|n: Seq<char>| quoted(n)),
            views(cols@) =~= target.take(i as int),
        decreases n - i,
    {
        let c: String = quote_ident(params[i].0);
        let ghost before = cols@;
        cols.push(c);
        proof {
            lemma_views_push(before, c);
            assert(target.take(i + 1) =~= target.take(i as int).push(target[i as int]));
        }
        i = i + 1;
    }
    assert(target.take(n as int) =~= target);
    let col_sql: String = join_exec(&cols, ", ");
    let ph: String = placeholder_text(n);
    let values: Vec<SqlValue> = param_value_list(params);
    (col_sql, ph, values)
}

/// The INSERT statement of one record of `table` and the values bound to its `?`.
pub fn build_insert(table: &str, params: &Vec<(&'static str, SqlValue)>) -> (res: (
    String,
    Vec<SqlValue>,
))
    ensures
        res.0@ == insert_sql(table@, param_names(params@)),
        vals(res.1@) == param_values(params@),
{
    let (col_sql, ph, values) = generate_insert_query(params);
    let mut sql: String = String::new();
    sql.append("INSERT INTO ");
    let t: String = quote_ident(table);
    sql.append(t.as_str());
    sql.append(" (");
    sql.append(col_sql.as_str());
    sql.append(") VALUES (");
    sql.append(ph.as_str());
    sql.append(")");
    (sql, values)
}

/// The UPDATE statement that writes the pairs into the row `id` of `table`, and the values
/// bound to its `?`: the pairs' values, then `id`.
pub fn build_update(table: &str, params: &Vec<(&'static str, SqlValue)>, id: i64) -> (res: (
    String,
    Vec<SqlValue>,
))
    ensures
        res.0@ == update_sql(table@, param_names(params@)),
        vals(res.1@) == param_values(params@).push(SqlVal::Integer(id)),
{
    let ghost target = param_names(params@).map_values(|n: Seq<char>| set_clause(n));
    let mut clauses: Vec<String> = Vec::new();
    let n: usize = params.len();
    let mut i: usize = 0;
    while i < n
        invariant
            n == params@.len(),
            i <= n,
            target == param_names(params@).map_values(|n: Seq<char>| set_clause(n)),
            views(clauses@) =~= target.take(i as int),
        decreases n - i,
    {
        let mut c: String = quote_ident(params[i].0);
        c.append(" = ?");
        let ghost before = clauses@;
        clauses.push(c);
        proof {
            lemma_views_push(before, c);
            assert(target.take(i + 1) =~= target.take(i as int).push(target[i as int]));
        }
        i = i + 1;
    }
    assert(target.take(n as int) =~= target);
    let mut sql: String = String::new();
    sql.append("UPDATE ");
    let t: String = quote_ident(table);
    sql.append(t.as_str());
    sql.append(" SET ");
    let set_part: String = join_exec(&clauses, ", ");
    sql.append(set_part.as_str());
    sql.append(" WHERE ");
    let id_col: String = quote_ident("id");
    sql.append(id_col.as_str());
    sql.append(" = ?");
    let mut values: Vec<SqlValue> = param_value_list(params);
    let ghost before = values@;
    values.push(SqlValue::Integer(id));
    assert(vals(values@) =~= vals(before).push(SqlVal::Integer(id)));
    (sql, values)
}

/// The soft delete of a row: its `deleted` column is set to 1 (the row stays as a tombstone).
/// The row's `id` is the one value to bind.
pub fn build_soft_delete(table: &str) -> (res: String)
    ensures
        res@ == soft_delete_sql(table@),
{
    let mut sql: String = String::new();
    sql.append("UPDATE ");
    let t: String = quote_ident(table);
    sql.append(t.as_str());
    sql.append(" SET ");
    let d: String = quote_ident("deleted");
    sql.append(d.as_str());
    sql.append(" = 1 WHERE ");
    let id_col: String = quote_ident("id");
    sql.append(id_col.as_str());
    sql.append(" = ?");
    sql
}

/// The hard delete of a row: it is removed from the table. The row's `id` is the one value
/// to bind.
pub fn build_hard_delete(table: &str) -> (res: String)
    ensures
        res@ == hard_delete_sql(table@),
{
    let mut sql: String = String::new();
    sql.append("DELETE FROM ");
    let t: String = quote_ident(table);
    sql.append(t.as_str());
    sql.append(" WHERE ");
    let id_col: String = quote_ident("id");
    sql.append(id_col.as_str());
    sql.append(" = ?");
    sql
}

/// The query that reads the row `id` of `table` (at most one row).
pub fn find_query(table: &'static str, columns: Vec<Column>, id: i64) -> (res: QueryBuilder)
    ensures
        res.wf(),
        res.spec_table() == table,
        res.spec_columns() == columns@,
        res.spec_filters().len() == 1,
        res.spec_filters()[0] matches crate::database::query::Filter::Comparison {
            columnName,
            operator,
            value: Some(v),
        } && columnName@ == quoted("id"@) && operator@ == "="@ && v@ == SqlVal::Integer(id),
        res.spec_orders().len() == 0,
        res.spec_limit() == Some(1i64),
        res.spec_offset() is None,
{
    proof {
        reveal_strlit("id");
        assert(crate::database::ident::is_ident_char('i'));
        assert(crate::database::ident::is_ident_char('d'));
    }
    let b: QueryBuilder = QueryBuilder::new(table, columns).where_eq("id", id);
    assert(b.spec_filters()[0] == b.last_filter());
    b.limit(1)
}

/// The query that reads the rows of `table` whose `id` is one of `ids`, in one statement;
/// `None` when there is no id (nothing to read).
pub fn find_many_query(table: &'static str, columns: Vec<Column>, ids: &Vec<i64>) -> (res: Option<
    QueryBuilder,
>)
    ensures
        ids@.len() == 0 <==> res is None,
        res matches Some(b) ==> {
            &&& b.wf()
            &&& b.spec_table() == table
            &&& b.spec_columns() == columns@
            &&& b.spec_filters().len() == 1
            &&& b.spec_filters()[0] matches crate::database::query::Filter::Inclusion {
                columnName,
                values,
            } && columnName@ == quoted("id"@) && vals(values@) == ids@.map_values(
                |i: i64| SqlVal::Integer(i),
            )
            &&& b.spec_orders().len() == 0
            &&& b.spec_limit() is None
            &&& b.spec_offset() is None
        },
{
    if ids.len() == 0 {
        return None;
    }
    proof {
        reveal_strlit("id");
        assert(crate::database::ident::is_ident_char('i'));
        assert(crate::database::ident::is_ident_char('d'));
    }
    let mut values: Vec<SqlValue> = Vec::new();
    let n: usize = ids.len();
    let mut i: usize = 0;
    while i < n
        invariant
            n == ids@.len(),
            i <= n,
            vals(values@) =~= ids@.map_values(|i: i64| SqlVal::Integer(i)).take(i as int),
        decreases n - i,
    {
        let ghost before = values@;
        values.push(SqlValue::Integer(ids[i]));
        assert(vals(values@) =~= vals(before).push(SqlVal::Integer(ids@[i as int])));
        i = i + 1;
    }
    assert(ids@.map_values(|i: i64| SqlVal::Integer(i)).take(n as int) =~= ids@.map_values(
        |i: i64| SqlVal::Integer(i),
    ));
    let filter = crate::database::query::Filter::Inclusion {
        columnName: quote_ident("id"),
        values,
    };
    let b: QueryBuilder = QueryBuilder::new(table, columns).where_filter(filter);
    assert(b.spec_filters()[0] == b.last_filter());
    Some(b)
}

/// Every value of an INSERT is bound to one of its `?`: when the table and column names hold
/// no `?`, the statement holds one mark per value.
pub proof fn lemma_insert_marks(table: Seq<char>, params: Seq<(&'static str, SqlValue)>)
    requires
        mark_free(table),
        forall|i: int| 0 <= i < params.len() ==> mark_free(#[trigger] params[i].0@),
    ensures
        count_marks(insert_sql(table, param_names(params))) == param_values(params).len(),
{
    reveal_strlit("INSERT INTO ");
    reveal_strlit(" (");
    reveal_strlit(") VALUES (");
    reveal_strlit(")");
    reveal_strlit(", ");
    let names = param_names(params);
    let quoted_names = names.map_values(|n: Seq<char>| quoted(n));
    assert forall|i: int| 0 <= i < quoted_names.len() implies count_marks(
        #[trigger] quoted_names[i],
    ) == 0 by {
        lemma_quoted_marks(names[i]);
        lemma_count_free(names[i]);
    }
    lemma_sum_zero(quoted_names);
    lemma_count_free(", "@);
    lemma_join_marks(quoted_names, ", "@);
    crate::database::query::lemma_placeholder_count(names.len());
    lemma_join_marks(placeholders(names.len()), ", "@);
    lemma_quoted_marks(table);
    lemma_count_free(table);
    lemma_count_free("INSERT INTO "@);
    lemma_count_free(" ("@);
    lemma_count_free(") VALUES ("@);
    lemma_count_free(")"@);
    let a = "INSERT INTO "@ + quoted(table);
    let b = a + " ("@;
    let c = b + insert_cols_sql(names);
    let d = c + ") VALUES ("@;
    let e = d + placeholder_sql(names.len());
    lemma_count_concat("INSERT INTO "@, quoted(table));
    lemma_count_concat(a, " ("@);
    lemma_count_concat(b, insert_cols_sql(names));
    lemma_count_concat(c, ") VALUES ("@);
    lemma_count_concat(d, placeholder_sql(names.len()));
    lemma_count_concat(e, ")"@);
}

/// Pieces without marks hold no marks together.
proof fn lemma_sum_zero(pieces: Seq<Seq<char>>)
    requires
        forall|i: int| 0 <= i < pieces.len() ==> count_marks(#[trigger] pieces[i]) == 0,
    ensures
        sum_marks(pieces) == 0,
    decreases pieces.len(),
{
    if pieces.len() > 0 {
        lemma_sum_zero(pieces.drop_last());
    }
}

/// `" = ?"` holds one mark.
proof fn lemma_assign_mark()
    ensures
        count_marks(" = ?"@) == 1,
{
    reveal_strlit(" = ?");
    let s = " = ?"@;
    assert(s.drop_last() =~= " = "@) by {
        reveal_strlit(" = ");
    }
    reveal_strlit(" = ");
    lemma_count_free(" = "@);
}

/// Every value of an UPDATE is bound to one of its `?`, the row's `id` last: when the table
/// and column names hold no `?`, the statement holds one mark per value.
pub proof fn lemma_update_marks(table: Seq<char>, params: Seq<(&'static str, SqlValue)>, id: i64)
    requires
        mark_free(table),
        forall|i: int| 0 <= i < params.len() ==> mark_free(#[trigger] params[i].0@),
    ensures
        count_marks(update_sql(table, param_names(params))) == param_values(params).push(
            SqlVal::Integer(id),
        ).len(),
{
    reveal_strlit("UPDATE ");
    reveal_strlit(" SET ");
    reveal_strlit(" WHERE ");
    reveal_strlit(", ");
    reveal_strlit("id");
    let names = param_names(params);
    let clauses = names.map_values(|n: Seq<char>| set_clause(n));
    lemma_assign_mark();
    assert forall|i: int| 0 <= i < clauses.len() implies count_marks(#[trigger] clauses[i]) == 1 by {
        lemma_quoted_marks(names[i]);
        lemma_count_free(names[i]);
        lemma_count_concat(quoted(names[i]), " = ?"@);
    }
    lemma_sum_ones(clauses);
    lemma_count_free(", "@);
    lemma_join_marks(clauses, ", "@);
    lemma_quoted_marks(table);
    lemma_count_free(table);
    lemma_quoted_marks("id"@);
    lemma_count_free("id"@);
    lemma_count_free("UPDATE "@);
    lemma_count_free(" SET "@);
    lemma_count_free(" WHERE "@);
    let body = join_with(clauses, ", "@);
    let a = "UPDATE "@ + quoted(table);
    let b = a + " SET "@;
    let c = b + body;
    let d = c + " WHERE "@;
    let e = d + quoted("id"@);
    lemma_count_concat("UPDATE "@, quoted(table));
    lemma_count_concat(a, " SET "@);
    lemma_count_concat(b, body);
    lemma_count_concat(c, " WHERE "@);
    lemma_count_concat(d, quoted("id"@));
    lemma_count_concat(e, " = ?"@);
}

/// Pieces of one mark each hold as many marks as there are pieces.
proof fn lemma_sum_ones(pieces: Seq<Seq<char>>)
    requires
        forall|i: int| 0 <= i < pieces.len() ==> count_marks(#[trigger] pieces[i]) == 1,
    ensures
        sum_marks(pieces) == pieces.len(),
    decreases pieces.len(),
{
    if pieces.len() > 0 {
        lemma_sum_ones(pieces.drop_last());
    }
}

/// A delete statement binds exactly one value, the row's `id`, when the table name holds no
/// `?`.
pub proof fn lemma_delete_marks(table: Seq<char>)
    requires
        mark_free(table),
    ensures
        count_marks(soft_delete_sql(table)) == 1,
        count_marks(hard_delete_sql(table)) == 1,
{
    reveal_strlit("UPDATE ");
    reveal_strlit(" SET ");
    reveal_strlit(" = 1 WHERE ");
    reveal_strlit("DELETE FROM ");
    reveal_strlit(" WHERE ");
    reveal_strlit("deleted");
    reveal_strlit("id");
    lemma_assign_mark();
    lemma_quoted_marks(table);
    lemma_count_free(table);
    lemma_quoted_marks("id"@);
    lemma_count_free("id"@);
    lemma_quoted_marks("deleted"@);
    lemma_count_free("deleted"@);
    lemma_count_free("UPDATE "@);
    lemma_count_free(" SET "@);
    lemma_count_free(" = 1 WHERE "@);
    lemma_count_free("DELETE FROM "@);
    lemma_count_free(" WHERE "@);
    let a = "UPDATE "@ + quoted(table);
    let b = a + " SET "@;
    let c = b + quoted("deleted"@);
    let d = c + " = 1 WHERE "@;
    let e = d + quoted("id"@);
    lemma_count_concat("UPDATE "@, quoted(table));
    lemma_count_concat(a, " SET "@);
    lemma_count_concat(b, quoted("deleted"@));
    lemma_count_concat(c, " = 1 WHERE "@);
    lemma_count_concat(d, quoted("id"@));
    lemma_count_concat(e, " = ?"@);
    let f = "DELETE FROM "@ + quoted(table);
    let g = f + " WHERE "@;
    let h = g + quoted("id"@);
    lemma_count_concat("DELETE FROM "@, quoted(table));
    lemma_count_concat(f, " WHERE "@);
    lemma_count_concat(g, quoted("id"@));
    lemma_count_concat(h, " = ?"@);
}

} // verus!
