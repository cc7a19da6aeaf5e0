use vstd::prelude::*;

use crate::database::column::{column_sql, Column, IndexDef};
use crate::database::error::DbError;
use crate::database::ident::{quote_ident, quoted, valid_identifier, validate_identifier};
use crate::text::{join_exec, join_with, lemma_views_push, to_owned_string, views};

verus! {

/// The names of the columns.
pub open spec fn column_name_views(cols: Seq<Column>) -> Seq<Seq<char>> {
    cols.map_values(|c: Column| c.name@)
}

/// The characters of each string slice.
pub open spec fn str_views(v: Seq<&str>) -> Seq<Seq<char>> {
    v.map_values(|s: &str| s@)
}

/// Every name is a valid identifier.
pub open spec fn all_valid(names: Seq<Seq<char>>) -> bool {
    forall|i: int| 0 <= i < names.len() ==> valid_identifier(#[trigger] names[i])
}

/// `e` reports the first name of `names` that is not a valid identifier.
pub open spec fn reports_first_invalid(names: Seq<Seq<char>>, e: DbError) -> bool {
    exists|i: int|
        {
            &&& 0 <= i < names.len()
            &&& !valid_identifier(#[trigger] names[i])
            &&& forall|j: int| 0 <= j < i ==> valid_identifier(names[j])
            &&& e matches DbError::InvalidIdentifier(n) && n@ == names[i]
        }
}

/// The declaration of the `id` primary key.
pub open spec fn id_column_sql() -> Seq<char> {
    quoted("id"@) + " INTEGER PRIMARY KEY AUTOINCREMENT"@
}

/// `CREATE TABLE IF NOT EXISTS "table" (` then the `id` declaration and the column declarations,
/// one per line indented by four spaces and separated by commas, then `);`.
pub open spec fn create_table_sql(table: Seq<char>, cols: Seq<Column>) -> Seq<char> {
    "CREATE TABLE IF NOT EXISTS "@ + quoted(table) + " (\n    "@ + join_with(
        seq![id_column_sql()] + cols.map_values(|c: Column| column_sql(c)),
        ",\n    "@,
    ) + "\n);"@
}

/// `CREATE [UNIQUE ]INDEX IF NOT EXISTS "[u]idx_table_col1_col2" ON "table" ("col1", "col2");`
pub open spec fn create_index_sql(table: Seq<char>, idx: IndexDef) -> Seq<char> {
    let cols = str_views(idx.columns@);
    let prefix = if idx.unique {
        "uidx_"@
    } else {
        "idx_"@
    };
    let unique = if idx.unique {
        "UNIQUE "@
    } else {
        Seq::<char>::empty()
    };
    "CREATE "@ + unique + "INDEX IF NOT EXISTS "@ + quoted(
        prefix + table + "_"@ + join_with(cols, "_"@),
    ) + " ON "@ + quoted(table) + " ("@ + join_with(cols.map_values(|c: Seq<char>| quoted(c)), ", "@)
        + ");"@
}

/// The column names of all the indexes, index after index.
pub open spec fn index_column_names(idxs: Seq<IndexDef>) -> Seq<Seq<char>>
    decreases idxs.len(),
{
    if idxs.len() == 0 {
        Seq::<Seq<char>>::empty()
    } else {
        index_column_names(idxs.drop_last()) + str_views(idxs.last().columns@)
    }
}

/// The statement that creates the table with its columns; it fails on the first column name
/// that is not a valid identifier.
pub fn build_create_table(table: &str, columns: &Vec<Column>) -> (res: Result<String, DbError>)
    ensures
        res is Ok <==> all_valid(column_name_views(columns@)),
        res matches Ok(s) ==> s@ == create_table_sql(table@, columns@),
        res matches Err(e) ==> reports_first_invalid(column_name_views(columns@), e),
{
    let ghost names = column_name_views(columns@);
    let ghost decls = seq![id_column_sql()] + columns@.map_values(|c: Column| column_sql(c));
    let mut parts: Vec<String> = Vec::new();
    let mut id_part: String = quote_ident("id");
    id_part.append(" INTEGER PRIMARY KEY AUTOINCREMENT");
    parts.push(id_part);
    let n: usize = columns.len();
    let mut i: usize = 0;
    while i < n
        invariant
            n == columns@.len(),
            names == column_name_views(columns@),
            decls == seq![id_column_sql()] + columns@.map_values(|c: Column| column_sql(c)),
            i <= n,
            forall|j: int| 0 <= j < i ==> valid_identifier(#[trigger] names[j]),
            views(parts@) =~= decls.take(i + 1),
        decreases n - i,
    {
        match validate_identifier(columns[i].name) {
            Ok(()) => {},
            Err(e) => {
                assert(!valid_identifier(names[i as int]));
                assert(reports_first_invalid(names, e));
                return Err(e);
            },
        }
        let frag: String = columns[i].to_sql_fragment();
        let ghost before = parts@;
        parts.push(frag);
        proof {
            lemma_views_push(before, frag);
            assert(decls[i + 1] == column_sql(columns@[i as int]));
            assert(decls.take(i + 2) =~= decls.take(i + 1).push(decls[i + 1]));
        }
        i = i + 1;
    }
    assert(decls.take(n + 1) =~= decls);
    let mut sql: String = String::new();
    sql.append("CREATE TABLE IF NOT EXISTS ");
    let t: String = quote_ident(table);
    sql.append(t.as_str());
    sql.append(" (\n    ");
    let body: String = join_exec(&parts, ",\n    ");
    sql.append(body.as_str());
    sql.append("\n);");
    Ok(sql)
}

/// Joins string slices with `sep`.
fn join_strs(items: &[&str], sep: &str) -> (res: String)
    ensures
        res@ == join_with(str_views(items@), sep@),
{
    let mut owned: Vec<String> = Vec::new();
    let n: usize = items.len();
    let mut i: usize = 0;
    while i < n
        invariant
            n == items@.len(),
            i <= n,
            views(owned@) =~= str_views(items@).take(i as int),
        decreases n - i,
    {
        let item: String = to_owned_string(items[i]);
        let ghost before = owned@;
        owned.push(item);
        proof {
            lemma_views_push(before, item);
            assert(str_views(items@).take(i + 1) =~= str_views(items@).take(i as int).push(
                items@[i as int]@,
            ));
        }
        i = i + 1;
    }
    assert(str_views(items@).take(n as int) =~= str_views(items@));
    join_exec(&owned, sep)
}

/// Joins the quoted forms of the names with `, `.
fn join_quoted(items: &[&str]) -> (res: String)
    ensures
        res@ == join_with(str_views(items@).map_values(|c: Seq<char>| quoted(c)), ", "@),
{
    let ghost target = str_views(items@).map_values(|c: Seq<char>| quoted(c));
    let mut owned: Vec<String> = Vec::new();
    let n: usize = items.len();
    let mut i: usize = 0;
    while i < n
        invariant
            n == items@.len(),
            i <= n,
            target == str_views(items@).map_values(|c: Seq<char>| quoted(c)),
            views(owned@) =~= target.take(i as int),
        decreases n - i,
    {
        let item: String = quote_ident(items[i]);
        let ghost before = owned@;
        owned.push(item);
        proof {
            lemma_views_push(before, item);
            assert(target.take(i + 1) =~= target.take(i as int).push(quoted(items@[i as int]@)));
        }
        i = i + 1;
    }
    assert(target.take(n as int) =~= target);
    join_exec(&owned, ", ")
}

/// The statement that creates one index of `table`.
fn build_create_index(table: &str, idx: &IndexDef) -> (res: String)
    ensures
        res@ == create_index_sql(table@, *idx),
{
    let slug: String = join_strs(idx.columns, "_");
    let mut index_name: String = String::new();
    if idx.unique {
        index_name.append("uidx_");
    } else {
        index_name.append("idx_");
    }
    index_name.append(table);
    index_name.append("_");
    index_name.append(slug.as_str());
    let cols_sql: String = join_quoted(idx.columns);
    let mut sql: String = String::new();
    sql.append("CREATE ");
    if idx.unique {
        sql.append("UNIQUE ");
    }
    sql.append("INDEX IF NOT EXISTS ");
    let q: String = quote_ident(index_name.as_str());
    sql.append(q.as_str());
    sql.append(" ON ");
    let t: String = quote_ident(table);
    sql.append(t.as_str());
    sql.append(" (");
    sql.append(cols_sql.as_str());
    sql.append(");");
    proof {
        let prefix = if idx.unique {
            "uidx_"@
        } else {
            "idx_"@
        };
        assert(index_name@ =~= prefix + table@ + "_"@ + join_with(str_views(idx.columns@), "_"@));
        assert(sql@ =~= create_index_sql(table@, *idx));
    }
    sql
}

/// The statements that create the indexes of `table`, in order; they fail on the first index
/// column name that is not a valid identifier.
pub fn build_create_indexes(table: &str, indexes: &Vec<IndexDef>) -> (res: Result<Vec<String>, DbError>)
    ensures
        res is Ok <==> all_valid(index_column_names(indexes@)),
        res matches Ok(v) ==> views(v@) == indexes@.map_values(
            |idx: IndexDef| create_index_sql(table@, idx),
        ),
        res matches Err(e) ==> reports_first_invalid(index_column_names(indexes@), e),
{
    let ghost target = indexes@.map_values(|idx: IndexDef| create_index_sql(table@, idx));
    let mut sqls: Vec<String> = Vec::new();
    let n: usize = indexes.len();
    let mut k: usize = 0;
    while k < n
        invariant
            n == indexes@.len(),
            k <= n,
            target == indexes@.map_values(|idx: IndexDef| create_index_sql(table@, idx)),
            all_valid(index_column_names(indexes@.take(k as int))),
            views(sqls@) =~= target.take(k as int),
        decreases n - k,
    {
        let idx: &IndexDef = &indexes[k];
        let ghost done = index_column_names(indexes@.take(k as int));
        let ghost cols = str_views(idx.columns@);
        assert(indexes@.take(k + 1).drop_last() =~= indexes@.take(k as int));
        assert(index_column_names(indexes@.take(k + 1)) == done + cols);
        let m: usize = idx.columns.len();
        let mut j: usize = 0;
        while j < m
            invariant
                n == indexes@.len(),
                k < n,
                idx == indexes@[k as int],
                done == index_column_names(indexes@.take(k as int)),
                index_column_names(indexes@.take(k + 1)) == done + cols,
                m == idx.columns@.len(),
                cols == str_views(idx.columns@),
                j <= m,
                all_valid(done),
                forall|i: int| 0 <= i < j ==> valid_identifier(#[trigger] cols[i]),
            decreases m - j,
        {
            match validate_identifier(idx.columns[j]) {
                Ok(()) => {},
                Err(e) => {
                    proof {
                        let all = index_column_names(indexes@);
                        lemma_index_names_prefix(indexes@, k as int + 1);
                        let w = done.len() + j;
                        assert(all[w] == (done + cols)[w]);
                        assert forall|i: int| 0 <= i < w implies valid_identifier(all[i]) by {
                            assert(all[i] == (done + cols)[i]);
                            if i >= done.len() {
                                assert(valid_identifier(cols[i - done.len()]));
                            }
                        }
                        assert(reports_first_invalid(all, e));
                    }
                    return Err(e);
                },
            }
            j = j + 1;
        }
        assert(all_valid(done + cols)) by {
            assert forall|i: int| 0 <= i < (done + cols).len() implies valid_identifier(
                #[trigger] (done + cols)[i],
            ) by {
                if i >= done.len() {
                    assert((done + cols)[i] == cols[i - done.len()]);
                }
            }
        }
        let one: String = build_create_index(table, idx);
        let ghost before = sqls@;
        sqls.push(one);
        proof {
            lemma_views_push(before, one);
            assert(target.take(k + 1) =~= target.take(k as int).push(target[k as int]));
        }
        k = k + 1;
    }
    assert(indexes@.take(n as int) =~= indexes@);
    assert(target.take(n as int) =~= target);
    Ok(sqls)
}

/// The names of the first `k` indexes form a prefix of the names of all of them.
proof fn lemma_index_names_prefix(idxs: Seq<IndexDef>, k: int)
    requires
        0 <= k <= idxs.len(),
    ensures
        index_column_names(idxs.take(k)).len() <= index_column_names(idxs).len(),
        forall|i: int|
            0 <= i < index_column_names(idxs.take(k)).len() ==> #[trigger] index_column_names(
                idxs,
            )[i] == index_column_names(idxs.take(k))[i],
    decreases idxs.len() - k,
{
    if k < idxs.len() {
        lemma_index_names_prefix(idxs, k + 1);
        assert(idxs.take(k + 1).drop_last() =~= idxs.take(k));
    } else {
        assert(idxs.take(k) =~= idxs);
    }
}

/// The statements, in one transaction, that create the table, then its indexes; they fail when
/// the table name, a column name, or an index column name is not a valid identifier (checked in
/// that order).
pub fn ensure_table_sql(table: &str, columns: &Vec<Column>, indexes: &Vec<IndexDef>) -> (res: Result<String, DbError>)
    ensures
        res is Ok <==> valid_identifier(table@) && all_valid(column_name_views(columns@)) && all_valid(
            index_column_names(indexes@),
        ),
        res matches Ok(s) ==> s@ == "BEGIN;\n"@ + create_table_sql(table@, columns@) + "\n"@
            + join_with(indexes@.map_values(|idx: IndexDef| create_index_sql(table@, idx)), "\n"@)
            + "\nCOMMIT;"@,
        res matches Err(e) ==> if !valid_identifier(table@) {
            e matches DbError::InvalidIdentifier(n) && n@ == table@
        } else if !all_valid(column_name_views(columns@)) {
            reports_first_invalid(column_name_views(columns@), e)
        } else {
            reports_first_invalid(index_column_names(indexes@), e)
        },
{
    validate_identifier(table)?;
    let create_table: String = build_create_table(table, columns)?;
    let create_indexes: Vec<String> = build_create_indexes(table, indexes)?;
    let mut sql: String = String::new();
    sql.append("BEGIN;\n");
    sql.append(create_table.as_str());
    sql.append("\n");
    let idx_sql: String = join_exec(&create_indexes, "\n");
    sql.append(idx_sql.as_str());
    sql.append("\nCOMMIT;");
    Ok(sql)
}

/// `"id"` followed by the quoted column names, separated by `, `.
pub open spec fn select_cols_sql(cols: Seq<Column>) -> Seq<char> {
    join_with(seq![quoted("id"@)] + column_name_views(cols).map_values(|c: Seq<char>| quoted(c)), ", "@)
}

/// The column list of SELECT statements: `"id"` then each column, quoted.
pub fn build_select_cols(columns: &Vec<Column>) -> (res: String)
    ensures
        res@ == select_cols_sql(columns@),
{
    let ghost target = seq![quoted("id"@)] + column_name_views(columns@).map_values(
        |c: Seq<char>| quoted(c),
    );
    let mut cols: Vec<String> = Vec::new();
    cols.push(quote_ident("id"));
    let n: usize = columns.len();
    let mut i: usize = 0;
    while i < n
        invariant
            n == columns@.len(),
            i <= n,
            target == seq![quoted("id"@)] + column_name_views(columns@).map_values(
                |c: Seq<char>| quoted(c),
            ),
            views(cols@) =~= target.take(i + 1),
        decreases n - i,
    {
        let item: String = quote_ident(columns[i].name);
        let ghost before = cols@;
        cols.push(item);
        proof {
            lemma_views_push(before, item);
            assert(target.take(i + 2) =~= target.take(i + 1).push(target[i + 1]));
        }
        i = i + 1;
    }
    assert(target.take(n + 1) =~= target);
    join_exec(&cols, ", ")
}

/// The names of the columns, in order.
pub fn column_names(columns: &Vec<Column>) -> (res: Vec<&'static str>)
    ensures
        res@ == columns@.map_values(|c: Column| c.name),
{
    let mut names: Vec<&'static str> = Vec::new();
    let n: usize = columns.len();
    let mut i: usize = 0;
    while i < n
        invariant
            n == columns@.len(),
            i <= n,
            names@ =~= columns@.map_values(|c: Column| c.name).take(i as int),
        decreases n - i,
    {
        names.push(columns[i].name);
        i = i + 1;
    }
    assert(columns@.map_values(|c: Column| c.name).take(n as int) =~= columns@.map_values(
        |c: Column| c.name,
    ));
    names
}

} // verus!
