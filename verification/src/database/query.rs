// All values are bound as `?` parameters; they are never written into the SQL text.
use vstd::prelude::*;

use crate::database::column::Column;
use crate::database::ident::{
    escape_quotes, is_ident_char, lemma_quoted_valid_identifier, quote_ident, quoted, valid_identifier,
    validate_identifier,
};
use crate::database::value::{SqlVal, SqlValue};
use crate::database::schema::{build_select_cols, column_names, select_cols_sql};
use crate::text::{digit_char, int_decimal, join_exec, nat_decimal, join_with, lemma_views_push, push_i64_decimal, views};
use vstd::std_specs::convert::IntoSpec;

verus! {

/// Sort direction of an ORDER BY term.
#[derive(Clone, Copy, Debug)]
pub enum Direction {
    Asc,
    Desc,
}

/// The short name of the sort direction.
pub type Dir = Direction;

/// The SQL keyword of a sort direction.
pub open spec fn dir_sql(d: Direction) -> Seq<char> {
    match d {
        Direction::Asc => "ASC"@,
        Direction::Desc => "DESC"@,
    }
}

impl Direction {
    pub fn as_sql(self) -> (res: &'static str)
        ensures
            res@ == dir_sql(self),
    {
        match self {
            Direction::Asc => "ASC",
            Direction::Desc => "DESC",
        }
    }
}

/// One WHERE condition. It does not run anything: it is a SQL template with `?` where the
/// values go, together with the values that fill it.
pub enum Filter {
    /// Used when column validation fails, so that the condition is silently ignored.
    Empty,
    /// `column OP ?`, or `column IS NULL` / `column IS NOT NULL` when there is no value.
    Comparison {
        columnName: String,
        /// =, !=, >, >=, <, <=, LIKE, IS NULL, IS NOT NULL
        operator: &'static str,
        value: Option<SqlValue>,
    },
    /// `column IN (?, ?, …)`
    Inclusion { columnName: String, values: Vec<SqlValue> },
    /// `(filter1 AND filter2 AND ...)`
    And(Vec<Filter>),
    /// `(filter1 OR filter2 OR ...)`
    Or(Vec<Filter>),
}

/// The values of a sequence of `SqlValue`s.
pub open spec fn vals(s: Seq<SqlValue>) -> Seq<SqlVal> {
    s.map_values(|v: SqlValue| v@)
}

/// `n` placeholders `?`.
pub open spec fn placeholders(n: nat) -> Seq<Seq<char>> {
    Seq::new(n, |i: int| "?"@)
}

/// No fragment gives the empty text; one fragment stands alone; several are joined with `sep`
/// inside parentheses.
pub open spec fn wrap_frags(frags: Seq<Seq<char>>, sep: Seq<char>) -> Seq<char> {
    if frags.len() == 0 {
        Seq::<char>::empty()
    } else if frags.len() == 1 {
        frags[0]
    } else {
        "("@ + join_with(frags, sep) + ")"@
    }
}

/// The SQL text of a filter, with `?` where its values go.
pub open spec fn filter_sql(f: Filter) -> Seq<char>
    decreases f,
{
    match f {
        Filter::Empty => Seq::<char>::empty(),
        Filter::Comparison { columnName, operator, value } => match value {
            Some(_) => columnName@ + " "@ + operator@ + " ?"@,
            None => columnName@ + " "@ + operator@,
        },
        Filter::Inclusion { columnName, values } => columnName@ + " IN ("@ + join_with(
            placeholders(values@.len()),
            ", "@,
        ) + ")"@,
        Filter::And(fs) => wrap_frags(nonempty_frags(fs@), " AND "@),
        Filter::Or(fs) => wrap_frags(nonempty_frags(fs@), " OR "@),
    }
}

/// The SQL texts of the filters, in order, leaving out those that are empty.
pub open spec fn nonempty_frags(fs: Seq<Filter>) -> Seq<Seq<char>>
    decreases fs,
{
    if fs.len() == 0 {
        Seq::<Seq<char>>::empty()
    } else {
        let rest = nonempty_frags(fs.drop_last());
        let s = filter_sql(fs.last());
        if s.len() == 0 {
            rest
        } else {
            rest.push(s)
        }
    }
}

/// The values that fill the `?` of a filter, in order.
pub open spec fn filter_params(f: Filter) -> Seq<SqlVal>
    decreases f,
{
    match f {
        Filter::Empty => Seq::<SqlVal>::empty(),
        Filter::Comparison { value, .. } => match value {
            Some(v) => seq![v@],
            None => Seq::<SqlVal>::empty(),
        },
        Filter::Inclusion { values, .. } => vals(values@),
        Filter::And(fs) => all_params(fs@),
        Filter::Or(fs) => all_params(fs@),
    }
}

/// The values of all the filters, filter after filter.
pub open spec fn all_params(fs: Seq<Filter>) -> Seq<SqlVal>
    decreases fs,
{
    if fs.len() == 0 {
        Seq::<SqlVal>::empty()
    } else {
        all_params(fs.drop_last()) + filter_params(fs.last())
    }
}

/// Joins `n` placeholders with `, `.
fn placeholder_list(n: usize) -> (res: String)
    ensures
        res@ == join_with(placeholders(n as nat), ", "@),
{
    let mut res: String = String::new();
    let mut i: usize = 0;
    assert(placeholders(0) =~= Seq::<Seq<char>>::empty());
    while i < n
        invariant
            i <= n,
            res@ == join_with(placeholders(i as nat), ", "@),
        decreases n - i,
    {
        assert(placeholders((i + 1) as nat).drop_last() =~= placeholders(i as nat));
        if i > 0 {
            res.append(", ");
        } else {
            assert(placeholders(1) =~= seq!["?"@]);
        }
        res.append("?");
        i = i + 1;
    }
    res
}

/// Wraps the fragments as `wrap_frags` says.
fn wrap_exec(frags: &Vec<String>, sep: &str) -> (res: String)
    ensures
        res@ == wrap_frags(views(frags@), sep@),
{
    if frags.len() == 0 {
        String::new()
    } else if frags.len() == 1 {
        frags[0].clone()
    } else {
        let mut res: String = String::new();
        res.append("(");
        let body: String = join_exec(frags, sep);
        res.append(body.as_str());
        res.append(")");
        res
    }
}

impl Filter {
    /// The SQL text of the filter, with `?` where the values go.
    pub fn to_sql(&self) -> (res: String)
        ensures
            res@ == filter_sql(*self),
        decreases self,
    {
        match self {
            Filter::Empty => String::new(),
            Filter::Comparison { columnName, operator, value } => {
                let mut res: String = columnName.clone();
                res.append(" ");
                res.append(operator);
                if value.is_some() {
                    res.append(" ?");
                }
                res
            },
            Filter::Inclusion { columnName, values } => {
                let mut res: String = columnName.clone();
                res.append(" IN (");
                let list: String = placeholder_list(values.len());
                res.append(list.as_str());
                res.append(")");
                res
            },
            Filter::And(fs) => {
                let frags: Vec<String> = Filter::frags_of(fs);
                wrap_exec(&frags, " AND ")
            },
            Filter::Or(fs) => {
                let frags: Vec<String> = Filter::frags_of(fs);
                wrap_exec(&frags, " OR ")
            },
        }
    }

    /// The non-empty SQL texts of the filters, in order.
    fn frags_of(fs: &Vec<Filter>) -> (res: Vec<String>)
        ensures
            views(res@) == nonempty_frags(fs@),
        decreases fs,
    {
        let mut res: Vec<String> = Vec::new();
        let n: usize = fs.len();
        let mut i: usize = 0;
        assert(fs@.take(0) =~= Seq::<Filter>::empty());
        while i < n
            invariant
                n == fs@.len(),
                i <= n,
                views(res@) == nonempty_frags(fs@.take(i as int)),
            decreases n - i,
        {
            assert(fs@.take(i + 1).drop_last() =~= fs@.take(i as int));
            assert(fs@.take(i + 1).last() == fs@[i as int]);
            let s: String = fs[i].to_sql();
            if s.as_str().unicode_len() > 0 {
                let ghost before = res@;
                res.push(s);
                proof {
                    lemma_views_push(before, s);
                }
            }
            i = i + 1;
        }
        assert(fs@.take(n as int) =~= fs@);
        res
    }

    /// Appends the values of the filter, in order, to `out`.
    pub fn push_params(&self, out: &mut Vec<SqlValue>)
        ensures
            vals(final(out)@) == vals(old(out)@) + filter_params(*self),
        decreases self,
    {
        match self {
            Filter::Empty => {
                assert(vals(out@) =~= vals(out@) + Seq::<SqlVal>::empty());
            },
            Filter::Comparison { value, .. } => match value {
                Some(v) => {
                    let ghost before = out@;
                    out.push(v.duplicate());
                    assert(vals(out@) =~= vals(before) + seq![v@]);
                },
                None => {
                    assert(vals(out@) =~= vals(out@) + Seq::<SqlVal>::empty());
                },
            },
            Filter::Inclusion { values, .. } => {
                let ghost start = out@;
                let n: usize = values.len();
                let mut i: usize = 0;
                while i < n
                    invariant
                        n == values@.len(),
                        i <= n,
                        vals(out@) =~= vals(start) + vals(values@.take(i as int)),
                    decreases n - i,
                {
                    let ghost before = out@;
                    out.push(values[i].duplicate());
                    assert(vals(values@.take(i + 1)) =~= vals(values@.take(i as int)).push(
                        values@[i as int]@,
                    ));
                    assert(vals(out@) =~= vals(before).push(values@[i as int]@));
                    i = i + 1;
                }
                assert(values@.take(n as int) =~= values@);
            },
            Filter::And(fs) => Filter::push_all(fs, out),
            Filter::Or(fs) => Filter::push_all(fs, out),
        }
    }

    /// Appends the values of all the filters, filter after filter.
    fn push_all(fs: &Vec<Filter>, out: &mut Vec<SqlValue>)
        ensures
            vals(final(out)@) == vals(old(out)@) + all_params(fs@),
        decreases fs,
    {
        let ghost start = out@;
        let n: usize = fs.len();
        let mut i: usize = 0;
        assert(fs@.take(0) =~= Seq::<Filter>::empty());
        while i < n
            invariant
                n == fs@.len(),
                i <= n,
                vals(out@) =~= vals(start) + all_params(fs@.take(i as int)),
            decreases n - i,
        {
            assert(fs@.take(i + 1).drop_last() =~= fs@.take(i as int));
            assert(fs@.take(i + 1).last() == fs@[i as int]);
            fs[i].push_params(out);
            i = i + 1;
        }
        assert(fs@.take(n as int) =~= fs@);
    }
}

impl Clone for Filter {
    /// A copy with the same SQL text and the same values.
    fn clone(&self) -> (res: Filter)
        ensures
            filter_sql(res) == filter_sql(*self),
            filter_params(res) == filter_params(*self),
            filter_mark_free(res) == filter_mark_free(*self),
        decreases self,
    {
        match self {
            Filter::Empty => Filter::Empty,
            Filter::Comparison { columnName, operator, value } => Filter::Comparison {
                columnName: columnName.clone(),
                operator: *operator,
                value: match value {
                    Some(v) => Some(v.duplicate()),
                    None => None,
                },
            },
            Filter::Inclusion { columnName, values } => {
                let mut copy: Vec<SqlValue> = Vec::new();
                let n: usize = values.len();
                let mut i: usize = 0;
                while i < n
                    invariant
                        n == values@.len(),
                        i <= n,
                        vals(copy@) =~= vals(values@.take(i as int)),
                    decreases n - i,
                {
                    copy.push(values[i].duplicate());
                    assert(vals(values@.take(i + 1)) =~= vals(values@.take(i as int)).push(
                        values@[i as int]@,
                    ));
                    i = i + 1;
                }
                assert(values@.take(n as int) =~= values@);
                Filter::Inclusion { columnName: columnName.clone(), values: copy }
            },
            Filter::And(fs) => Filter::And(Filter::clone_all(fs)),
            Filter::Or(fs) => Filter::Or(Filter::clone_all(fs)),
        }
    }
}

impl Filter {
    /// Copies of the filters, in order.
    fn clone_all(fs: &Vec<Filter>) -> (res: Vec<Filter>)
        ensures
            nonempty_frags(res@) == nonempty_frags(fs@),
            all_params(res@) == all_params(fs@),
            all_mark_free(res@) == all_mark_free(fs@),
        decreases fs,
    {
        let mut res: Vec<Filter> = Vec::new();
        let n: usize = fs.len();
        let mut i: usize = 0;
        assert(fs@.take(0) =~= Seq::<Filter>::empty());
        while i < n
            invariant
                n == fs@.len(),
                i <= n,
                nonempty_frags(res@) == nonempty_frags(fs@.take(i as int)),
                all_params(res@) == all_params(fs@.take(i as int)),
                all_mark_free(res@) == all_mark_free(fs@.take(i as int)),
            decreases n - i,
        {
            assert(fs@.take(i + 1).drop_last() =~= fs@.take(i as int));
            assert(fs@.take(i + 1).last() == fs@[i as int]);
            let c: Filter = fs[i].clone();
            let ghost before = res@;
            res.push(c);
            assert(res@.drop_last() =~= before);
            i = i + 1;
        }
        assert(fs@.take(n as int) =~= fs@);
        res
    }
}

/// `f` compares the column `name` with the operator `op`, quoted, with a value or without one
/// as `has_value` says, when `name` is a valid identifier; otherwise `f` is `Empty`.
pub open spec fn compares(f: Filter, name: Seq<char>, op: Seq<char>, has_value: bool) -> bool {
    if valid_identifier(name) {
        f matches Filter::Comparison { columnName, operator, value } && columnName@ == quoted(name)
            && operator@ == op && (value is Some) == has_value
    } else {
        f is Empty
    }
}

/// The value of a comparison.
pub open spec fn compared_value(f: Filter) -> Option<SqlValue> {
    match f {
        Filter::Comparison { value, .. } => value,
        _ => None,
    }
}

impl Filter {
    fn compare(name: &'static str, op: &'static str, value: Option<SqlValue>) -> (res: Filter)
        requires
            mark_free(op@),
        ensures
            compares(res, name@, op@, value is Some),
            valid_identifier(name@) ==> compared_value(res) == value,
            filter_mark_free(res),
    {
        if validate_identifier(name).is_err() {
            return Filter::Empty;
        }
        proof {
            lemma_quoted_mark_free(name@);
        }
        Filter::Comparison { columnName: quote_ident(name), operator: op, value }
    }

    /// `"column" = ?`
    pub fn eq<V: Into<SqlValue>>(columnName: &'static str, value: V) -> (res: Filter)
        ensures
            compares(res, columnName@, "="@, true),
            filter_mark_free(res),
            valid_identifier(columnName@) && V::obeys_into_spec() ==> compared_value(res) == Some(
                value.into_spec(),
            ),
    {
        proof {
            reveal_strlit("=");
        }
        Filter::compare(columnName, "=", Some(value.into()))
    }

    /// `"column" != ?`
    pub fn neq<V: Into<SqlValue>>(columnName: &'static str, value: V) -> (res: Filter)
        ensures
            compares(res, columnName@, "!="@, true),
            filter_mark_free(res),
            valid_identifier(columnName@) && V::obeys_into_spec() ==> compared_value(res) == Some(
                value.into_spec(),
            ),
    {
        proof {
            reveal_strlit("!=");
        }
        Filter::compare(columnName, "!=", Some(value.into()))
    }

    /// `"column" > ?`
    pub fn gt<V: Into<SqlValue>>(columnName: &'static str, value: V) -> (res: Filter)
        ensures
            compares(res, columnName@, ">"@, true),
            filter_mark_free(res),
            valid_identifier(columnName@) && V::obeys_into_spec() ==> compared_value(res) == Some(
                value.into_spec(),
            ),
    {
        proof {
            reveal_strlit(">");
        }
        Filter::compare(columnName, ">", Some(value.into()))
    }

    /// `"column" >= ?`
    pub fn gte<V: Into<SqlValue>>(columnName: &'static str, value: V) -> (res: Filter)
        ensures
            compares(res, columnName@, ">="@, true),
            filter_mark_free(res),
            valid_identifier(columnName@) && V::obeys_into_spec() ==> compared_value(res) == Some(
                value.into_spec(),
            ),
    {
        proof {
            reveal_strlit(">=");
        }
        Filter::compare(columnName, ">=", Some(value.into()))
    }

    /// `"column" < ?`
    pub fn lt<V: Into<SqlValue>>(columnName: &'static str, value: V) -> (res: Filter)
        ensures
            compares(res, columnName@, "<"@, true),
            filter_mark_free(res),
            valid_identifier(columnName@) && V::obeys_into_spec() ==> compared_value(res) == Some(
                value.into_spec(),
            ),
    {
        proof {
            reveal_strlit("<");
        }
        Filter::compare(columnName, "<", Some(value.into()))
    }

    /// `"column" <= ?`
    pub fn lte<V: Into<SqlValue>>(columnName: &'static str, value: V) -> (res: Filter)
        ensures
            compares(res, columnName@, "<="@, true),
            filter_mark_free(res),
            valid_identifier(columnName@) && V::obeys_into_spec() ==> compared_value(res) == Some(
                value.into_spec(),
            ),
    {
        proof {
            reveal_strlit("<=");
        }
        Filter::compare(columnName, "<=", Some(value.into()))
    }

    /// `"column" LIKE ?` (the pattern may hold the `%` and `_` wildcards).
    pub fn like<V: Into<SqlValue>>(columnName: &'static str, pattern: V) -> (res: Filter)
        ensures
            compares(res, columnName@, "LIKE"@, true),
            filter_mark_free(res),
            valid_identifier(columnName@) && V::obeys_into_spec() ==> compared_value(res) == Some(
                pattern.into_spec(),
            ),
    {
        proof {
            reveal_strlit("LIKE");
        }
        Filter::compare(columnName, "LIKE", Some(pattern.into()))
    }

    /// `"column" IS NULL`
    pub fn null(columnName: &'static str) -> (res: Filter)
        ensures
            compares(res, columnName@, "IS NULL"@, false),
            filter_mark_free(res),
    {
        proof {
            reveal_strlit("IS NULL");
        }
        Filter::compare(columnName, "IS NULL", None)
    }

    /// `"column" IS NOT NULL`
    pub fn notNull(columnName: &'static str) -> (res: Filter)
        ensures
            compares(res, columnName@, "IS NOT NULL"@, false),
            filter_mark_free(res),
    {
        proof {
            reveal_strlit("IS NOT NULL");
        }
        Filter::compare(columnName, "IS NOT NULL", None)
    }

    /// `"column" IN (?, ?, …)`. An empty list gives `"id" = -1`, which no row matches.
    pub fn in_list<V: Into<SqlValue>>(columnName: &'static str, values: Vec<V>) -> (res: Filter)
        ensures
            !valid_identifier(columnName@) ==> res is Empty,
            valid_identifier(columnName@) && values@.len() == 0 ==> (res matches Filter::Comparison {
                columnName: c,
                operator,
                value: Some(v),
            } && c@ == quoted("id"@) && operator@ == "="@ && v@ == SqlVal::Integer(-1i64)),
            valid_identifier(columnName@) && values@.len() > 0 ==> (res matches Filter::Inclusion {
                columnName: c,
                values: vs,
            } && c@ == quoted(columnName@) && vs@.len() == values@.len() && (V::obeys_into_spec()
                ==> forall|j: int|
                0 <= j < vs@.len() ==> #[trigger] vs@[j] == values@[j].into_spec())),
            filter_mark_free(res),
    {
        if validate_identifier(columnName).is_err() {
            return Filter::Empty;
        }
        proof {
            lemma_quoted_mark_free(columnName@);
            reveal_strlit("id");
            reveal_strlit("=");
            assert(is_ident_char('i') && is_ident_char('d'));
            lemma_quoted_mark_free("id"@);
        }
        let n: usize = values.len();
        if n == 0 {
            return Filter::Comparison {
                columnName: quote_ident("id"),
                operator: "=",
                value: Some(SqlValue::Integer(-1)),
            };
        }
        let ghost orig = values@;
        let mut rest: Vec<V> = values;
        let mut rev: Vec<V> = Vec::new();
        while rest.len() > 0
            invariant
                n == orig.len(),
                rest@.len() + rev@.len() == n,
                forall|j: int| 0 <= j < rest@.len() ==> #[trigger] rest@[j] == orig[j],
                forall|j: int|
                    0 <= j < rev@.len() ==> #[trigger] rev@[j] == orig[n - 1 - j],
            decreases rest@.len(),
        {
            let x: V = rest.pop().unwrap();
            rev.push(x);
        }
        let mut out: Vec<SqlValue> = Vec::new();
        while rev.len() > 0
            invariant
                n == orig.len(),
                rev@.len() + out@.len() == n,
                forall|j: int|
                    0 <= j < rev@.len() ==> #[trigger] rev@[j] == orig[n - 1 - j],
                V::obeys_into_spec() ==> forall|j: int|
                    0 <= j < out@.len() ==> #[trigger] out@[j] == orig[j].into_spec(),
            decreases rev@.len(),
        {
            let k: usize = out.len();
            let x: V = rev.pop().unwrap();
            assert(x == orig[k as int]);
            out.push(x.into());
        }
        Filter::Inclusion { columnName: quote_ident(columnName), values: out }
    }

    /// All the filters must hold.
    pub fn and(filters: Vec<Filter>) -> (res: Filter)
        ensures
            res == Filter::And(filters),
    {
        Filter::And(filters)
    }

    /// One of the filters must hold.
    pub fn or(filters: Vec<Filter>) -> (res: Filter)
        ensures
            res == Filter::Or(filters),
    {
        Filter::Or(filters)
    }
}

/// The WHERE clause of a list of filters joined with AND: empty when no filter has a condition
/// (there is none, or all were dropped), otherwise ` WHERE ` followed by the non-empty filter
/// texts separated by ` AND `.
pub open spec fn where_sql(fs: Seq<Filter>) -> Seq<char> {
    if nonempty_frags(fs).len() == 0 {
        Seq::<char>::empty()
    } else {
        " WHERE "@ + join_with(nonempty_frags(fs), " AND "@)
    }
}

/// Builds the ` WHERE …` fragment of the filters, joined with AND, and collects the values
/// bound to its `?`.
pub fn build_where(filters: &Vec<Filter>) -> (res: (String, Vec<SqlValue>))
    ensures
        res.0@ == where_sql(filters@),
        vals(res.1@) == all_params(filters@),
{
    if filters.len() == 0 {
        return (String::new(), Vec::new());
    }
    let mut params: Vec<SqlValue> = Vec::new();
    Filter::push_all(filters, &mut params);
    assert(vals(params@) =~= all_params(filters@));
    let frags: Vec<String> = Filter::frags_of(filters);
    if frags.len() == 0 {
        return (String::new(), params);
    }
    let mut sql: String = String::new();
    sql.append(" WHERE ");
    let body: String = join_exec(&frags, " AND ");
    sql.append(body.as_str());
    (sql, params)
}

/// The quoted form of a valid identifier holds no `?`.
pub proof fn lemma_quoted_mark_free(s: Seq<char>)
    requires
        valid_identifier(s),
    ensures
        mark_free(quoted(s)),
{
    lemma_quoted_valid_identifier(s);
    let q = quoted(s);
    assert forall|i: int| 0 <= i < q.len() implies q[i] != '?' by {
        if 0 < i < q.len() - 1 {
            assert(q[i] == s[i - 1]);
            assert(is_ident_char(s[i - 1]));
        }
    }
}

/// The number of `?` in a text.
pub open spec fn count_marks(s: Seq<char>) -> nat
    decreases s.len(),
{
    if s.len() == 0 {
        0
    } else {
        count_marks(s.drop_last()) + if s.last() == '?' {
            1nat
        } else {
            0nat
        }
    }
}

/// A text without `?`.
pub open spec fn mark_free(s: Seq<char>) -> bool {
    forall|i: int| 0 <= i < s.len() ==> s[i] != '?'
}

/// The number of `?` in all the pieces.
pub open spec fn sum_marks(pieces: Seq<Seq<char>>) -> nat
    decreases pieces.len(),
{
    if pieces.len() == 0 {
        0
    } else {
        sum_marks(pieces.drop_last()) + count_marks(pieces.last())
    }
}

/// No column name or operator of the filter holds a `?`, so that each `?` of its SQL text
/// stands for one value.
pub open spec fn filter_mark_free(f: Filter) -> bool
    decreases f,
{
    match f {
        Filter::Empty => true,
        Filter::Comparison { columnName, operator, .. } => mark_free(columnName@) && mark_free(
            operator@,
        ),
        Filter::Inclusion { columnName, .. } => mark_free(columnName@),
        Filter::And(fs) => all_mark_free(fs@),
        Filter::Or(fs) => all_mark_free(fs@),
    }
}

/// Every filter is `filter_mark_free`.
pub open spec fn all_mark_free(fs: Seq<Filter>) -> bool
    decreases fs,
{
    if fs.len() == 0 {
        true
    } else {
        all_mark_free(fs.drop_last()) && filter_mark_free(fs.last())
    }
}

/// The marks of a concatenation are those of its parts.
pub proof fn lemma_count_concat(a: Seq<char>, b: Seq<char>)
    ensures
        count_marks(a + b) == count_marks(a) + count_marks(b),
    decreases b.len(),
{
    if b.len() == 0 {
        assert(a + b =~= a);
    } else {
        lemma_count_concat(a, b.drop_last());
        assert((a + b).drop_last() =~= a + b.drop_last());
    }
}

/// A text without `?` has no marks.
pub proof fn lemma_count_free(s: Seq<char>)
    requires
        mark_free(s),
    ensures
        count_marks(s) == 0,
    decreases s.len(),
{
    if s.len() > 0 {
        lemma_count_free(s.drop_last());
    }
}

/// Joining with a separator without `?` adds no marks.
pub proof fn lemma_join_marks(pieces: Seq<Seq<char>>, sep: Seq<char>)
    requires
        mark_free(sep),
    ensures
        count_marks(join_with(pieces, sep)) == sum_marks(pieces),
    decreases pieces.len(),
{
    if pieces.len() == 1 {
        assert(sum_marks(pieces.drop_last()) == 0);
    } else if pieces.len() > 1 {
        lemma_join_marks(pieces.drop_last(), sep);
        lemma_count_free(sep);
        lemma_count_concat(join_with(pieces.drop_last(), sep), sep);
        lemma_count_concat(join_with(pieces.drop_last(), sep) + sep, pieces.last());
    }
}

/// `n` placeholders hold `n` marks.
pub proof fn lemma_placeholder_count(n: nat)
    ensures
        sum_marks(placeholders(n)) == n,
    decreases n,
{
    reveal_strlit("?");
    if n > 0 {
        lemma_placeholder_count((n - 1) as nat);
        assert(placeholders(n).drop_last() =~= placeholders((n - 1) as nat));
        assert("?"@.drop_last() =~= Seq::<char>::empty());
        assert("?"@.last() == '?');
        assert(count_marks(Seq::<char>::empty()) == 0);
        assert(count_marks("?"@) == 1);
    }
}

/// Each `?` in the SQL text of a filter stands for one of its values: there are as many
/// marks as values.
pub proof fn lemma_filter_marks(f: Filter)
    requires
        filter_mark_free(f),
    ensures
        count_marks(filter_sql(f)) == filter_params(f).len(),
    decreases f,
{
    reveal_strlit(" ");
    reveal_strlit(" ?");
    reveal_strlit(" IN (");
    reveal_strlit(")");
    reveal_strlit("(");
    reveal_strlit(", ");
    reveal_strlit(" AND ");
    reveal_strlit(" OR ");
    match f {
        Filter::Empty => {},
        Filter::Comparison { columnName, operator, value } => {
            lemma_count_free(columnName@);
            lemma_count_free(operator@);
            lemma_count_free(" "@);
            lemma_count_concat(columnName@, " "@);
            lemma_count_concat(columnName@ + " "@, operator@);
            if value is Some {
                assert(count_marks(" ?"@) == 1) by {
                    assert(" ?"@.drop_last() =~= " "@);
                }
                lemma_count_concat(columnName@ + " "@ + operator@, " ?"@);
            }
        },
        Filter::Inclusion { columnName, values } => {
            lemma_count_free(columnName@);
            lemma_count_free(" IN ("@);
            lemma_count_free(")"@);
            lemma_count_free(", "@);
            let list = join_with(placeholders(values@.len()), ", "@);
            lemma_join_marks(placeholders(values@.len()), ", "@);
            lemma_placeholder_count(values@.len());
            lemma_count_concat(columnName@, " IN ("@);
            lemma_count_concat(columnName@ + " IN ("@, list);
            lemma_count_concat(columnName@ + " IN ("@ + list, ")"@);
        },
        Filter::And(fs) => {
            lemma_frags_marks(fs@);
            lemma_wrap_marks(nonempty_frags(fs@), " AND "@);
        },
        Filter::Or(fs) => {
            lemma_frags_marks(fs@);
            lemma_wrap_marks(nonempty_frags(fs@), " OR "@);
        },
    }
}

/// Wrapping fragments with a separator without `?` adds no marks.
proof fn lemma_wrap_marks(frags: Seq<Seq<char>>, sep: Seq<char>)
    requires
        mark_free(sep),
    ensures
        count_marks(wrap_frags(frags, sep)) == sum_marks(frags),
{
    reveal_strlit("(");
    reveal_strlit(")");
    if frags.len() == 1 {
        assert(sum_marks(frags.drop_last()) == 0);
    } else if frags.len() > 1 {
        lemma_join_marks(frags, sep);
        lemma_count_free("("@);
        lemma_count_free(")"@);
        lemma_count_concat("("@, join_with(frags, sep));
        lemma_count_concat("("@ + join_with(frags, sep), ")"@);
    }
}

/// The non-empty fragments of filters hold as many marks as the filters have values.
pub proof fn lemma_frags_marks(fs: Seq<Filter>)
    requires
        all_mark_free(fs),
    ensures
        sum_marks(nonempty_frags(fs)) == all_params(fs).len(),
    decreases fs,
{
    if fs.len() > 0 {
        lemma_frags_marks(fs.drop_last());
        lemma_filter_marks(fs.last());
        let rest = nonempty_frags(fs.drop_last());
        if filter_sql(fs.last()).len() > 0 {
            assert(rest.push(filter_sql(fs.last())).drop_last() =~= rest);
        }
    }
}

/// Every value of the WHERE clause is bound to one `?` of its text: there are as many
/// marks as values.
pub proof fn lemma_where_marks(fs: Seq<Filter>)
    requires
        all_mark_free(fs),
    ensures
        count_marks(where_sql(fs)) == all_params(fs).len(),
{
    reveal_strlit(" WHERE ");
    reveal_strlit(" AND ");
    lemma_frags_marks(fs);
    if nonempty_frags(fs).len() > 0 {
        lemma_join_marks(nonempty_frags(fs), " AND "@);
        lemma_count_free(" WHERE "@);
        lemma_count_concat(" WHERE "@, join_with(nonempty_frags(fs), " AND "@));
    }
}

/// Each position of a statement's text holds `None` for a character of the text and
/// `Some(v)` for a `?` to which the value `v` is bound.
pub type Slots = Seq<Option<SqlVal>>;

/// The slots of a text that binds nothing: one `None` per character.
pub open spec fn text_slots(s: Seq<char>) -> Slots
    decreases s.len(),
{
    if s.len() == 0 {
        Slots::empty()
    } else {
        text_slots(s.drop_last()).push(None)
    }
}

/// The slots of an IN list: the values in order, with `, ` between them.
pub open spec fn list_slots(vs: Seq<SqlVal>) -> Slots
    decreases vs.len(),
{
    if vs.len() == 0 {
        Slots::empty()
    } else if vs.len() == 1 {
        seq![Some(vs[0])]
    } else {
        list_slots(vs.drop_last()) + text_slots(", "@) + seq![Some(vs.last())]
    }
}

/// The slots of a text whose marks take the values in order: the k-th `?` from the left holds
/// the k-th value (meaningful when there are as many values as marks).
pub open spec fn bind(s: Seq<char>, params: Seq<SqlVal>) -> Slots
    decreases s.len(),
{
    if s.len() == 0 {
        Slots::empty()
    } else if s.last() == '?' {
        bind(s.drop_last(), params.drop_last()).push(Some(params.last()))
    } else {
        bind(s.drop_last(), params).push(None)
    }
}

/// The slots of the pieces joined with `sep` between consecutive pieces.
pub open spec fn join_slots(pieces: Seq<Slots>, sep: Slots) -> Slots
    decreases pieces.len(),
{
    if pieces.len() == 0 {
        Slots::empty()
    } else if pieces.len() == 1 {
        pieces[0]
    } else {
        join_slots(pieces.drop_last(), sep) + sep + pieces.last()
    }
}

/// No piece gives nothing; one piece stands alone; several are joined with `sep` inside
/// parentheses.
pub open spec fn wrap_slots(pieces: Seq<Slots>, sep: Slots) -> Slots {
    if pieces.len() == 0 {
        Slots::empty()
    } else if pieces.len() == 1 {
        pieces[0]
    } else {
        text_slots("("@) + join_slots(pieces, sep) + text_slots(")"@)
    }
}

/// A filter with each value in its place: a comparison's value right after its operator, the
/// values of an IN list in order between its parentheses, and the groups' filters in order.
pub open spec fn filter_slots(f: Filter) -> Slots
    decreases f,
{
    match f {
        Filter::Empty => Slots::empty(),
        Filter::Comparison { columnName, operator, value } => match value {
            Some(v) => text_slots(columnName@ + " "@ + operator@ + " "@).push(Some(v@)),
            None => text_slots(columnName@ + " "@ + operator@),
        },
        Filter::Inclusion { columnName, values } => text_slots(columnName@ + " IN ("@) + list_slots(
            vals(values@),
        ) + text_slots(")"@),
        Filter::And(fs) => wrap_slots(nonempty_slots(fs@), text_slots(" AND "@)),
        Filter::Or(fs) => wrap_slots(nonempty_slots(fs@), text_slots(" OR "@)),
    }
}

/// The slots of the filters whose SQL text is not empty, in order.
pub open spec fn nonempty_slots(fs: Seq<Filter>) -> Seq<Slots>
    decreases fs,
{
    if fs.len() == 0 {
        Seq::<Slots>::empty()
    } else {
        let rest = nonempty_slots(fs.drop_last());
        if filter_sql(fs.last()).len() == 0 {
            rest
        } else {
            rest.push(filter_slots(fs.last()))
        }
    }
}

/// The WHERE clause with its values in place.
pub open spec fn where_slots(fs: Seq<Filter>) -> Slots {
    if nonempty_slots(fs).len() == 0 {
        Slots::empty()
    } else {
        text_slots(" WHERE "@) + join_slots(nonempty_slots(fs), text_slots(" AND "@))
    }
}

/// Binding a concatenation binds each part with its own values.
pub proof fn lemma_bind_append(a: Seq<char>, b: Seq<char>, pa: Seq<SqlVal>, pb: Seq<SqlVal>)
    requires
        pa.len() == count_marks(a),
        pb.len() == count_marks(b),
    ensures
        bind(a + b, pa + pb) == bind(a, pa) + bind(b, pb),
    decreases b.len(),
{
    if b.len() == 0 {
        assert(pb =~= Seq::<SqlVal>::empty());
        assert(a + b =~= a);
        assert(pa + pb =~= pa);
        assert(bind(b, pb) =~= Slots::empty());
        assert(bind(a, pa) + bind(b, pb) =~= bind(a, pa));
    } else {
        let ab = a + b;
        let bl = b.drop_last();
        assert(ab.drop_last() =~= a + bl);
        assert(ab.last() == b.last());
        let x = bind(a, pa);
        if b.last() == '?' {
            assert(pb.len() > 0);
            let pbl = pb.drop_last();
            let t = Some(pb.last());
            lemma_bind_append(a, bl, pa, pbl);
            assert((pa + pb).drop_last() =~= pa + pbl);
            assert((pa + pb).last() == pb.last());
            let y = bind(bl, pbl);
            assert(bind(ab, pa + pb) == (x + y).push(t));
            assert(bind(b, pb) == y.push(t));
            assert(x + y.push(t) =~= (x + y).push(t));
        } else {
            let t: Option<SqlVal> = None;
            assert(b.last() != '?');
            assert(ab.last() != '?');
            assert(bind(b, pb) == bind(b.drop_last(), pb).push(None));
            lemma_bind_append(a, bl, pa, pb);
            let y = bind(bl, pb);
            assert(bind(ab, pa + pb) == (x + y).push(t));
            assert(bind(b, pb) == y.push(t));
            assert(x + y.push(t) =~= (x + y).push(t));
        }
    }
}

/// A text without marks binds nothing: its pieces are its characters.
pub proof fn lemma_bind_text(s: Seq<char>)
    requires
        mark_free(s),
    ensures
        bind(s, Seq::<SqlVal>::empty()) == text_slots(s),
    decreases s.len(),
{
    if s.len() > 0 {
        lemma_bind_text(s.drop_last());
    }
}

/// A literal made only of the characters of `s` binds nothing.
proof fn lemma_bind_literal(s: Seq<char>)
    requires
        mark_free(s),
    ensures
        bind(s, Seq::<SqlVal>::empty()) == text_slots(s),
        count_marks(s) == 0,
{
    lemma_bind_text(s);
    lemma_count_free(s);
}

/// A lone `?` binds its one value.
proof fn lemma_bind_mark(v: SqlVal)
    ensures
        bind("?"@, seq![v]) == seq![Some(v)],
        count_marks("?"@) == 1,
{
    reveal_strlit("?");
    let one = seq![v];
    assert("?"@.last() == '?');
    assert("?"@.drop_last().len() == 0);
    assert(bind("?"@.drop_last(), one.drop_last()) =~= Slots::empty());
    assert(count_marks("?"@.drop_last()) == 0);
    assert(bind("?"@, one) =~= seq![Some(v)]);
}

/// The placeholders of an IN list take the values in order.
proof fn lemma_bind_placeholders(vs: Seq<SqlVal>)
    ensures
        bind(join_with(placeholders(vs.len()), ", "@), vs) == list_slots(vs),
        count_marks(join_with(placeholders(vs.len()), ", "@)) == vs.len(),
    decreases vs.len(),
{
    reveal_strlit("?");
    reveal_strlit(", ");
    let n = vs.len();
    lemma_count_free(", "@);
    lemma_join_marks(placeholders(n), ", "@);
    lemma_placeholder_count(n);
    lemma_bind_mark(vs.last());
    if n == 1 {
        assert(placeholders(1) =~= seq!["?"@]);
        assert(vs =~= seq![vs.last()]);
    } else if n > 1 {
        let rest = vs.drop_last();
        lemma_bind_placeholders(rest);
        assert(placeholders(n).drop_last() =~= placeholders((n - 1) as nat));
        assert(placeholders(n).last() == "?"@);
        let j = join_with(placeholders((n - 1) as nat), ", "@);
        lemma_bind_literal(", "@);
        lemma_bind_append(j, ", "@, rest, Seq::<SqlVal>::empty());
        assert(rest + Seq::<SqlVal>::empty() =~= rest);
        lemma_count_concat(j, ", "@);
        lemma_bind_append(j + ", "@, "?"@, rest, seq![vs.last()]);
        assert(rest + seq![vs.last()] =~= vs);
    }
}

/// The k-th `?` of a filter's SQL text binds the k-th of its values: binding its values to its
/// text puts each value where the filter's structure says it goes.
pub proof fn lemma_filter_binds(f: Filter)
    requires
        filter_mark_free(f),
    ensures
        bind(filter_sql(f), filter_params(f)) == filter_slots(f),
    decreases f,
{
    reveal_strlit(" ");
    reveal_strlit(" ?");
    reveal_strlit("?");
    reveal_strlit(" IN (");
    reveal_strlit(")");
    reveal_strlit("(");
    reveal_strlit(" AND ");
    reveal_strlit(" OR ");
    lemma_filter_marks(f);
    match f {
        Filter::Empty => {
            assert(filter_sql(f).len() == 0);
            assert(bind(filter_sql(f), filter_params(f)) =~= Slots::empty());
            assert(filter_slots(f) =~= Slots::empty());
        },
        Filter::Comparison { columnName, operator, value } => {
            let head = columnName@ + " "@ + operator@;
            assert(mark_free(head));
            lemma_bind_literal(head);
            match value {
                Some(v) => {
                    let h2 = head + " "@;
                    assert(mark_free(h2));
                    lemma_bind_literal(h2);
                    assert(head + " ?"@ =~= h2 + "?"@);
                    lemma_bind_mark(v@);
                    lemma_bind_append(h2, "?"@, Seq::<SqlVal>::empty(), seq![v@]);
                    assert(Seq::<SqlVal>::empty() + seq![v@] =~= seq![v@]);
                    assert(text_slots(h2) + seq![Some(v@)] =~= text_slots(h2).push(Some(v@)));
                },
                None => {},
            }
        },
        Filter::Inclusion { columnName, values } => {
            let head = columnName@ + " IN ("@;
            assert(mark_free(head));
            lemma_bind_literal(head);
            lemma_bind_literal(")"@);
            let vs = vals(values@);
            lemma_bind_placeholders(vs);
            let list = join_with(placeholders(vs.len()), ", "@);
            lemma_bind_append(head, list, Seq::<SqlVal>::empty(), vs);
            lemma_count_concat(head, list);
            lemma_bind_append(head + list, ")"@, vs, Seq::<SqlVal>::empty());
            assert(Seq::<SqlVal>::empty() + vs =~= vs);
            assert(vs + Seq::<SqlVal>::empty() =~= vs);
        },
        Filter::And(fs) => {
            lemma_group_binds(fs@, " AND "@);
        },
        Filter::Or(fs) => {
            lemma_group_binds(fs@, " OR "@);
        },
    }
}

/// The filters of a group, wrapped, bind their values in order.
proof fn lemma_group_binds(fs: Seq<Filter>, sep: Seq<char>)
    requires
        all_mark_free(fs),
        mark_free(sep),
    ensures
        bind(wrap_frags(nonempty_frags(fs), sep), all_params(fs)) == wrap_slots(
            nonempty_slots(fs),
            text_slots(sep),
        ),
    decreases fs, 1int,
{
    reveal_strlit("(");
    reveal_strlit(")");
    lemma_join_binds(fs, sep);
    let frags = nonempty_frags(fs);
    let ps = all_params(fs);
    if frags.len() == 1 {
        assert(join_with(frags, sep) == frags[0]);
    } else if frags.len() > 1 {
        let j = join_with(frags, sep);
        lemma_frags_marks(fs);
        lemma_join_marks(frags, sep);
        lemma_bind_literal("("@);
        lemma_bind_literal(")"@);
        lemma_bind_append("("@, j, Seq::<SqlVal>::empty(), ps);
        lemma_count_concat("("@, j);
        lemma_bind_append("("@ + j, ")"@, ps, Seq::<SqlVal>::empty());
        assert(Seq::<SqlVal>::empty() + ps =~= ps);
        assert(ps + Seq::<SqlVal>::empty() =~= ps);
    }
}

/// The non-empty texts of filters, joined, bind their values in order.
proof fn lemma_join_binds(fs: Seq<Filter>, sep: Seq<char>)
    requires
        all_mark_free(fs),
        mark_free(sep),
    ensures
        bind(join_with(nonempty_frags(fs), sep), all_params(fs)) == join_slots(
            nonempty_slots(fs),
            text_slots(sep),
        ),
        nonempty_slots(fs).len() == nonempty_frags(fs).len(),
    decreases fs, 0int,
{
    if fs.len() > 0 {
        let rest = fs.drop_last();
        let f = fs.last();
        lemma_join_binds(rest, sep);
        lemma_filter_binds(f);
        lemma_filter_marks(f);
        lemma_frags_marks(rest);
        let fr = nonempty_frags(rest);
        let pr = all_params(rest);
        let pf = filter_params(f);
        let s = filter_sql(f);
        if s.len() == 0 {
            assert(pf.len() == 0) by {
                assert(count_marks(s) == 0);
            }
            assert(pr + pf =~= pr);
        } else {
            lemma_join_marks(fr, sep);
            if fr.len() == 0 {
                assert(pr.len() == 0);
                assert(pr + pf =~= pf);
                assert(fr.push(s).len() == 1);
                assert(nonempty_slots(rest).push(filter_slots(f)).len() == 1);
            } else {
                let j = join_with(fr, sep);
                lemma_bind_literal(sep);
                lemma_bind_append(j, sep, pr, Seq::<SqlVal>::empty());
                assert(pr + Seq::<SqlVal>::empty() =~= pr);
                lemma_count_concat(j, sep);
                lemma_bind_append(j + sep, s, pr, pf);
                assert(fr.push(s).drop_last() =~= fr);
                assert(nonempty_slots(rest).push(filter_slots(f)).drop_last() =~= nonempty_slots(rest));
            }
        }
    } else {
        assert(bind(Seq::<char>::empty(), Seq::<SqlVal>::empty()) == Slots::empty());
    }
}

/// The k-th `?` of the WHERE clause binds the k-th value of the filters.
pub proof fn lemma_where_binds(fs: Seq<Filter>)
    requires
        all_mark_free(fs),
    ensures
        bind(where_sql(fs), all_params(fs)) == where_slots(fs),
{
    reveal_strlit(" WHERE ");
    reveal_strlit(" AND ");
    lemma_join_binds(fs, " AND "@);
    lemma_frags_marks(fs);
    if nonempty_frags(fs).len() == 0 {
        assert(all_params(fs).len() == 0);
        assert(all_params(fs) =~= Seq::<SqlVal>::empty());
    } else {
        let j = join_with(nonempty_frags(fs), " AND "@);
        lemma_join_marks(nonempty_frags(fs), " AND "@);
        lemma_bind_literal(" WHERE "@);
        lemma_bind_append(" WHERE "@, j, Seq::<SqlVal>::empty(), all_params(fs));
        assert(Seq::<SqlVal>::empty() + all_params(fs) =~= all_params(fs));
    }
}

/// One ORDER BY term: a quoted column and a direction.
struct OrderClause {
    column: String,
    direction: Direction,
}

/// The text of an ORDER BY term: the quoted column, a space, the direction.
pub open spec fn order_term(o: (Seq<char>, Direction)) -> Seq<char> {
    o.0 + " "@ + dir_sql(o.1)
}

/// ` ORDER BY ` and the terms separated by `, `; empty when there is no term.
pub open spec fn order_sql(orders: Seq<(Seq<char>, Direction)>) -> Seq<char> {
    if orders.len() == 0 {
        Seq::<char>::empty()
    } else {
        " ORDER BY "@ + join_with(orders.map_values(|o: (Seq<char>, Direction)| order_term(o)), ", "@)
    }
}

/// ` LIMIT l OFFSET o`, or ` LIMIT l` without an offset; empty without a limit (an offset
/// alone is left out).
pub open spec fn limit_sql(limit: Option<i64>, offset: Option<i64>) -> Seq<char> {
    match limit {
        Some(l) => match offset {
            Some(o) => " LIMIT "@ + int_decimal(l as int) + " OFFSET "@ + int_decimal(o as int),
            None => " LIMIT "@ + int_decimal(l as int),
        },
        None => Seq::<char>::empty(),
    }
}

/// The SELECT statement of a query: the columns, the table, the WHERE clause, the ORDER BY
/// terms and the LIMIT / OFFSET.
pub open spec fn select_sql(
    table: Seq<char>,
    columns: Seq<Column>,
    filters: Seq<Filter>,
    orders: Seq<(Seq<char>, Direction)>,
    limit: Option<i64>,
    offset: Option<i64>,
) -> Seq<char> {
    "SELECT "@ + select_cols_sql(columns) + " FROM "@ + quoted(table) + where_sql(filters)
        + order_sql(orders) + limit_sql(limit, offset)
}

/// The statement that counts the rows of the table that the filters keep.
pub open spec fn count_sql(table: Seq<char>, filters: Seq<Filter>) -> Seq<char> {
    "SELECT COUNT(*) FROM "@ + quoted(table) + " "@ + where_sql(filters)
}

/// Every column of the ORDER BY terms is the quoted form of a valid identifier.
pub open spec fn orders_wf(orders: Seq<(Seq<char>, Direction)>) -> bool {
    forall|i: int|
        0 <= i < orders.len() ==> exists|n: Seq<char>|
            valid_identifier(n) && #[trigger] orders[i].0 == quoted(n)
}

/// A chainable query on one table: filters, ORDER BY terms, LIMIT and OFFSET.
pub struct QueryBuilder {
    table: &'static str,
    columns: Vec<Column>,
    filters: Vec<Filter>,
    orders: Vec<OrderClause>,
    limit: Option<i64>,
    offset: Option<i64>,
}

impl QueryBuilder {
    /// The table queried.
    pub closed spec fn spec_table(&self) -> &'static str {
        self.table
    }

    /// The columns read besides `id`.
    pub closed spec fn spec_columns(&self) -> Seq<Column> {
        self.columns@
    }

    /// The WHERE filters, joined with AND.
    pub closed spec fn spec_filters(&self) -> Seq<Filter> {
        self.filters@
    }

    /// The ORDER BY terms: quoted column and direction.
    pub closed spec fn spec_orders(&self) -> Seq<(Seq<char>, Direction)> {
        self.orders@.map_values(|o: OrderClause| (o.column@, o.direction))
    }

    pub closed spec fn spec_limit(&self) -> Option<i64> {
        self.limit
    }

    pub closed spec fn spec_offset(&self) -> Option<i64> {
        self.offset
    }

    /// Every ORDER BY column is the quoted form of a valid identifier.
    pub open spec fn wf(&self) -> bool {
        orders_wf(self.spec_orders())
    }

    /// `res` is `self` with one more filter, its last.
    pub open spec fn adds_filter(&self, res: QueryBuilder) -> bool {
        &&& res.spec_table() == self.spec_table()
        &&& res.spec_columns() == self.spec_columns()
        &&& res.spec_orders() == self.spec_orders()
        &&& res.spec_limit() == self.spec_limit()
        &&& res.spec_offset() == self.spec_offset()
        &&& res.spec_filters().len() == self.spec_filters().len() + 1
        &&& res.spec_filters().drop_last() == self.spec_filters()
    }

    /// The last filter added.
    pub open spec fn last_filter(&self) -> Filter {
        self.spec_filters().last()
    }

    /// A query on `table` that reads `columns`, without filter, order or limit.
    pub fn new(table: &'static str, columns: Vec<Column>) -> (res: QueryBuilder)
        ensures
            res.spec_table() == table,
            res.spec_columns() == columns@,
            res.spec_filters().len() == 0,
            res.spec_orders().len() == 0,
            res.spec_limit() is None,
            res.spec_offset() is None,
            res.wf(),
    {
        QueryBuilder {
            table,
            columns,
            filters: Vec::new(),
            orders: Vec::new(),
            limit: None,
            offset: None,
        }
    }

    /// Adds an arbitrary, possibly nested, filter.
    pub fn where_filter(self, filter: Filter) -> (res: QueryBuilder)
        ensures
            self.adds_filter(res),
            res.last_filter() == filter,
    {
        let mut b = self;
        b.filters.push(filter);
        assert(b.filters@.drop_last() =~= self.filters@);
        b
    }

    /// `WHERE "column" = ?`
    pub fn where_eq<V: Into<SqlValue>>(self, columnName: &'static str, value: V) -> (res:
        QueryBuilder)
        ensures
            self.adds_filter(res),
            compares(res.last_filter(), columnName@, "="@, true),
            filter_mark_free(res.last_filter()),
            valid_identifier(columnName@) && V::obeys_into_spec() ==> compared_value(
                res.last_filter(),
            ) == Some(value.into_spec()),
    {
        self.where_filter(Filter::eq(columnName, value))
    }

    /// `WHERE "column" != ?`
    pub fn where_neq<V: Into<SqlValue>>(self, columnName: &'static str, value: V) -> (res:
        QueryBuilder)
        ensures
            self.adds_filter(res),
            compares(res.last_filter(), columnName@, "!="@, true),
            filter_mark_free(res.last_filter()),
            valid_identifier(columnName@) && V::obeys_into_spec() ==> compared_value(
                res.last_filter(),
            ) == Some(value.into_spec()),
    {
        self.where_filter(Filter::neq(columnName, value))
    }

    /// `WHERE "column" > ?`
    pub fn where_gt<V: Into<SqlValue>>(self, columnName: &'static str, value: V) -> (res:
        QueryBuilder)
        ensures
            self.adds_filter(res),
            compares(res.last_filter(), columnName@, ">"@, true),
            filter_mark_free(res.last_filter()),
            valid_identifier(columnName@) && V::obeys_into_spec() ==> compared_value(
                res.last_filter(),
            ) == Some(value.into_spec()),
    {
        self.where_filter(Filter::gt(columnName, value))
    }

    /// `WHERE "column" >= ?`
    pub fn where_gte<V: Into<SqlValue>>(self, columnName: &'static str, value: V) -> (res:
        QueryBuilder)
        ensures
            self.adds_filter(res),
            compares(res.last_filter(), columnName@, ">="@, true),
            filter_mark_free(res.last_filter()),
            valid_identifier(columnName@) && V::obeys_into_spec() ==> compared_value(
                res.last_filter(),
            ) == Some(value.into_spec()),
    {
        self.where_filter(Filter::gte(columnName, value))
    }

    /// `WHERE "column" < ?`
    pub fn where_lt<V: Into<SqlValue>>(self, columnName: &'static str, value: V) -> (res:
        QueryBuilder)
        ensures
            self.adds_filter(res),
            compares(res.last_filter(), columnName@, "<"@, true),
            filter_mark_free(res.last_filter()),
            valid_identifier(columnName@) && V::obeys_into_spec() ==> compared_value(
                res.last_filter(),
            ) == Some(value.into_spec()),
    {
        self.where_filter(Filter::lt(columnName, value))
    }

    /// `WHERE "column" <= ?`
    pub fn where_lte<V: Into<SqlValue>>(self, columnName: &'static str, value: V) -> (res:
        QueryBuilder)
        ensures
            self.adds_filter(res),
            compares(res.last_filter(), columnName@, "<="@, true),
            filter_mark_free(res.last_filter()),
            valid_identifier(columnName@) && V::obeys_into_spec() ==> compared_value(
                res.last_filter(),
            ) == Some(value.into_spec()),
    {
        self.where_filter(Filter::lte(columnName, value))
    }

    /// `WHERE "column" LIKE ?` (use `%` and `_` wildcards in the pattern).
    pub fn where_like<V: Into<SqlValue>>(self, columnName: &'static str, pattern: V) -> (res:
        QueryBuilder)
        ensures
            self.adds_filter(res),
            compares(res.last_filter(), columnName@, "LIKE"@, true),
            filter_mark_free(res.last_filter()),
            valid_identifier(columnName@) && V::obeys_into_spec() ==> compared_value(
                res.last_filter(),
            ) == Some(pattern.into_spec()),
    {
        self.where_filter(Filter::like(columnName, pattern))
    }

    /// `WHERE "column" IS NULL`
    pub fn where_null(self, columnName: &'static str) -> (res: QueryBuilder)
        ensures
            self.adds_filter(res),
            compares(res.last_filter(), columnName@, "IS NULL"@, false),
            filter_mark_free(res.last_filter()),
    {
        self.where_filter(Filter::null(columnName))
    }

    /// `WHERE "column" IS NOT NULL`
    pub fn where_not_null(self, columnName: &'static str) -> (res: QueryBuilder)
        ensures
            self.adds_filter(res),
            compares(res.last_filter(), columnName@, "IS NOT NULL"@, false),
            filter_mark_free(res.last_filter()),
    {
        self.where_filter(Filter::notNull(columnName))
    }

    /// `WHERE "column" IN (?, ?, …)`; an empty list matches no row.
    pub fn where_in<V: Into<SqlValue>>(self, columnName: &'static str, values: Vec<V>) -> (res:
        QueryBuilder)
        ensures
            self.adds_filter(res),
            filter_mark_free(res.last_filter()),
            !valid_identifier(columnName@) ==> res.last_filter() is Empty,
            valid_identifier(columnName@) && values@.len() == 0 ==> (res.last_filter() matches Filter::Comparison {
                columnName: c,
                operator,
                value: Some(v),
            } && c@ == quoted("id"@) && operator@ == "="@ && v@ == SqlVal::Integer(-1i64)),
            valid_identifier(columnName@) && values@.len() > 0 ==> (res.last_filter() matches Filter::Inclusion {
                columnName: c,
                values: vs,
            } && c@ == quoted(columnName@) && vs@.len() == values@.len() && (V::obeys_into_spec()
                ==> forall|j: int|
                0 <= j < vs@.len() ==> #[trigger] vs@[j] == values@[j].into_spec())),
    {
        self.where_filter(Filter::in_list(columnName, values))
    }

    /// Adds `ORDER BY "column" ASC|DESC`; several calls add several terms. A column name that
    /// is not a valid identifier is ignored.
    pub fn order_by(self, columnName: &'static str, direction: Direction) -> (res: QueryBuilder)
        requires
            self.wf(),
        ensures
            res.wf(),
            res.spec_table() == self.spec_table(),
            res.spec_columns() == self.spec_columns(),
            res.spec_filters() == self.spec_filters(),
            res.spec_limit() == self.spec_limit(),
            res.spec_offset() == self.spec_offset(),
            res.spec_orders() == if valid_identifier(columnName@) {
                self.spec_orders().push((quoted(columnName@), direction))
            } else {
                self.spec_orders()
            },
    {
        let mut b = self;
        if validate_identifier(columnName).is_ok() {
            let column: String = quote_ident(columnName);
            b.orders.push(OrderClause { column, direction });
            assert(b.spec_orders() =~= self.spec_orders().push((quoted(columnName@), direction)));
            assert forall|i: int| 0 <= i < b.spec_orders().len() implies exists|n: Seq<char>|
                valid_identifier(n) && #[trigger] b.spec_orders()[i].0 == quoted(n) by {
                if i < self.spec_orders().len() {
                    assert(b.spec_orders()[i] == self.spec_orders()[i]);
                } else {
                    assert(b.spec_orders()[i].0 == quoted(columnName@));
                }
            }
        }
        b
    }

    /// Sets `LIMIT n`.
    pub fn limit(self, n: i64) -> (res: QueryBuilder)
        ensures
            res.spec_table() == self.spec_table(),
            res.spec_columns() == self.spec_columns(),
            res.spec_filters() == self.spec_filters(),
            res.spec_orders() == self.spec_orders(),
            res.spec_limit() == Some(n),
            res.spec_offset() == self.spec_offset(),
    {
        let mut b = self;
        b.limit = Some(n);
        b
    }

    /// Sets `OFFSET n`, the number of rows skipped (used only together with a limit).
    pub fn offset(self, n: i64) -> (res: QueryBuilder)
        ensures
            res.spec_table() == self.spec_table(),
            res.spec_columns() == self.spec_columns(),
            res.spec_filters() == self.spec_filters(),
            res.spec_orders() == self.spec_orders(),
            res.spec_limit() == self.spec_limit(),
            res.spec_offset() == Some(n),
    {
        let mut b = self;
        b.offset = Some(n);
        b
    }

    /// The names of the columns read besides `id`, in order.
    pub fn column_names(&self) -> (res: Vec<&'static str>)
        ensures
            res@ == self.spec_columns().map_values(|c: Column| c.name),
    {
        column_names(&self.columns)
    }

    /// The SELECT statement of the query and the values bound to its `?`, in order.
    pub fn build_select(&self) -> (res: (String, Vec<SqlValue>))
        ensures
            res.0@ == select_sql(
                self.spec_table()@,
                self.spec_columns(),
                self.spec_filters(),
                self.spec_orders(),
                self.spec_limit(),
                self.spec_offset(),
            ),
            vals(res.1@) == all_params(self.spec_filters()),
    {
        let table: String = quote_ident(self.table);
        let select: String = build_select_cols(&self.columns);
        let (where_part, params) = build_where(&self.filters);
        let order_part: String = self.order_text();
        let mut sql: String = String::new();
        sql.append("SELECT ");
        sql.append(select.as_str());
        sql.append(" FROM ");
        sql.append(table.as_str());
        sql.append(where_part.as_str());
        sql.append(order_part.as_str());
        match self.limit {
            Some(l) => {
                sql.append(" LIMIT ");
                push_i64_decimal(&mut sql, l);
                match self.offset {
                    Some(o) => {
                        sql.append(" OFFSET ");
                        push_i64_decimal(&mut sql, o);
                    },
                    None => {},
                }
            },
            None => {},
        }
        (sql, params)
    }

    /// The ORDER BY part of the statement.
    fn order_text(&self) -> (res: String)
        ensures
            res@ == order_sql(self.spec_orders()),
    {
        let n: usize = self.orders.len();
        if n == 0 {
            return String::new();
        }
        let ghost target = self.spec_orders().map_values(
            |o: (Seq<char>, Direction)| order_term(o),
        );
        let mut terms: Vec<String> = Vec::new();
        let mut i: usize = 0;
        while i < n
            invariant
                n == self.orders@.len(),
                i <= n,
                target == self.spec_orders().map_values(|o: (Seq<char>, Direction)| order_term(o)),
                views(terms@) =~= target.take(i as int),
            decreases n - i,
        {
            let mut term: String = self.orders[i].column.clone();
            term.append(" ");
            term.append(self.orders[i].direction.as_sql());
            let ghost before = terms@;
            terms.push(term);
            proof {
                lemma_views_push(before, term);
                assert(target.take(i + 1) =~= target.take(i as int).push(target[i as int]));
            }
            i = i + 1;
        }
        assert(target.take(n as int) =~= target);
        let mut res: String = String::new();
        res.append(" ORDER BY ");
        let body: String = join_exec(&terms, ", ");
        res.append(body.as_str());
        res
    }

    /// `SELECT COUNT(*)` of the rows that the filters keep (ORDER BY, LIMIT and OFFSET do not
    /// matter for a count), and the values bound to its `?`.
    pub fn build_count(&self) -> (res: (String, Vec<SqlValue>))
        ensures
            res.0@ == count_sql(self.spec_table()@, self.spec_filters()),
            vals(res.1@) == all_params(self.spec_filters()),
    {
        let (where_part, params) = build_where(&self.filters);
        let table: String = quote_ident(self.table);
        let mut sql: String = String::new();
        sql.append("SELECT COUNT(*) FROM ");
        sql.append(table.as_str());
        sql.append(" ");
        sql.append(where_part.as_str());
        (sql, params)
    }
}

/// Appending a character adds a mark when it is `?`.
proof fn lemma_count_push(s: Seq<char>, c: char)
    ensures
        count_marks(s.push(c)) == count_marks(s) + if c == '?' {
            1nat
        } else {
            0nat
        },
{
    assert(s.push(c).drop_last() =~= s);
}

/// A single character is a mark when it is `?`.
proof fn lemma_count_single(c: char)
    ensures
        count_marks(seq![c]) == if c == '?' {
            1nat
        } else {
            0nat
        },
{
    lemma_count_push(Seq::<char>::empty(), c);
    assert(Seq::<char>::empty().push(c) =~= seq![c]);
}

/// Doubling the `"` of a text adds no `?`.
proof fn lemma_escape_marks(s: Seq<char>)
    ensures
        count_marks(escape_quotes(s)) == count_marks(s),
    decreases s.len(),
{
    if s.len() > 0 {
        lemma_escape_marks(s.drop_last());
        let e = escape_quotes(s.drop_last());
        lemma_count_push(s.drop_last(), s.last());
        assert(s.drop_last().push(s.last()) =~= s);
        if s.last() == '"' {
            lemma_count_concat(e, seq!['"', '"']);
            lemma_count_single('"');
            lemma_count_push(seq!['"'], '"');
            assert(seq!['"'].push('"') =~= seq!['"', '"']);
        } else {
            lemma_count_push(e, s.last());
        }
    }
}

/// A quoted text holds as many `?` as the text.
pub proof fn lemma_quoted_marks(s: Seq<char>)
    ensures
        count_marks(quoted(s)) == count_marks(s),
{
    lemma_escape_marks(s);
    lemma_count_concat(seq!['"'], escape_quotes(s));
    lemma_count_concat(seq!['"'] + escape_quotes(s), seq!['"']);
    lemma_count_single('"');
}

/// Decimal digits hold no `?`.
proof fn lemma_decimal_marks(n: int)
    ensures
        count_marks(int_decimal(n)) == 0,
{
    reveal_strlit("-");
    lemma_nat_decimal_marks(if n < 0 {
        (-n) as nat
    } else {
        n as nat
    });
    if n < 0 {
        lemma_count_concat(seq!['-'], nat_decimal((-n) as nat));
        lemma_count_single('-');
    }
}

proof fn lemma_nat_decimal_marks(n: nat)
    ensures
        count_marks(nat_decimal(n)) == 0,
    decreases n,
{
    let d = digit_char((n % 10) as int);
    assert(d != '?');
    if n < 10 {
        lemma_count_single(digit_char(n as int));
    } else {
        lemma_nat_decimal_marks(n / 10);
        lemma_count_push(nat_decimal(n / 10), d);
    }
}

/// Pieces without `?` hold no `?` together.
proof fn lemma_sum_free(pieces: Seq<Seq<char>>)
    requires
        forall|i: int| 0 <= i < pieces.len() ==> count_marks(#[trigger] pieces[i]) == 0,
    ensures
        sum_marks(pieces) == 0,
    decreases pieces.len(),
{
    if pieces.len() > 0 {
        lemma_sum_free(pieces.drop_last());
    }
}

/// The column list of a SELECT holds no `?` when no column name does.
proof fn lemma_select_cols_marks(columns: Seq<Column>)
    requires
        forall|i: int| 0 <= i < columns.len() ==> mark_free(#[trigger] columns[i].name@),
    ensures
        count_marks(select_cols_sql(columns)) == 0,
{
    reveal_strlit("id");
    reveal_strlit(", ");
    let pieces = seq![quoted("id"@)] + crate::database::schema::column_name_views(columns).map_values(
        |c: Seq<char>| quoted(c),
    );
    assert forall|i: int| 0 <= i < pieces.len() implies count_marks(#[trigger] pieces[i]) == 0 by {
        if i == 0 {
            lemma_quoted_marks("id"@);
            lemma_count_free("id"@);
        } else {
            lemma_quoted_marks(columns[i - 1].name@);
            lemma_count_free(columns[i - 1].name@);
        }
    }
    lemma_sum_free(pieces);
    lemma_count_free(", "@);
    lemma_join_marks(pieces, ", "@);
}

/// The ORDER BY part holds no `?` when its columns are quoted identifiers.
proof fn lemma_order_marks(orders: Seq<(Seq<char>, Direction)>)
    requires
        orders_wf(orders),
    ensures
        count_marks(order_sql(orders)) == 0,
{
    reveal_strlit(" ORDER BY ");
    reveal_strlit(", ");
    reveal_strlit(" ");
    reveal_strlit("ASC");
    reveal_strlit("DESC");
    if orders.len() > 0 {
        let terms = orders.map_values(|o: (Seq<char>, Direction)| order_term(o));
        assert forall|i: int| 0 <= i < terms.len() implies count_marks(#[trigger] terms[i]) == 0 by {
            let o = orders[i];
            let n = choose|n: Seq<char>| valid_identifier(n) && orders[i].0 == quoted(n);
            lemma_quoted_mark_free(n);
            lemma_count_free(o.0);
            lemma_count_free(" "@);
            lemma_count_free(dir_sql(o.1));
            lemma_count_concat(o.0, " "@);
            lemma_count_concat(o.0 + " "@, dir_sql(o.1));
        }
        lemma_sum_free(terms);
        lemma_count_free(", "@);
        lemma_join_marks(terms, ", "@);
        lemma_count_free(" ORDER BY "@);
        lemma_count_concat(" ORDER BY "@, join_with(terms, ", "@));
    }
}

/// The LIMIT / OFFSET part holds no `?`.
proof fn lemma_limit_marks(limit: Option<i64>, offset: Option<i64>)
    ensures
        count_marks(limit_sql(limit, offset)) == 0,
{
    reveal_strlit(" LIMIT ");
    reveal_strlit(" OFFSET ");
    if let Some(l) = limit {
        lemma_count_free(" LIMIT "@);
        lemma_decimal_marks(l as int);
        lemma_count_concat(" LIMIT "@, int_decimal(l as int));
        if let Some(o) = offset {
            lemma_count_free(" OFFSET "@);
            lemma_decimal_marks(o as int);
            lemma_count_concat(" LIMIT "@ + int_decimal(l as int), " OFFSET "@);
            lemma_count_concat(" LIMIT "@ + int_decimal(l as int) + " OFFSET "@, int_decimal(o as int));
        }
    }
}

/// Every value of a SELECT is bound to one `?` of its text, and the other parts of the text
/// hold no `?`: when the table and column names hold no `?`, there are as many marks as values.
pub proof fn lemma_select_marks(
    table: Seq<char>,
    columns: Seq<Column>,
    filters: Seq<Filter>,
    orders: Seq<(Seq<char>, Direction)>,
    limit: Option<i64>,
    offset: Option<i64>,
)
    requires
        mark_free(table),
        forall|i: int| 0 <= i < columns.len() ==> mark_free(#[trigger] columns[i].name@),
        all_mark_free(filters),
        orders_wf(orders),
    ensures
        count_marks(select_sql(table, columns, filters, orders, limit, offset)) == all_params(
            filters,
        ).len(),
{
    reveal_strlit("SELECT ");
    reveal_strlit(" FROM ");
    lemma_count_free("SELECT "@);
    lemma_count_free(" FROM "@);
    lemma_select_cols_marks(columns);
    lemma_quoted_marks(table);
    lemma_count_free(table);
    lemma_where_marks(filters);
    lemma_order_marks(orders);
    lemma_limit_marks(limit, offset);
    let a = "SELECT "@ + select_cols_sql(columns);
    let b = a + " FROM "@;
    let c = b + quoted(table);
    let d = c + where_sql(filters);
    let e = d + order_sql(orders);
    lemma_count_concat("SELECT "@, select_cols_sql(columns));
    lemma_count_concat(a, " FROM "@);
    lemma_count_concat(b, quoted(table));
    lemma_count_concat(c, where_sql(filters));
    lemma_count_concat(d, order_sql(orders));
    lemma_count_concat(e, limit_sql(limit, offset));
}

/// The count statement holds as many `?` as values when the table name holds none.
pub proof fn lemma_count_query_marks(table: Seq<char>, filters: Seq<Filter>)
    requires
        mark_free(table),
        all_mark_free(filters),
    ensures
        count_marks(count_sql(table, filters)) == all_params(filters).len(),
{
    reveal_strlit("SELECT COUNT(*) FROM ");
    reveal_strlit(" ");
    lemma_count_free("SELECT COUNT(*) FROM "@);
    lemma_count_free(" "@);
    lemma_quoted_marks(table);
    lemma_count_free(table);
    lemma_where_marks(filters);
    lemma_count_concat("SELECT COUNT(*) FROM "@, quoted(table));
    lemma_count_concat("SELECT COUNT(*) FROM "@ + quoted(table), " "@);
    lemma_count_concat("SELECT COUNT(*) FROM "@ + quoted(table) + " "@, where_sql(filters));
}

} // verus!
