// The decisions of the todo repository that do not touch the database: checking titles and
// names, checking a category, and pairing or grouping tasks with their categories.
use vstd::prelude::*;

use crate::database::error::DbError;
use crate::database::ident::{quoted, valid_identifier};
use crate::database::query::{Direction, Filter, QueryBuilder};
use crate::database::record::DbRecord;
use crate::database::value::SqlVal;
use crate::ia::category::{category_columns, Category};
use crate::ia::task::{task_columns, Task};
use crate::text::{str_equal, to_owned_string, trim_white, trim_white_exec};

verus! {

broadcast use vstd::seq_lib::group_seq_properties;

/// `e` is a validation error with the message `msg`.
pub open spec fn is_validation(e: DbError, msg: Seq<char>) -> bool {
    e matches DbError::Validation(m) && m@ == msg
}

/// The trimmed title, refused when nothing is left.
pub fn checked_title(title: &str) -> (res: Result<&str, DbError>)
    ensures
        trim_white(title@).len() > 0 ==> (res matches Ok(t) && t@ == trim_white(title@)),
        trim_white(title@).len() == 0 ==> (res matches Err(e) && is_validation(
            e,
            "title cannot be empty"@,
        )),
{
    let t: &str = trim_white_exec(title);
    if t.unicode_len() == 0 {
        return Err(DbError::Validation(to_owned_string("title cannot be empty")));
    }
    Ok(t)
}

/// The trimmed category name, refused when nothing is left.
pub fn checked_name(name: &str) -> (res: Result<&str, DbError>)
    ensures
        trim_white(name@).len() > 0 ==> (res matches Ok(t) && t@ == trim_white(name@)),
        trim_white(name@).len() == 0 ==> (res matches Err(e) && is_validation(
            e,
            "name cannot be empty"@,
        )),
{
    let t: &str = trim_white_exec(name);
    if t.unicode_len() == 0 {
        return Err(DbError::Validation(to_owned_string("name cannot be empty")));
    }
    Ok(t)
}

/// A task may be filed under a category only when the category belongs to the user and is
/// not deleted.
pub fn check_category_owner(cat: &Category, user_id: i64) -> (res: Result<(), DbError>)
    ensures
        res is Ok <==> cat.user_id == user_id && !cat.deleted,
        res matches Err(e) ==> is_validation(e, "category not found for this user"@),
{
    if cat.user_id != user_id || cat.deleted {
        return Err(DbError::Validation(to_owned_string("category not found for this user")));
    }
    Ok(())
}

/// The category ids of the tasks, each once.
pub open spec fn category_ids(tasks: Seq<Task>) -> Set<i64> {
    Set::new(|id: i64| exists|i: int| 0 <= i < tasks.len() && tasks[i].category_id == Some(id))
}

/// The category ids that the tasks refer to, each once, in the order they first appear.
pub fn distinct_category_ids(tasks: &Vec<Task>) -> (res: Vec<i64>)
    ensures
        res@.no_duplicates(),
        res@.to_set() == category_ids(tasks@),
{
    let mut res: Vec<i64> = Vec::new();
    let n: usize = tasks.len();
    let mut i: usize = 0;
    while i < n
        invariant
            n == tasks@.len(),
            i <= n,
            res@.no_duplicates(),
            forall|k: int|
                #![trigger res@[k]]
                0 <= k < res@.len() ==> exists|j: int|
                    0 <= j < i && #[trigger] tasks@[j].category_id == Some(res@[k]),
            forall|j: int|
                0 <= j < i && (#[trigger] tasks@[j].category_id) is Some ==> res@.contains(
                    tasks@[j].category_id->0,
                ),
        decreases n - i,
    {
        match tasks[i].category_id {
            Some(id) => {
                let mut found: bool = false;
                let m: usize = res.len();
                let mut k: usize = 0;
                while k < m
                    invariant
                        m == res@.len(),
                        k <= m,
                        found <==> exists|q: int| 0 <= q < k && res@[q] == id,
                    decreases m - k,
                {
                    if res[k] == id {
                        found = true;
                    }
                    k = k + 1;
                }
                if !found {
                    let ghost before = res@;
                    res.push(id);
                    assert forall|k: int| #![trigger res@[k]] 0 <= k < res@.len() implies exists|j: int|
                        0 <= j < i + 1 && #[trigger] tasks@[j].category_id == Some(res@[k]) by {
                        if k < before.len() {
                            assert(res@[k] == before[k]);
                        } else {
                            assert(tasks@[i as int].category_id == Some(res@[k]));
                        }
                    }
                    assert forall|j: int|
                        0 <= j < i + 1 && (#[trigger] tasks@[j].category_id) is Some implies res@.contains(
                        tasks@[j].category_id->0,
                    ) by {
                        if j < i {
                            let w = choose|q: int| 0 <= q < before.len() && before[q] == tasks@[j].category_id->0;
                            assert(res@[w] == before[w]);
                        } else {
                            assert(res@[before.len() as int] == id);
                        }
                    }
                } else {
                    assert(res@.contains(id));
                }
            },
            None => {},
        }
        i = i + 1;
    }
    assert(res@.to_set() =~= category_ids(tasks@)) by {
        assert forall|id: i64| res@.to_set().contains(id) implies category_ids(tasks@).contains(id) by {
            let k = choose|k: int| 0 <= k < res@.len() && res@[k] == id;
            let j = choose|j: int| 0 <= j < n && #[trigger] tasks@[j].category_id == Some(res@[k]);
            assert(0 <= j < tasks@.len() && tasks@[j].category_id == Some(id));
        }
        assert forall|id: i64| category_ids(tasks@).contains(id) implies res@.to_set().contains(id) by {
            let j = choose|j: int| 0 <= j < tasks@.len() && tasks@[j].category_id == Some(id);
            assert(tasks@[j].category_id is Some);
        }
    }
    res
}

/// The last live (not deleted) category of `cats` with the id `id`.
pub open spec fn live_category(cats: Seq<Category>, id: i64) -> Option<Category>
    decreases cats.len(),
{
    if cats.len() == 0 {
        None
    } else if cats.last().id == id && !cats.last().deleted {
        Some(cats.last())
    } else {
        live_category(cats.drop_last(), id)
    }
}

/// The live category of a task, if it has one.
pub open spec fn category_of(cats: Seq<Category>, t: Task) -> Option<Category> {
    match t.category_id {
        Some(id) => live_category(cats, id),
        None => None,
    }
}

/// A copy of the last live category of `cats` with the id `id`.
fn find_live(cats: &Vec<Category>, id: i64) -> (res: Option<Category>)
    ensures
        res == live_category(cats@, id),
{
    let mut j: usize = cats.len();
    while j > 0
        invariant
            j <= cats@.len(),
            live_category(cats@, id) == live_category(cats@.take(j as int), id),
        decreases j,
    {
        assert(cats@.take(j as int).drop_last() =~= cats@.take(j - 1));
        assert(cats@.take(j as int).last() == cats@[j - 1]);
        if cats[j - 1].id == id && !cats[j - 1].deleted {
            return Some(cats[j - 1].duplicate());
        }
        j = j - 1;
    }
    None
}

/// Each task with its live category (`None` when it has no category, or its category is
/// deleted or missing), in the order of the tasks.
pub fn attach_categories(tasks: Vec<Task>, cats: &Vec<Category>) -> (res: Vec<(Task, Option<Category>)>)
    ensures
        res@.len() == tasks@.len(),
        forall|i: int|
            0 <= i < tasks@.len() ==> (#[trigger] res@[i]).0 == tasks@[i] && res@[i].1
                == category_of(cats@, tasks@[i]),
{
    let ghost orig = tasks@;
    let n: usize = tasks.len();
    let mut rest: Vec<Task> = tasks;
    let mut rev: Vec<Task> = Vec::new();
    while rest.len() > 0
        invariant
            n == orig.len(),
            rest@.len() + rev@.len() == n,
            forall|j: int| 0 <= j < rest@.len() ==> #[trigger] rest@[j] == orig[j],
            forall|j: int| 0 <= j < rev@.len() ==> #[trigger] rev@[j] == orig[n - 1 - j],
        decreases rest@.len(),
    {
        let x: Task = rest.pop().unwrap();
        rev.push(x);
    }
    let mut out: Vec<(Task, Option<Category>)> = Vec::new();
    while rev.len() > 0
        invariant
            n == orig.len(),
            rev@.len() + out@.len() == n,
            forall|j: int| 0 <= j < rev@.len() ==> #[trigger] rev@[j] == orig[n - 1 - j],
            forall|j: int|
                0 <= j < out@.len() ==> (#[trigger] out@[j]).0 == orig[j] && out@[j].1
                    == category_of(cats@, orig[j]),
        decreases rev@.len(),
    {
        let k: usize = out.len();
        let t: Task = rev.pop().unwrap();
        assert(t == orig[k as int]);
        let cat: Option<Category> = match t.category_id {
            Some(id) => find_live(cats, id),
            None => None,
        };
        out.push((t, cat));
    }
    out
}

/// The name of the last category of `cats` with the id `id`.
pub open spec fn category_name(cats: Seq<Category>, id: i64) -> Option<Seq<char>>
    decreases cats.len(),
{
    if cats.len() == 0 {
        None
    } else if cats.last().id == id {
        Some(cats.last().name@)
    } else {
        category_name(cats.drop_last(), id)
    }
}

/// The group of a task: the name of its category, or `Uncategorized` when it has none or
/// its category is not among `cats`.
pub open spec fn group_key(cats: Seq<Category>, t: Task) -> Seq<char> {
    match t.category_id {
        Some(id) => match category_name(cats, id) {
            Some(n) => n,
            None => "Uncategorized"@,
        },
        None => "Uncategorized"@,
    }
}

/// The tasks of the group `key`.
pub open spec fn in_group(cats: Seq<Category>, key: Seq<char>) -> spec_fn(Task) -> bool {
    |t: Task| group_key(cats, t) == key
}

/// The group name of a task.
fn group_key_exec(cats: &Vec<Category>, t: &Task) -> (res: String)
    ensures
        res@ == group_key(cats@, *t),
{
    match t.category_id {
        Some(id) => {
            let mut j: usize = cats.len();
            while j > 0
                invariant
                    j <= cats@.len(),
                    t.category_id == Some(id),
                    category_name(cats@, id) == category_name(cats@.take(j as int), id),
                decreases j,
            {
                assert(cats@.take(j as int).drop_last() =~= cats@.take(j - 1));
                assert(cats@.take(j as int).last() == cats@[j - 1]);
                if cats[j - 1].id == id {
                    assert(category_name(cats@.take(j as int), id) == Some(cats@[j - 1].name@));
                    return cats[j - 1].name.clone();
                }
                j = j - 1;
            }
            to_owned_string("Uncategorized")
        },
        None => to_owned_string("Uncategorized"),
    }
}

/// Filtering a sequence where no element passes gives nothing.
proof fn lemma_filter_none(s: Seq<Task>, pred: spec_fn(Task) -> bool)
    requires
        forall|i: int| 0 <= i < s.len() ==> !pred(#[trigger] s[i]),
    ensures
        s.filter(pred) == Seq::<Task>::empty(),
    decreases s.len(),
{
    reveal(Seq::filter);
    if s.len() > 0 {
        lemma_filter_none(s.drop_last(), pred);
    }
}

/// One of the groups has the name `key`.
pub open spec fn has_group(groups: Seq<(String, Vec<Task>)>, key: Seq<char>) -> bool {
    exists|k: int| 0 <= k < groups.len() && (#[trigger] groups[k]).0@ == key
}

/// The tasks grouped by the name of their category (those without a known category under
/// `Uncategorized`): each name once, in the order in which it first comes, with its tasks in
/// their order.
pub fn group_by_category(cats: &Vec<Category>, tasks: Vec<Task>) -> (res: Vec<(String, Vec<Task>)>)
    ensures
        forall|a: int, b: int| 0 <= a < b < res@.len() ==> (#[trigger] res@[a]).0@ != (#[trigger] res@[b]).0@,
        forall|k: int|
            0 <= k < res@.len() ==> (#[trigger] res@[k]).1@ == tasks@.filter(in_group(cats@, res@[k].0@)),
        forall|k: int| 0 <= k < res@.len() ==> (#[trigger] res@[k]).1@.len() > 0,
        forall|j: int| 0 <= j < tasks@.len() ==> has_group(res@, group_key(cats@, #[trigger] tasks@[j])),
{
    let ghost orig = tasks@;
    let n: usize = tasks.len();
    let mut rest: Vec<Task> = tasks;
    let mut rev: Vec<Task> = Vec::new();
    while rest.len() > 0
        invariant
            n == orig.len(),
            rest@.len() + rev@.len() == n,
            forall|j: int| 0 <= j < rest@.len() ==> #[trigger] rest@[j] == orig[j],
            forall|j: int| 0 <= j < rev@.len() ==> #[trigger] rev@[j] == orig[n - 1 - j],
        decreases rest@.len(),
    {
        let x: Task = rest.pop().unwrap();
        rev.push(x);
    }
    let mut groups: Vec<(String, Vec<Task>)> = Vec::new();
    let mut done: usize = 0;
    while rev.len() > 0
        invariant
            n == orig.len(),
            rev@.len() + done == n,
            forall|j: int| 0 <= j < rev@.len() ==> #[trigger] rev@[j] == orig[n - 1 - j],
            forall|a: int, b: int|
                0 <= a < b < groups@.len() ==> (#[trigger] groups@[a]).0@ != (#[trigger] groups@[b]).0@,
            forall|k: int|
                0 <= k < groups@.len() ==> (#[trigger] groups@[k]).1@ == orig.take(done as int).filter(
                    in_group(cats@, groups@[k].0@),
                ),
            forall|j: int| 0 <= j < done ==> has_group(groups@, group_key(cats@, #[trigger] orig[j])),
            forall|k: int| 0 <= k < groups@.len() ==> (#[trigger] groups@[k]).1@.len() > 0,
        decreases rev@.len(),
    {
        let t: Task = rev.pop().unwrap();
        assert(t == orig[done as int]);
        let ghost prefix = orig.take(done as int);
        assert(orig.take(done + 1) =~= prefix.push(t));
        let key: String = group_key_exec(cats, &t);
        let m: usize = groups.len();
        let mut k: usize = 0;
        let mut found: bool = false;
        while k < m && !found
            invariant
                m == groups@.len(),
                k <= m,
                found ==> k > 0 && groups@[k - 1].0@ == key@,
                !found ==> forall|q: int| 0 <= q < k ==> (#[trigger] groups@[q]).0@ != key@,
            decreases m - k,
        {
            if str_equal(groups[k].0.as_str(), key.as_str()) {
                found = true;
            }
            k = k + 1;
        }
        let ghost old_groups = groups@;
        if found {
            let idx: usize = k - 1;
            let mut g: (String, Vec<Task>) = groups.remove(idx);
            let ghost old_members = g.1@;
            g.1.push(t);
            groups.insert(idx, g);
            proof {
                assert(groups@ =~= old_groups.update(idx as int, g));
                assert forall|q: int| 0 <= q < groups@.len() implies (#[trigger] groups@[q]).1@
                    == orig.take(done + 1).filter(in_group(cats@, groups@[q].0@)) by {
                    prefix.lemma_filter_push(t, in_group(cats@, groups@[q].0@));
                    if q == idx {
                        assert(g.1@ =~= old_members.push(t));
                    } else {
                        assert(groups@[q] == old_groups[q]);
                    }
                }
                assert forall|j: int| 0 <= j < done + 1 implies has_group(groups@, group_key(cats@, #[trigger] orig[j])) by {
                    if j < done {
                        let q = choose|q: int| 0 <= q < old_groups.len() && (#[trigger] old_groups[q]).0@ == group_key(cats@, orig[j]);
                        assert(groups@[q].0@ == old_groups[q].0@);
                    } else {
                        assert(groups@[idx as int].0@ == group_key(cats@, orig[j]));
                    }
                }
            }
        } else {
            let ghost key_view = key@;
            let mut members: Vec<Task> = Vec::new();
            members.push(t);
            groups.push((key, members));
            proof {
                assert forall|j: int| 0 <= j < prefix.len() implies !in_group(cats@, key_view)(#[trigger] prefix[j]) by {
                    let q = choose|q: int| 0 <= q < old_groups.len() && (#[trigger] old_groups[q]).0@ == group_key(cats@, orig[j]);
                    assert(old_groups[q].0@ != key_view);
                }
                lemma_filter_none(prefix, in_group(cats@, key_view));
                assert forall|q: int| 0 <= q < groups@.len() implies (#[trigger] groups@[q]).1@
                    == orig.take(done + 1).filter(in_group(cats@, groups@[q].0@)) by {
                    prefix.lemma_filter_push(t, in_group(cats@, groups@[q].0@));
                    if q == m {
                        assert(groups@[q].1@ =~= Seq::<Task>::empty().push(t));
                    } else {
                        assert(groups@[q] == old_groups[q]);
                    }
                }
                assert forall|j: int| 0 <= j < done + 1 implies has_group(groups@, group_key(cats@, #[trigger] orig[j])) by {
                    if j < done {
                        let q = choose|q: int| 0 <= q < old_groups.len() && (#[trigger] old_groups[q]).0@ == group_key(cats@, orig[j]);
                        assert(groups@[q] == old_groups[q]);
                    } else {
                        assert(groups@[m as int].0@ == group_key(cats@, orig[j]));
                    }
                }
                assert forall|a: int, b: int| 0 <= a < b < groups@.len() implies (#[trigger] groups@[a]).0@ != (#[trigger] groups@[b]).0@ by {
                    if b == m {
                        assert(groups@[a] == old_groups[a]);
                    } else {
                        assert(groups@[a] == old_groups[a]);
                        assert(groups@[b] == old_groups[b]);
                    }
                }
            }
        }
        done = done + 1;
    }
    assert(orig.take(n as int) =~= orig);
    groups
}

/// `"column" = ?` bound to `v`.
pub open spec fn eq_filter(f: Filter, name: Seq<char>, v: SqlVal) -> bool {
    f matches Filter::Comparison { columnName, operator, value: Some(x) } && columnName@ == quoted(
        name,
    ) && operator@ == "="@ && x@ == v
}

/// The query reads `table` with `columns`, without limit or offset.
pub open spec fn reads(b: QueryBuilder, table: Seq<char>, columns: Seq<crate::database::column::Column>) -> bool {
    &&& b.wf()
    &&& b.spec_table()@ == table
    &&& b.spec_columns() == columns
    &&& b.spec_limit() is None
    &&& b.spec_offset() is None
}

/// The live categories of the user, by name.
pub fn categories_query(user_id: i64) -> (res: QueryBuilder)
    ensures
        reads(res, "categories"@, category_columns()),
        res.spec_filters().len() == 2,
        eq_filter(res.spec_filters()[0], "user_id"@, SqlVal::Integer(user_id)),
        eq_filter(res.spec_filters()[1], "deleted"@, SqlVal::Integer(0)),
        res.spec_orders() == seq![(quoted("name"@), Direction::Asc)],
{
    proof {
        reveal_strlit("user_id");
        reveal_strlit("deleted");
        reveal_strlit("name");
        assert(valid_identifier("user_id"@));
        assert(valid_identifier("deleted"@));
        assert(valid_identifier("name"@));
    }
    let b0 = QueryBuilder::new(Category::table_name(), Category::columns());
    let b1 = b0.where_eq("user_id", user_id);
    let b2 = b1.where_eq("deleted", false);
    assert(b2.spec_filters()[0] == b1.last_filter());
    let b3 = b2.order_by("name", Direction::Asc);
    b3
}

/// The tasks of the user with the three filters `user_id`, then `first` equal to `v`, then
/// `deleted` false.
pub open spec fn task_filters(b: QueryBuilder, user_id: i64, first: Seq<char>, v: SqlVal) -> bool {
    &&& b.spec_filters().len() == 3
    &&& eq_filter(b.spec_filters()[0], "user_id"@, SqlVal::Integer(user_id))
    &&& eq_filter(b.spec_filters()[1], first, v)
    &&& eq_filter(b.spec_filters()[2], "deleted"@, SqlVal::Integer(0))
}

/// The live tasks of the user, by id.
pub fn all_tasks_query(user_id: i64) -> (res: QueryBuilder)
    ensures
        reads(res, "tasks"@, task_columns()),
        res.spec_filters().len() == 2,
        eq_filter(res.spec_filters()[0], "user_id"@, SqlVal::Integer(user_id)),
        eq_filter(res.spec_filters()[1], "deleted"@, SqlVal::Integer(0)),
        res.spec_orders() == seq![(quoted("id"@), Direction::Asc)],
{
    proof {
        reveal_strlit("user_id");
        reveal_strlit("deleted");
        reveal_strlit("id");
        assert(valid_identifier("user_id"@));
        assert(valid_identifier("deleted"@));
        assert(valid_identifier("id"@));
    }
    let b0 = QueryBuilder::new(Task::table_name(), Task::columns());
    let b1 = b0.where_eq("user_id", user_id);
    let b2 = b1.where_eq("deleted", false);
    assert(b2.spec_filters()[0] == b1.last_filter());
    b2.order_by("id", Direction::Asc)
}

/// The live tasks of the user whose column `col` equals `v`, then ordered as given.
fn tasks_where(user_id: i64, col: &'static str, done_or_cat: crate::database::value::SqlValue) -> (res: QueryBuilder)
    requires
        valid_identifier(col@),
    ensures
        reads(res, "tasks"@, task_columns()),
        task_filters(res, user_id, col@, done_or_cat@),
        res.spec_orders().len() == 0,
{
    proof {
        reveal_strlit("user_id");
        reveal_strlit("deleted");
        assert(valid_identifier("user_id"@));
        assert(valid_identifier("deleted"@));
    }
    let b0 = QueryBuilder::new(Task::table_name(), Task::columns());
    let b1 = b0.where_eq("user_id", user_id);
    let b2 = b1.where_filter(Filter::Comparison {
        columnName: crate::database::ident::quote_ident(col),
        operator: "=",
        value: Some(done_or_cat),
    });
    proof {
        reveal_strlit("=");
    }
    let b3 = b2.where_eq("deleted", false);
    assert(b3.spec_filters()[0] == b1.last_filter());
    assert(b3.spec_filters()[1] == b2.last_filter());
    b3
}

/// The pending (not done) live tasks of the user, by id.
pub fn pending_query(user_id: i64) -> (res: QueryBuilder)
    ensures
        reads(res, "tasks"@, task_columns()),
        task_filters(res, user_id, "done"@, SqlVal::Integer(0)),
        res.spec_orders() == seq![(quoted("id"@), Direction::Asc)],
{
    proof {
        reveal_strlit("done");
        reveal_strlit("id");
        assert(valid_identifier("done"@));
        assert(valid_identifier("id"@));
    }
    tasks_where(user_id, "done", crate::database::value::SqlValue::Integer(0)).order_by("id", Direction::Asc)
}

/// The completed live tasks of the user, most recently updated first.
pub fn completed_query(user_id: i64) -> (res: QueryBuilder)
    ensures
        reads(res, "tasks"@, task_columns()),
        task_filters(res, user_id, "done"@, SqlVal::Integer(1)),
        res.spec_orders() == seq![(quoted("updated_at"@), Direction::Desc)],
{
    proof {
        reveal_strlit("done");
        reveal_strlit("updated_at");
        assert(valid_identifier("done"@));
        assert(valid_identifier("updated_at"@));
    }
    tasks_where(user_id, "done", crate::database::value::SqlValue::Integer(1)).order_by(
        "updated_at",
        Direction::Desc,
    )
}

/// The live tasks of the user in the category `category_id`, by id.
pub fn by_category_query(user_id: i64, category_id: i64) -> (res: QueryBuilder)
    ensures
        reads(res, "tasks"@, task_columns()),
        task_filters(res, user_id, "category_id"@, SqlVal::Integer(category_id)),
        res.spec_orders() == seq![(quoted("id"@), Direction::Asc)],
{
    proof {
        reveal_strlit("category_id");
        reveal_strlit("id");
        assert(valid_identifier("category_id"@));
        assert(valid_identifier("id"@));
    }
    tasks_where(user_id, "category_id", crate::database::value::SqlValue::Integer(category_id)).order_by(
        "id",
        Direction::Asc,
    )
}

/// The live tasks of the user without a category, by id.
pub fn uncategorized_query(user_id: i64) -> (res: QueryBuilder)
    ensures
        reads(res, "tasks"@, task_columns()),
        res.spec_filters().len() == 3,
        eq_filter(res.spec_filters()[0], "user_id"@, SqlVal::Integer(user_id)),
        res.spec_filters()[1] matches Filter::Comparison { columnName, operator, value: None }
            && columnName@ == quoted("category_id"@) && operator@ == "IS NULL"@,
        eq_filter(res.spec_filters()[2], "deleted"@, SqlVal::Integer(0)),
        res.spec_orders() == seq![(quoted("id"@), Direction::Asc)],
{
    proof {
        reveal_strlit("user_id");
        reveal_strlit("deleted");
        reveal_strlit("category_id");
        reveal_strlit("id");
        assert(valid_identifier("user_id"@));
        assert(valid_identifier("deleted"@));
        assert(valid_identifier("category_id"@));
        assert(valid_identifier("id"@));
    }
    let b0 = QueryBuilder::new(Task::table_name(), Task::columns());
    let b1 = b0.where_eq("user_id", user_id);
    let b2 = b1.where_null("category_id");
    let b3 = b2.where_eq("deleted", false);
    assert(b3.spec_filters()[0] == b1.last_filter());
    assert(b3.spec_filters()[1] == b2.last_filter());
    b3.order_by("id", Direction::Asc)
}

/// `%`, the trimmed text, `%`: a LIKE pattern that matches titles containing the text.
pub open spec fn contains_pattern(q: Seq<char>) -> Seq<char> {
    "%"@ + trim_white(q) + "%"@
}

/// The live tasks of the user whose title contains the trimmed text `q`.
pub fn search_query(user_id: i64, q: &str) -> (res: QueryBuilder)
    ensures
        reads(res, "tasks"@, task_columns()),
        res.spec_filters().len() == 3,
        eq_filter(res.spec_filters()[0], "user_id"@, SqlVal::Integer(user_id)),
        eq_filter(res.spec_filters()[1], "deleted"@, SqlVal::Integer(0)),
        res.spec_filters()[2] matches Filter::Comparison { columnName, operator, value: Some(v) }
            && columnName@ == quoted("title"@) && operator@ == "LIKE"@ && v@ == SqlVal::Text(
            contains_pattern(q@),
        ),
        res.spec_orders().len() == 0,
{
    proof {
        reveal_strlit("user_id");
        reveal_strlit("deleted");
        reveal_strlit("title");
        assert(valid_identifier("user_id"@));
        assert(valid_identifier("deleted"@));
        assert(valid_identifier("title"@));
    }
    let mut pattern: String = to_owned_string("%");
    pattern.append(trim_white_exec(q));
    pattern.append("%");
    let b0 = QueryBuilder::new(Task::table_name(), Task::columns());
    let b1 = b0.where_eq("user_id", user_id);
    let b2 = b1.where_eq("deleted", false);
    let b3 = b2.where_like("title", pattern);
    assert(b3.spec_filters()[0] == b1.last_filter());
    assert(b3.spec_filters()[1] == b2.last_filter());
    b3
}

} // verus!
