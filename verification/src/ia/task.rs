use vstd::prelude::*;

use crate::database::clock::now;
use crate::database::column::{ColType, Column, IndexDef, OnDelete};
use crate::database::error::DbError;
use crate::database::record::{
    field_ok, fields_ok, first_field_error, lemma_first_position_at, row_value, value_position,
    DbRecord, FieldKind, ValueSet,
};
use crate::database::value::{SqlVal, SqlValue};
use crate::text::{to_owned_string, trim_white, trim_white_exec};

verus! {

/// One todo entry, possibly in a category.
#[derive(Clone, Debug)]
pub struct Task {
    pub id: i64,
    pub user_id: i64,
    /// The category (`None`: uncategorized).
    pub category_id: Option<i64>,
    pub title: String,
    pub done: bool,
    pub deleted: bool,
    pub updated_at: i64,
}

impl Task {
    /// A new uncategorized task of `user_id` with the trimmed title, not inserted yet, neither
    /// done nor deleted, stamped now.
    pub fn new(user_id: i64, title: &str) -> (res: Self)
        ensures
            res.id == 0,
            res.user_id == user_id,
            res.category_id is None,
            res.title@ == trim_white(title@),
            !res.done,
            !res.deleted,
    {
        Task {
            id: 0,
            user_id,
            category_id: None,
            title: to_owned_string(trim_white_exec(title)),
            done: false,
            deleted: false,
            updated_at: now(),
        }
    }

    /// The same task in the category `category_id`.
    pub fn in_category(self, category_id: i64) -> (res: Self)
        ensures
            res == (Task { category_id: Some(category_id), ..self }),
    {
        let mut t = self;
        t.category_id = Some(category_id);
        t
    }
}

/// The columns of a task row and how each is read.
pub open spec fn task_fields() -> Seq<(Seq<char>, FieldKind)> {
    seq![
        ("id"@, FieldKind::Int),
        ("user_id"@, FieldKind::Int),
        ("category_id"@, FieldKind::OptInt),
        ("title"@, FieldKind::Text),
        ("done"@, FieldKind::Int),
        ("deleted"@, FieldKind::Int),
        ("updated_at"@, FieldKind::Int),
    ]
}

/// The columns of the `tasks` table besides `id`; `category_id` refers to `categories` and is
/// set to NULL when its category is deleted.
pub open spec fn task_columns() -> Seq<Column> {
    seq![
        Column { name: "user_id", col_type: ColType::Integer, not_null: true, default: None, references: None, on_delete: None },
        Column { name: "category_id", col_type: ColType::Integer, not_null: false, default: None, references: Some(("categories", "id")), on_delete: Some(OnDelete::SetNull) },
        Column { name: "title", col_type: ColType::Text, not_null: true, default: None, references: None, on_delete: None },
        Column { name: "done", col_type: ColType::Integer, not_null: true, default: Some("0"), references: None, on_delete: None },
        Column { name: "deleted", col_type: ColType::Integer, not_null: true, default: Some("0"), references: None, on_delete: None },
        Column { name: "updated_at", col_type: ColType::Integer, not_null: true, default: Some("(unixepoch())"), references: None, on_delete: None },
    ]
}

impl DbRecord for Task {
    fn table_name() -> (res: &'static str)
        ensures
            res@ == "tasks"@,
    {
        "tasks"
    }

    fn columns() -> (res: Vec<Column>)
        ensures
            res@ == task_columns(),
    {
        let v = vec![
            Column::new("user_id", ColType::Integer).not_null(),
            Column::new("category_id", ColType::Integer).references("categories", "id").on_delete(
                OnDelete::SetNull,
            ),
            Column::new("title", ColType::Text).not_null(),
            Column::new("done", ColType::Integer).not_null().default("0"),
            Column::new("deleted", ColType::Integer).not_null().default("0"),
            Column::new("updated_at", ColType::Integer).not_null().default("(unixepoch())"),
        ];
        assert(v@ =~= task_columns());
        v
    }

    /// Two indexes: `user_id, deleted` and `user_id, category_id, deleted`.
    fn indexes() -> (res: Vec<IndexDef>)
        ensures
            res@.len() == 2,
            res@[0].columns@ == seq!["user_id", "deleted"],
            !res@[0].unique,
            res@[1].columns@ == seq!["user_id", "category_id", "deleted"],
            !res@[1].unique,
    {
        vec![
            IndexDef::new(&["user_id", "deleted"]),
            IndexDef::new(&["user_id", "category_id", "deleted"]),
        ]
    }

    fn from_values(v: &ValueSet) -> (res: Result<Self, DbError>)
        ensures
            res is Ok <==> fields_ok(*v, task_fields()),
            res matches Err(e) ==> first_field_error(*v, task_fields(), e),
            res matches Ok(t) ==> {
                &&& row_value(*v, "id"@) == Some(SqlVal::Integer(t.id))
                &&& row_value(*v, "user_id"@) == Some(SqlVal::Integer(t.user_id))
                &&& row_value(*v, "category_id"@) == Some(
                    match t.category_id {
                        Some(c) => SqlVal::Integer(c),
                        None => SqlVal::Null,
                    },
                )
                &&& row_value(*v, "title"@) == Some(SqlVal::Text(t.title@))
                &&& exists|i: i64| row_value(*v, "done"@) == Some(SqlVal::Integer(i)) && t.done == (i != 0)
                &&& exists|i: i64| row_value(*v, "deleted"@) == Some(SqlVal::Integer(i)) && t.deleted == (i != 0)
                &&& row_value(*v, "updated_at"@) == Some(SqlVal::Integer(t.updated_at))
            },
    {
        let ghost f = task_fields();
        let id: i64 = match v.read_i64("id") {
            Ok(x) => x,
            Err(e) => {
                assert(!field_ok(row_value(*v, f[0].0), f[0].1));
                return Err(e);
            },
        };
        assert(field_ok(row_value(*v, f[0].0), f[0].1));
        let user_id: i64 = match v.read_i64("user_id") {
            Ok(x) => x,
            Err(e) => {
                assert(!field_ok(row_value(*v, f[1].0), f[1].1));
                return Err(e);
            },
        };
        assert(field_ok(row_value(*v, f[1].0), f[1].1));
        let category_id: Option<i64> = match v.read_opt_i64("category_id") {
            Ok(x) => x,
            Err(e) => {
                assert(!field_ok(row_value(*v, f[2].0), f[2].1));
                return Err(e);
            },
        };
        assert(field_ok(row_value(*v, f[2].0), f[2].1));
        let title: String = match v.read_text("title") {
            Ok(x) => x,
            Err(e) => {
                assert(!field_ok(row_value(*v, f[3].0), f[3].1));
                return Err(e);
            },
        };
        assert(field_ok(row_value(*v, f[3].0), f[3].1));
        let done: bool = match v.read_bool("done") {
            Ok(x) => x,
            Err(e) => {
                assert(!field_ok(row_value(*v, f[4].0), f[4].1));
                return Err(e);
            },
        };
        assert(field_ok(row_value(*v, f[4].0), f[4].1));
        let deleted: bool = match v.read_bool("deleted") {
            Ok(x) => x,
            Err(e) => {
                assert(!field_ok(row_value(*v, f[5].0), f[5].1));
                return Err(e);
            },
        };
        assert(field_ok(row_value(*v, f[5].0), f[5].1));
        let updated_at: i64 = match v.read_i64("updated_at") {
            Ok(x) => x,
            Err(e) => {
                assert(!field_ok(row_value(*v, f[6].0), f[6].1));
                return Err(e);
            },
        };
        assert(field_ok(row_value(*v, f[6].0), f[6].1));
        Ok(Task { id, user_id, category_id, title, done, deleted, updated_at })
    }

    /// The pairs written: user, category (NULL when none), title, done, deleted, and
    /// `updated_at` stamped now.
    fn to_params(&self) -> (res: Vec<(&'static str, SqlValue)>)
        ensures
            res@.len() == 6,
            res@[0].0@ == "user_id"@ && res@[0].1@ == SqlVal::Integer(self.user_id),
            res@[1].0@ == "category_id"@ && res@[1].1@ == match self.category_id {
                Some(c) => SqlVal::Integer(c),
                None => SqlVal::Null,
            },
            res@[2].0@ == "title"@ && res@[2].1@ == SqlVal::Text(self.title@),
            res@[3].0@ == "done"@ && res@[3].1@ == SqlVal::Integer(if self.done { 1 } else { 0 }),
            res@[4].0@ == "deleted"@ && res@[4].1@ == SqlVal::Integer(if self.deleted { 1 } else { 0 }),
            res@[5].0@ == "updated_at"@ && res@[5].1 is Integer,
    {
        vec![
            ("user_id", SqlValue::from(self.user_id)),
            ("category_id", SqlValue::from(self.category_id)),
            ("title", SqlValue::from(self.title.clone())),
            ("done", SqlValue::from(self.done)),
            ("deleted", SqlValue::from(self.deleted)),
            ("updated_at", SqlValue::from(now())),
        ]
    }

    fn id(&self) -> (res: Option<i64>)
        ensures
            res == if self.id > 0 { Some(self.id) } else { None },
    {
        if self.id > 0 {
            Some(self.id)
        } else {
            None
        }
    }

    fn set_id(&mut self, id: i64)
        ensures
            *final(self) == (Task { id, ..*old(self) }),
    {
        self.id = id;
    }
}

/// The values of the row stored for `t`: its id, then the values of `to_params` with
/// `updated_at` stamped `ts`.
pub open spec fn task_row(t: Task, ts: i64) -> Seq<SqlVal> {
    seq![
        SqlVal::Integer(t.id),
        SqlVal::Integer(t.user_id),
        match t.category_id { Some(c) => SqlVal::Integer(c), None => SqlVal::Null },
        SqlVal::Text(t.title@),
        SqlVal::Integer(if t.done { 1 } else { 0 }),
        SqlVal::Integer(if t.deleted { 1 } else { 0 }),
        SqlVal::Integer(ts),
    ]
}

/// The names of the columns, in the order of `columns`.
pub open spec fn task_row_names() -> Seq<Seq<char>> {
    seq!["user_id"@, "category_id"@, "title"@, "done"@, "deleted"@, "updated_at"@]
}

/// What is written is read back: the row stored for a record, under the column names, can be
/// read by `from_values`, and each column gives the record's field (`updated_at` gives the
/// stamp).
pub proof fn lemma_task_row_roundtrip(t: Task, ts: i64, v: ValueSet)
    requires
        v.values@.map_values(|x: SqlValue| x@) == task_row(t, ts),
        v.column_names@.map_values(|n: &str| n@) == task_row_names(),
    ensures
        fields_ok(v, task_fields()),
        row_value(v, "id"@) == Some(SqlVal::Integer(t.id)),
        row_value(v, "user_id"@) == Some(SqlVal::Integer(t.user_id)),
        row_value(v, "category_id"@) == Some(match t.category_id { Some(c) => SqlVal::Integer(c), None => SqlVal::Null }),
        row_value(v, "title"@) == Some(SqlVal::Text(t.title@)),
        row_value(v, "done"@) == Some(SqlVal::Integer(if t.done { 1 } else { 0 })),
        row_value(v, "deleted"@) == Some(SqlVal::Integer(if t.deleted { 1 } else { 0 })),
        row_value(v, "updated_at"@) == Some(SqlVal::Integer(ts)),
{
    reveal_strlit("id");
    reveal_strlit("user_id");
    reveal_strlit("category_id");
    reveal_strlit("title");
    reveal_strlit("done");
    reveal_strlit("deleted");
    reveal_strlit("updated_at");
    let names = v.column_names@;
    let vals = v.values@;
    assert(names.map_values(|n: &str| n@).len() == names.len());
    assert(vals.map_values(|x: SqlValue| x@).len() == vals.len());
    assert(task_row_names().len() == 6);
    assert(task_row(t, ts).len() == 7);
    assert forall|i: int| 0 <= i < 6 implies names[i]@ == #[trigger] task_row_names()[i] by {
        assert(names.map_values(|n: &str| n@)[i] == names[i]@);
    }
    assert forall|i: int| 0 <= i < 7 implies vals[i]@ == #[trigger] task_row(t, ts)[i] by {
        assert(vals.map_values(|x: SqlValue| x@)[i] == vals[i]@);
    }
    assert(task_row_names()[0] == "user_id"@);
    assert(task_row_names()[1] == "category_id"@);
    assert(task_row_names()[2] == "title"@);
    assert(task_row_names()[3] == "done"@);
    assert(task_row_names()[4] == "deleted"@);
    assert(task_row_names()[5] == "updated_at"@);
    assert("user_id"@.len() == 7 && "category_id"@.len() == 11 && "title"@.len() == 5 && "done"@.len() == 4 && "deleted"@.len() == 7 && "updated_at"@.len() == 10 && "id"@.len() == 2);
    assert("user_id"@[0] != "deleted"@[0]);
    lemma_first_position_at(names, 0, "user_id"@);
    lemma_first_position_at(names, 1, "category_id"@);
    lemma_first_position_at(names, 2, "title"@);
    lemma_first_position_at(names, 3, "done"@);
    lemma_first_position_at(names, 4, "deleted"@);
    lemma_first_position_at(names, 5, "updated_at"@);
    assert(value_position(names, "user_id"@) == Some(1int));
    assert(value_position(names, "category_id"@) == Some(2int));
    assert(value_position(names, "title"@) == Some(3int));
    assert(value_position(names, "done"@) == Some(4int));
    assert(value_position(names, "deleted"@) == Some(5int));
    assert(value_position(names, "updated_at"@) == Some(6int));
    let f = task_fields();
    assert forall|i: int| 0 <= i < f.len() implies field_ok(row_value(v, f[i].0), #[trigger] f[i].1) by {
        assert(vals[i]@ == task_row(t, ts)[i]);
    }
}

} // verus!
