use vstd::prelude::*;

use crate::database::clock::now;
use crate::database::column::{ColType, Column, IndexDef};
use crate::database::error::DbError;
use crate::database::record::{
    field_ok, fields_ok, first_field_error, lemma_first_position_at, row_value, value_position,
    DbRecord, FieldKind, ValueSet,
};
use crate::database::value::{SqlVal, SqlValue};
use crate::text::{to_owned_string, trim_white, trim_white_exec};

verus! {

/// A grouping label for tasks; a task belongs to zero or one category.
#[derive(Clone, Debug)]
pub struct Category {
    pub id: i64,
    pub user_id: i64,
    pub name: String,
    /// An optional hex color, such as `#FF5733`.
    pub color: Option<String>,
    pub deleted: bool,
    pub updated_at: i64,
}

impl Category {
    /// A new category of `user_id` with the trimmed name and no color, not inserted yet, not
    /// deleted, stamped now.
    pub fn new(user_id: i64, name: &str) -> (res: Self)
        ensures
            res.id == 0,
            res.user_id == user_id,
            res.name@ == trim_white(name@),
            res.color is None,
            !res.deleted,
    {
        Category {
            id: 0,
            user_id,
            name: to_owned_string(trim_white_exec(name)),
            color: None,
            deleted: false,
            updated_at: now(),
        }
    }

    /// A copy of the category.
    pub fn duplicate(&self) -> (res: Category)
        ensures
            res == *self,
    {
        let color: Option<String> = match &self.color {
            Some(c) => Some(c.clone()),
            None => None,
        };
        Category {
            id: self.id,
            user_id: self.user_id,
            name: self.name.clone(),
            color,
            deleted: self.deleted,
            updated_at: self.updated_at,
        }
    }

    /// The same category with the color `color`.
    pub fn with_color(self, color: &str) -> (res: Self)
        ensures
            res.id == self.id,
            res.user_id == self.user_id,
            res.name == self.name,
            res.color matches Some(c) && c@ == color@,
            res.deleted == self.deleted,
            res.updated_at == self.updated_at,
    {
        let mut c = self;
        c.color = Some(to_owned_string(color));
        c
    }
}

/// The columns of a category row and how each is read.
pub open spec fn category_fields() -> Seq<(Seq<char>, FieldKind)> {
    seq![
        ("id"@, FieldKind::Int),
        ("user_id"@, FieldKind::Int),
        ("name"@, FieldKind::Text),
        ("color"@, FieldKind::OptText),
        ("deleted"@, FieldKind::Int),
        ("updated_at"@, FieldKind::Int),
    ]
}

/// The columns of the `categories` table besides `id`.
pub open spec fn category_columns() -> Seq<Column> {
    seq![
        Column { name: "user_id", col_type: ColType::Integer, not_null: true, default: None, references: None, on_delete: None },
        Column { name: "name", col_type: ColType::Text, not_null: true, default: None, references: None, on_delete: None },
        Column { name: "color", col_type: ColType::Text, not_null: false, default: None, references: None, on_delete: None },
        Column { name: "deleted", col_type: ColType::Integer, not_null: true, default: Some("0"), references: None, on_delete: None },
        Column { name: "updated_at", col_type: ColType::Integer, not_null: true, default: Some("(unixepoch())"), references: None, on_delete: None },
    ]
}

impl DbRecord for Category {
    fn table_name() -> (res: &'static str)
        ensures
            res@ == "categories"@,
    {
        "categories"
    }

    fn columns() -> (res: Vec<Column>)
        ensures
            res@ == category_columns(),
    {
        let v = vec![
            Column::new("user_id", ColType::Integer).not_null(),
            Column::new("name", ColType::Text).not_null(),
            Column::new("color", ColType::Text),
            Column::new("deleted", ColType::Integer).not_null().default("0"),
            Column::new("updated_at", ColType::Integer).not_null().default("(unixepoch())"),
        ];
        assert(v@ =~= category_columns());
        v
    }

    /// One index: `user_id, deleted`.
    fn indexes() -> (res: Vec<IndexDef>)
        ensures
            res@.len() == 1,
            res@[0].columns@ == seq!["user_id", "deleted"],
            !res@[0].unique,
    {
        vec![IndexDef::new(&["user_id", "deleted"])]
    }

    fn from_values(v: &ValueSet) -> (res: Result<Self, DbError>)
        ensures
            res is Ok <==> fields_ok(*v, category_fields()),
            res matches Err(e) ==> first_field_error(*v, category_fields(), e),
            res matches Ok(c) ==> {
                &&& row_value(*v, "id"@) == Some(SqlVal::Integer(c.id))
                &&& row_value(*v, "user_id"@) == Some(SqlVal::Integer(c.user_id))
                &&& row_value(*v, "name"@) == Some(SqlVal::Text(c.name@))
                &&& row_value(*v, "color"@) == Some(
                    match c.color {
                        Some(s) => SqlVal::Text(s@),
                        None => SqlVal::Null,
                    },
                )
                &&& exists|i: i64| row_value(*v, "deleted"@) == Some(SqlVal::Integer(i)) && c.deleted == (i != 0)
                &&& row_value(*v, "updated_at"@) == Some(SqlVal::Integer(c.updated_at))
            },
    {
        let ghost f = category_fields();
        let id: i64 = match v.read_i64("id") {
            Ok(x) => x,
            Err(e) => {
                assert(!field_ok(row_value(*v, f[0].0), f[0].1));
                return Err(e);
            },
        };
        assert(field_ok(row_value(*v, f[0].0), f[0].1));
        let user_id: i64 = match v.read_i64("user_id") {
            Ok(x) => x,
            Err(e) => {
                assert(!field_ok(row_value(*v, f[1].0), f[1].1));
                return Err(e);
            },
        };
        assert(field_ok(row_value(*v, f[1].0), f[1].1));
        let name: String = match v.read_text("name") {
            Ok(x) => x,
            Err(e) => {
                assert(!field_ok(row_value(*v, f[2].0), f[2].1));
                return Err(e);
            },
        };
        assert(field_ok(row_value(*v, f[2].0), f[2].1));
        let color: Option<String> = match v.read_opt_text("color") {
            Ok(x) => x,
            Err(e) => {
                assert(!field_ok(row_value(*v, f[3].0), f[3].1));
                return Err(e);
            },
        };
        assert(field_ok(row_value(*v, f[3].0), f[3].1));
        let deleted: bool = match v.read_bool("deleted") {
            Ok(x) => x,
            Err(e) => {
                assert(!field_ok(row_value(*v, f[4].0), f[4].1));
                return Err(e);
            },
        };
        assert(field_ok(row_value(*v, f[4].0), f[4].1));
        let updated_at: i64 = match v.read_i64("updated_at") {
            Ok(x) => x,
            Err(e) => {
                assert(!field_ok(row_value(*v, f[5].0), f[5].1));
                return Err(e);
            },
        };
        assert(field_ok(row_value(*v, f[5].0), f[5].1));
        Ok(Category { id, user_id, name, color, deleted, updated_at })
    }

    /// The pairs written: user, name, color (NULL when none), deleted, and `updated_at`
    /// stamped now.
    fn to_params(&self) -> (res: Vec<(&'static str, SqlValue)>)
        ensures
            res@.len() == 5,
            res@[0].0@ == "user_id"@ && res@[0].1@ == SqlVal::Integer(self.user_id),
            res@[1].0@ == "name"@ && res@[1].1@ == SqlVal::Text(self.name@),
            res@[2].0@ == "color"@ && res@[2].1@ == match self.color {
                Some(s) => SqlVal::Text(s@),
                None => SqlVal::Null,
            },
            res@[3].0@ == "deleted"@ && res@[3].1@ == SqlVal::Integer(if self.deleted { 1 } else { 0 }),
            res@[4].0@ == "updated_at"@ && res@[4].1 is Integer,
    {
        vec![
            ("user_id", SqlValue::from(self.user_id)),
            ("name", SqlValue::from(self.name.clone())),
            ("color", SqlValue::from(self.color.clone())),
            ("deleted", SqlValue::from(self.deleted)),
            ("updated_at", SqlValue::from(now())),
        ]
    }

    fn id(&self) -> (res: Option<i64>)
        ensures
            res == if self.id > 0 { Some(self.id) } else { None },
    {
        if self.id > 0 {
            Some(self.id)
        } else {
            None
        }
    }

    fn set_id(&mut self, id: i64)
        ensures
            final(self).id == id,
            final(self).user_id == old(self).user_id,
            final(self).name == old(self).name,
            final(self).color == old(self).color,
            final(self).deleted == old(self).deleted,
            final(self).updated_at == old(self).updated_at,
    {
        self.id = id;
    }
}

/// The values of the row stored for `c`: its id, then the values of `to_params` with
/// `updated_at` stamped `ts`.
pub open spec fn category_row(c: Category, ts: i64) -> Seq<SqlVal> {
    seq![
        SqlVal::Integer(c.id),
        SqlVal::Integer(c.user_id),
        SqlVal::Text(c.name@),
        match c.color { Some(s) => SqlVal::Text(s@), None => SqlVal::Null },
        SqlVal::Integer(if c.deleted { 1 } else { 0 }),
        SqlVal::Integer(ts),
    ]
}

/// The names of the columns, in the order of `columns`.
pub open spec fn category_row_names() -> Seq<Seq<char>> {
    seq!["user_id"@, "name"@, "color"@, "deleted"@, "updated_at"@]
}

/// What is written is read back: the row stored for a record, under the column names, can be
/// read by `from_values`, and each column gives the record's field (`updated_at` gives the
/// stamp).
pub proof fn lemma_category_row_roundtrip(c: Category, ts: i64, v: ValueSet)
    requires
        v.values@.map_values(|x: SqlValue| x@) == category_row(c, ts),
        v.column_names@.map_values(|n: &str| n@) == category_row_names(),
    ensures
        fields_ok(v, category_fields()),
        row_value(v, "id"@) == Some(SqlVal::Integer(c.id)),
        row_value(v, "user_id"@) == Some(SqlVal::Integer(c.user_id)),
        row_value(v, "name"@) == Some(SqlVal::Text(c.name@)),
        row_value(v, "color"@) == Some(match c.color { Some(s) => SqlVal::Text(s@), None => SqlVal::Null }),
        row_value(v, "deleted"@) == Some(SqlVal::Integer(if c.deleted { 1 } else { 0 })),
        row_value(v, "updated_at"@) == Some(SqlVal::Integer(ts)),
{
    reveal_strlit("id");
    reveal_strlit("user_id");
    reveal_strlit("name");
    reveal_strlit("color");
    reveal_strlit("deleted");
    reveal_strlit("updated_at");
    let names = v.column_names@;
    let vals = v.values@;
    assert(names.map_values(|n: &str| n@).len() == names.len());
    assert(vals.map_values(|x: SqlValue| x@).len() == vals.len());
    assert(category_row_names().len() == 5);
    assert(category_row(c, ts).len() == 6);
    assert forall|i: int| 0 <= i < 5 implies names[i]@ == #[trigger] category_row_names()[i] by {
        assert(names.map_values(|n: &str| n@)[i] == names[i]@);
    }
    assert forall|i: int| 0 <= i < 6 implies vals[i]@ == #[trigger] category_row(c, ts)[i] by {
        assert(vals.map_values(|x: SqlValue| x@)[i] == vals[i]@);
    }
    assert(category_row_names()[0] == "user_id"@);
    assert(category_row_names()[1] == "name"@);
    assert(category_row_names()[2] == "color"@);
    assert(category_row_names()[3] == "deleted"@);
    assert(category_row_names()[4] == "updated_at"@);
    assert("user_id"@.len() == 7 && "name"@.len() == 4 && "color"@.len() == 5 && "deleted"@.len() == 7 && "updated_at"@.len() == 10 && "id"@.len() == 2);
    assert("user_id"@[0] != "deleted"@[0]);
    lemma_first_position_at(names, 0, "user_id"@);
    lemma_first_position_at(names, 1, "name"@);
    lemma_first_position_at(names, 2, "color"@);
    lemma_first_position_at(names, 3, "deleted"@);
    lemma_first_position_at(names, 4, "updated_at"@);
    assert(value_position(names, "user_id"@) == Some(1int));
    assert(value_position(names, "name"@) == Some(2int));
    assert(value_position(names, "color"@) == Some(3int));
    assert(value_position(names, "deleted"@) == Some(4int));
    assert(value_position(names, "updated_at"@) == Some(5int));
    let f = category_fields();
    assert forall|i: int| 0 <= i < f.len() implies field_ok(row_value(v, f[i].0), #[trigger] f[i].1) by {
        assert(vals[i]@ == category_row(c, ts)[i]);
    }
}

} // verus!
