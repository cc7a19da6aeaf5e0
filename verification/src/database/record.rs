use vstd::prelude::*;

use crate::database::column::{Column, IndexDef};
use crate::database::error::DbError;
use crate::database::value::{is_mismatch_error, is_null_error, SqlVal, SqlValue};
use crate::text::{str_equal, to_owned_string};

verus! {

/// One row read from a table: `values[0]` is the `id`, `values[i + 1]` the value of the
/// column `column_names[i]`.
pub struct ValueSet {
    pub values: Vec<SqlValue>,
    pub column_names: Vec<&'static str>,
}

/// The first position of `name` among `names`, if it is there.
pub open spec fn first_position(names: Seq<&str>, name: Seq<char>) -> Option<int>
    decreases names.len(),
{
    if names.len() == 0 {
        None
    } else {
        match first_position(names.drop_last(), name) {
            Some(p) => Some(p),
            None => if names.last()@ == name {
                Some(names.len() - 1)
            } else {
                None
            },
        }
    }
}

/// The position in a row's values of the column `name`: 0 for `id`, otherwise one more than
/// its first position among the column names.
pub open spec fn value_position(names: Seq<&str>, name: Seq<char>) -> Option<int> {
    if name == "id"@ {
        Some(0)
    } else {
        match first_position(names, name) {
            Some(p) => Some(p + 1),
            None => None,
        }
    }
}

impl ValueSet {
    pub fn new(values: Vec<SqlValue>, column_names: Vec<&'static str>) -> (res: Self)
        ensures
            res.values@ == values@,
            res.column_names@ == column_names@,
    {
        ValueSet { values, column_names }
    }

    /// The value of the column `name` (`id` is always a name of the row).
    pub fn get(&self, name: &'static str) -> (res: Result<&SqlValue, DbError>)
        ensures
            match value_position(self.column_names@, name@) {
                Some(p) => if p < self.values@.len() {
                    res matches Ok(v) && *v == self.values@[p]
                } else {
                    res matches Err(e) && (e matches DbError::ColumnNotFound(n) && n@ == name@)
                },
                None => res matches Err(e) && (e matches DbError::ColumnNotFound(n) && n@
                    == name@),
            },
    {
        if str_equal(name, "id") {
            if self.values.len() > 0 {
                return Ok(&self.values[0]);
            } else {
                return Err(DbError::ColumnNotFound(to_owned_string("id")));
            }
        }
        let n: usize = self.column_names.len();
        let mut i: usize = 0;
        while i < n
            invariant
                n == self.column_names@.len(),
                i <= n,
                name@ != "id"@,
                first_position(self.column_names@.take(i as int), name@) is None,
            decreases n - i,
        {
            assert(self.column_names@.take(i + 1).drop_last() =~= self.column_names@.take(i as int));
            if str_equal(self.column_names[i], name) {
                proof {
                    lemma_first_position_extend(self.column_names@, i as int, name@);
                    assert(value_position(self.column_names@, name@) == Some(i + 1));
                }
                if i + 1 < self.values.len() {
                    return Ok(&self.values[i + 1]);
                } else {
                    return Err(DbError::ColumnNotFound(to_owned_string(name)));
                }
            }
            i = i + 1;
        }
        assert(self.column_names@.take(n as int) =~= self.column_names@);
        Err(DbError::ColumnNotFound(to_owned_string(name)))
    }
}

/// When `name` is not among the first `i` names and is the name at `i`, its first position is `i`.
proof fn lemma_first_position_extend(names: Seq<&str>, i: int, name: Seq<char>)
    requires
        0 <= i < names.len(),
        first_position(names.take(i), name) is None,
        names[i]@ == name,
    ensures
        first_position(names, name) == Some(i),
    decreases names.len() - i,
{
    assert(names.take(i + 1).drop_last() =~= names.take(i));
    assert(first_position(names.take(i + 1), name) == Some(i));
    lemma_first_position_prefix(names, i + 1, name);
}

/// A name that none of the names has has no position.
pub proof fn lemma_first_position_none(names: Seq<&str>, name: Seq<char>)
    requires
        forall|j: int| 0 <= j < names.len() ==> names[j]@ != name,
    ensures
        first_position(names, name) is None,
    decreases names.len(),
{
    if names.len() > 0 {
        lemma_first_position_none(names.drop_last(), name);
    }
}

/// The first position of a name is the first index whose name it is.
pub proof fn lemma_first_position_at(names: Seq<&str>, i: int, name: Seq<char>)
    requires
        0 <= i < names.len(),
        names[i]@ == name,
        forall|j: int| 0 <= j < i ==> names[j]@ != name,
    ensures
        first_position(names, name) == Some(i),
{
    lemma_first_position_none(names.take(i), name);
    lemma_first_position_extend(names, i, name);
}

/// A position found in a prefix of the names is their first position.
proof fn lemma_first_position_prefix(names: Seq<&str>, k: int, name: Seq<char>)
    requires
        0 <= k <= names.len(),
        first_position(names.take(k), name) is Some,
    ensures
        first_position(names, name) == first_position(names.take(k), name),
    decreases names.len() - k,
{
    if k < names.len() {
        assert(names.take(k + 1).drop_last() =~= names.take(k));
        lemma_first_position_prefix(names, k + 1, name);
    } else {
        assert(names.take(k) =~= names);
    }
}

/// The value of the column `name` in the row, when the row has it.
pub open spec fn row_value(v: ValueSet, name: Seq<char>) -> Option<SqlVal> {
    match value_position(v.column_names@, name) {
        Some(p) => if p < v.values@.len() {
            Some(v.values@[p]@)
        } else {
            None
        },
        None => None,
    }
}

/// How a record reads one of its columns.
pub enum FieldKind {
    /// An INTEGER (`as_i64`, also `as_bool`).
    Int,
    /// A TEXT (`as_text`).
    Text,
    /// An INTEGER or NULL (`as_opt_i64`).
    OptInt,
    /// A TEXT or NULL (`as_opt_text`).
    OptText,
}

/// The value can be read as `k` says.
pub open spec fn field_ok(v: Option<SqlVal>, k: FieldKind) -> bool {
    match v {
        None => false,
        Some(x) => match k {
            FieldKind::Int => x is Integer,
            FieldKind::Text => x is Text,
            FieldKind::OptInt => x is Integer || x is Null,
            FieldKind::OptText => x is Text || x is Null,
        },
    }
}

/// `e` is the error of reading the column `name`, whose value is `v`, as `k` says.
pub open spec fn field_error(name: Seq<char>, v: Option<SqlVal>, k: FieldKind, e: DbError) -> bool {
    match v {
        None => e matches DbError::ColumnNotFound(n) && n@ == name,
        Some(x) => match k {
            FieldKind::Int => if x is Null {
                is_null_error(e)
            } else {
                is_mismatch_error(e, "Integer"@, x)
            },
            FieldKind::Text => if x is Null {
                is_null_error(e)
            } else {
                is_mismatch_error(e, "Text"@, x)
            },
            FieldKind::OptInt => is_mismatch_error(e, "Integer or Null"@, x),
            FieldKind::OptText => is_mismatch_error(e, "Text or Null"@, x),
        },
    }
}

/// Every listed column of the row can be read as its kind says.
pub open spec fn fields_ok(v: ValueSet, fields: Seq<(Seq<char>, FieldKind)>) -> bool {
    forall|i: int| 0 <= i < fields.len() ==> field_ok(row_value(v, fields[i].0), #[trigger] fields[i].1)
}

/// `e` is the error of the first listed column that cannot be read.
pub open spec fn first_field_error(v: ValueSet, fields: Seq<(Seq<char>, FieldKind)>, e: DbError) -> bool {
    exists|i: int|
        {
            &&& 0 <= i < fields.len()
            &&& !field_ok(row_value(v, fields[i].0), #[trigger] fields[i].1)
            &&& forall|j: int| 0 <= j < i ==> field_ok(row_value(v, fields[j].0), #[trigger] fields[j].1)
            &&& field_error(fields[i].0, row_value(v, fields[i].0), fields[i].1, e)
        }
}

impl ValueSet {
    /// The INTEGER of the column `name`.
    pub fn read_i64(&self, name: &'static str) -> (res: Result<i64, DbError>)
        ensures
            res is Ok <==> field_ok(row_value(*self, name@), FieldKind::Int),
            res matches Ok(i) ==> row_value(*self, name@) == Some(SqlVal::Integer(i)),
            res matches Err(e) ==> field_error(name@, row_value(*self, name@), FieldKind::Int, e),
    {
        match self.get(name) {
            Ok(v) => v.as_i64(),
            Err(e) => Err(e),
        }
    }

    /// The boolean of the INTEGER column `name` (0 is false).
    pub fn read_bool(&self, name: &'static str) -> (res: Result<bool, DbError>)
        ensures
            res is Ok <==> field_ok(row_value(*self, name@), FieldKind::Int),
            res matches Ok(b) ==> exists|i: i64|
                row_value(*self, name@) == Some(SqlVal::Integer(i)) && b == (i != 0),
            res matches Err(e) ==> field_error(name@, row_value(*self, name@), FieldKind::Int, e),
    {
        match self.get(name) {
            Ok(v) => v.as_bool(),
            Err(e) => Err(e),
        }
    }

    /// The TEXT of the column `name`.
    pub fn read_text(&self, name: &'static str) -> (res: Result<String, DbError>)
        ensures
            res is Ok <==> field_ok(row_value(*self, name@), FieldKind::Text),
            res matches Ok(t) ==> row_value(*self, name@) == Some(SqlVal::Text(t@)),
            res matches Err(e) ==> field_error(name@, row_value(*self, name@), FieldKind::Text, e),
    {
        match self.get(name) {
            Ok(v) => v.as_text(),
            Err(e) => Err(e),
        }
    }

    /// The INTEGER of the column `name`, or `None` for NULL.
    pub fn read_opt_i64(&self, name: &'static str) -> (res: Result<Option<i64>, DbError>)
        ensures
            res is Ok <==> field_ok(row_value(*self, name@), FieldKind::OptInt),
            res matches Ok(Some(i)) ==> row_value(*self, name@) == Some(SqlVal::Integer(i)),
            res matches Ok(None) ==> row_value(*self, name@) == Some(SqlVal::Null),
            res matches Err(e) ==> field_error(name@, row_value(*self, name@), FieldKind::OptInt, e),
    {
        match self.get(name) {
            Ok(v) => v.as_opt_i64(),
            Err(e) => Err(e),
        }
    }

    /// The TEXT of the column `name`, or `None` for NULL.
    pub fn read_opt_text(&self, name: &'static str) -> (res: Result<Option<String>, DbError>)
        ensures
            res is Ok <==> field_ok(row_value(*self, name@), FieldKind::OptText),
            res matches Ok(Some(t)) ==> row_value(*self, name@) == Some(SqlVal::Text(t@)),
            res matches Ok(None) ==> row_value(*self, name@) == Some(SqlVal::Null),
            res matches Err(e) ==> field_error(name@, row_value(*self, name@), FieldKind::OptText, e),
    {
        match self.get(name) {
            Ok(v) => v.as_opt_text(),
            Err(e) => Err(e),
        }
    }
}

/// A row as mapping code expects it: one value for `id`, then one per column, under distinct
/// column names none of which is `id`.
pub open spec fn well_formed_row(v: ValueSet) -> bool {
    &&& v.values@.len() == v.column_names@.len() + 1
    &&& forall|i: int, j: int|
        0 <= i < j < v.column_names@.len() ==> (#[trigger] v.column_names@[i])@
            != (#[trigger] v.column_names@[j])@
    &&& forall|i: int| 0 <= i < v.column_names@.len() ==> (#[trigger] v.column_names@[i])@ != "id"@
}

/// The (name, value) pairs of the columns of a row.
pub open spec fn row_pairs(v: ValueSet) -> Set<(Seq<char>, SqlVal)> {
    Set::new(
        |p: (Seq<char>, SqlVal)|
            exists|i: int|
                0 <= i < v.column_names@.len() && p == ((#[trigger] v.column_names@[i])@, v.values@[i
                    + 1]@),
    )
}

/// In a well-formed row, the value of a column is found at its one position.
proof fn lemma_row_value_at(v: ValueSet, i: int)
    requires
        well_formed_row(v),
        0 <= i < v.column_names@.len(),
    ensures
        row_value(v, v.column_names@[i]@) == Some(v.values@[i + 1]@),
{
    let names = v.column_names@;
    assert forall|j: int| 0 <= j < i implies names[j]@ != names[i]@ by {
        assert(names[j]@ != names[i]@);
    }
    lemma_first_position_at(names, i, names[i]@);
}

/// Columns are read by name, so their order does not matter: two well-formed rows with the
/// same id value and the same (name, value) pairs, in any order, give the same value for every
/// name.
pub proof fn lemma_row_order_irrelevant(v1: ValueSet, v2: ValueSet, name: Seq<char>)
    requires
        well_formed_row(v1),
        well_formed_row(v2),
        v1.values@[0]@ == v2.values@[0]@,
        row_pairs(v1) == row_pairs(v2),
    ensures
        row_value(v1, name) == row_value(v2, name),
{
    if name != "id"@ {
        let n1 = v1.column_names@;
        let n2 = v2.column_names@;
        if exists|i: int| 0 <= i < n1.len() && (#[trigger] n1[i])@ == name {
            let i = choose|i: int| 0 <= i < n1.len() && (#[trigger] n1[i])@ == name;
            lemma_row_value_at(v1, i);
            let p = (n1[i]@, v1.values@[i + 1]@);
            assert(row_pairs(v1).contains(p));
            assert(row_pairs(v2).contains(p));
            let j = choose|j: int|
                0 <= j < n2.len() && p == ((#[trigger] n2[j])@, v2.values@[j + 1]@);
            lemma_row_value_at(v2, j);
        } else {
            lemma_first_position_none(n1, name);
            assert forall|j: int| 0 <= j < n2.len() implies (#[trigger] n2[j])@ != name by {
                if n2[j]@ == name {
                    let p = (n2[j]@, v2.values@[j + 1]@);
                    assert(row_pairs(v2).contains(p));
                    assert(row_pairs(v1).contains(p));
                    let i = choose|i: int|
                        0 <= i < n1.len() && p == ((#[trigger] n1[i])@, v1.values@[i + 1]@);
                    assert(n1[i]@ == name);
                }
            }
            lemma_first_position_none(n2, name);
        }
    }
}

/// A struct stored in a SQLite table: its schema, how a row maps to it and back, and its
/// primary key. Column and table names are quoted in all SQL built from it, and all values
/// go through `?` placeholders.
pub trait DbRecord: Sized + Clone {
    /// The table name.
    fn table_name() -> &'static str;

    /// All columns except `id`; their order is the order of a row's values after `id`.
    fn columns() -> Vec<Column>;

    /// Composite indexes (none by default).
    fn indexes() -> (res: Vec<IndexDef>)
        default_ensures
            res@.len() == 0,
    {
        Vec::new()
    }

    /// One row read back into the struct.
    fn from_values(v: &ValueSet) -> Result<Self, DbError>;

    /// The column name / value pairs written by INSERT and UPDATE (without `id`).
    fn to_params(&self) -> Vec<(&'static str, SqlValue)>;

    /// `Some(id)` for a stored record, `None` for one not inserted yet.
    fn id(&self) -> Option<i64>;

    /// Records the id given by the database.
    fn set_id(&mut self, id: i64);
}

} // verus!
