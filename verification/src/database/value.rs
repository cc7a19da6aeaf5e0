use vstd::prelude::*;

use crate::database::error::DbError;
use crate::text::to_owned_string;
use vstd::std_specs::convert::FromSpec;

verus! {

/// A value stored in or read from a SQLite column.
#[derive(Clone, Debug, PartialEq)]
pub enum SqlValue {
    Null,
    Integer(i64),
    /// A REAL, held as the bit pattern of its `f64` (`f64::to_bits`).
    Real(u64),
    Text(String),
}

/// The mathematical form of a `SqlValue`: text as its characters.
pub enum SqlVal {
    Null,
    Integer(i64),
    Real(u64),
    Text(Seq<char>),
}

impl View for SqlValue {
    type V = SqlVal;

    open spec fn view(&self) -> SqlVal {
        match self {
            SqlValue::Null => SqlVal::Null,
            SqlValue::Integer(i) => SqlVal::Integer(*i),
            SqlValue::Real(b) => SqlVal::Real(*b),
            SqlValue::Text(s) => SqlVal::Text(s@),
        }
    }
}

/// The name of a value's SQLite type.
pub open spec fn type_name_of(v: SqlVal) -> Seq<char> {
    match v {
        SqlVal::Null => "Null"@,
        SqlVal::Integer(_) => "Integer"@,
        SqlVal::Real(_) => "Real"@,
        SqlVal::Text(_) => "Text"@,
    }
}

/// `e` reports a NULL where a value was expected, for an unnamed column (`?`).
pub open spec fn is_null_error(e: DbError) -> bool {
    e matches DbError::NullValue(c) && c@ == "?"@
}

/// `e` reports that an unnamed column (`?`) held a value of the type of `v` where
/// `expected` was wanted.
pub open spec fn is_mismatch_error(e: DbError, expected: Seq<char>, v: SqlVal) -> bool {
    e matches DbError::TypeMismatch { column, expected: ex, found } && column@ == "?"@ && ex@
        == expected && found@ == type_name_of(v)
}

impl SqlValue {
    /// A copy of the value.
    pub fn duplicate(&self) -> (res: SqlValue)
        ensures
            res@ == self@,
    {
        match self {
            SqlValue::Null => SqlValue::Null,
            SqlValue::Integer(i) => SqlValue::Integer(*i),
            SqlValue::Real(b) => SqlValue::Real(*b),
            SqlValue::Text(s) => SqlValue::Text(s.clone()),
        }
    }

    pub fn type_label(&self) -> (res: &'static str)
        ensures
            res@ == type_name_of(self@),
    {
        match self {
            SqlValue::Null => "Null",
            SqlValue::Integer(_) => "Integer",
            SqlValue::Real(_) => "Real",
            SqlValue::Text(_) => "Text",
        }
    }

    fn null_error() -> (e: DbError)
        ensures
            is_null_error(e),
    {
        DbError::NullValue(to_owned_string("?"))
    }

    fn mismatch(&self, expected: &'static str) -> (e: DbError)
        ensures
            is_mismatch_error(e, expected@, self@),
    {
        DbError::TypeMismatch {
            column: to_owned_string("?"),
            expected,
            found: self.type_label(),
        }
    }

    /// The integer of an INTEGER value.
    pub fn as_i64(&self) -> (res: Result<i64, DbError>)
        ensures
            match self@ {
                SqlVal::Integer(i) => res == Ok::<i64, DbError>(i),
                SqlVal::Null => res matches Err(e) && is_null_error(e),
                _ => res matches Err(e) && is_mismatch_error(e, "Integer"@, self@),
            },
    {
        match self {
            SqlValue::Integer(i) => Ok(*i),
            SqlValue::Null => Err(Self::null_error()),
            _ => Err(self.mismatch("Integer")),
        }
    }

    /// The boolean stored in an INTEGER column: 0 is false, anything else is true.
    pub fn as_bool(&self) -> (res: Result<bool, DbError>)
        ensures
            match self@ {
                SqlVal::Integer(i) => res == Ok::<bool, DbError>(i != 0),
                SqlVal::Null => res matches Err(e) && is_null_error(e),
                _ => res matches Err(e) && is_mismatch_error(e, "Integer"@, self@),
            },
    {
        match self.as_i64() {
            Ok(i) => Ok(i != 0),
            Err(e) => Err(e),
        }
    }

    /// A copy of the text of a TEXT value.
    pub fn as_text(&self) -> (res: Result<String, DbError>)
        ensures
            match self@ {
                SqlVal::Text(s) => res matches Ok(t) && t@ == s,
                SqlVal::Null => res matches Err(e) && is_null_error(e),
                _ => res matches Err(e) && is_mismatch_error(e, "Text"@, self@),
            },
    {
        match self {
            SqlValue::Text(s) => Ok(s.clone()),
            SqlValue::Null => Err(Self::null_error()),
            _ => Err(self.mismatch("Text")),
        }
    }

    /// The text of a TEXT value, or `None` for NULL.
    pub fn as_opt_text(&self) -> (res: Result<Option<String>, DbError>)
        ensures
            match self@ {
                SqlVal::Text(s) => res matches Ok(Some(t)) && t@ == s,
                SqlVal::Null => res matches Ok(None),
                _ => res matches Err(e) && is_mismatch_error(e, "Text or Null"@, self@),
            },
    {
        match self {
            SqlValue::Text(s) => Ok(Some(s.clone())),
            SqlValue::Null => Ok(None),
            _ => Err(self.mismatch("Text or Null")),
        }
    }

    /// The integer of an INTEGER value, or `None` for NULL.
    pub fn as_opt_i64(&self) -> (res: Result<Option<i64>, DbError>)
        ensures
            match self@ {
                SqlVal::Integer(i) => res == Ok::<Option<i64>, DbError>(Some(i)),
                SqlVal::Null => res == Ok::<Option<i64>, DbError>(None),
                _ => res matches Err(e) && is_mismatch_error(e, "Integer or Null"@, self@),
            },
    {
        match self {
            SqlValue::Integer(i) => Ok(Some(*i)),
            SqlValue::Null => Ok(None),
            _ => Err(self.mismatch("Integer or Null")),
        }
    }
}

impl From<i64> for SqlValue {
    fn from(v: i64) -> (res: SqlValue) {
        SqlValue::Integer(v)
    }
}

impl vstd::std_specs::convert::FromSpecImpl<i64> for SqlValue {
    open spec fn obeys_from_spec() -> bool {
        true
    }

    open spec fn from_spec(v: i64) -> SqlValue {
        SqlValue::Integer(v)
    }
}

impl From<i32> for SqlValue {
    fn from(v: i32) -> (res: SqlValue) {
        SqlValue::Integer(v as i64)
    }
}

impl vstd::std_specs::convert::FromSpecImpl<i32> for SqlValue {
    open spec fn obeys_from_spec() -> bool {
        true
    }

    open spec fn from_spec(v: i32) -> SqlValue {
        SqlValue::Integer(v as i64)
    }
}

impl From<u32> for SqlValue {
    fn from(v: u32) -> (res: SqlValue) {
        SqlValue::Integer(v as i64)
    }
}

impl vstd::std_specs::convert::FromSpecImpl<u32> for SqlValue {
    open spec fn obeys_from_spec() -> bool {
        true
    }

    open spec fn from_spec(v: u32) -> SqlValue {
        SqlValue::Integer(v as i64)
    }
}

impl From<bool> for SqlValue {
    fn from(v: bool) -> (res: SqlValue) {
        SqlValue::Integer(if v { 1 } else { 0 })
    }
}

impl vstd::std_specs::convert::FromSpecImpl<bool> for SqlValue {
    open spec fn obeys_from_spec() -> bool {
        true
    }

    open spec fn from_spec(v: bool) -> SqlValue {
        SqlValue::Integer(if v { 1 } else { 0 })
    }
}

impl From<String> for SqlValue {
    fn from(v: String) -> (res: SqlValue) {
        SqlValue::Text(v)
    }
}

impl vstd::std_specs::convert::FromSpecImpl<String> for SqlValue {
    open spec fn obeys_from_spec() -> bool {
        true
    }

    open spec fn from_spec(v: String) -> SqlValue {
        SqlValue::Text(v)
    }
}

impl From<Option<String>> for SqlValue {
    fn from(v: Option<String>) -> (res: SqlValue) {
        match v {
            Some(s) => SqlValue::Text(s),
            None => SqlValue::Null,
        }
    }
}

impl vstd::std_specs::convert::FromSpecImpl<Option<String>> for SqlValue {
    open spec fn obeys_from_spec() -> bool {
        true
    }

    open spec fn from_spec(v: Option<String>) -> SqlValue {
        match v {
            Some(s) => SqlValue::Text(s),
            None => SqlValue::Null,
        }
    }
}

impl From<Option<i64>> for SqlValue {
    fn from(v: Option<i64>) -> (res: SqlValue) {
        match v {
            Some(i) => SqlValue::Integer(i),
            None => SqlValue::Null,
        }
    }
}

impl vstd::std_specs::convert::FromSpecImpl<Option<i64>> for SqlValue {
    open spec fn obeys_from_spec() -> bool {
        true
    }

    open spec fn from_spec(v: Option<i64>) -> SqlValue {
        match v {
            Some(i) => SqlValue::Integer(i),
            None => SqlValue::Null,
        }
    }
}

/// What `From` writes, the matching reader gives back: an `i64` is stored as that INTEGER
/// (`as_i64`), a `bool` as an INTEGER that is not 0 exactly when it was true (`as_bool`), a
/// `String` as that TEXT (`as_text`), and an absent optional value as NULL (`as_opt_i64`,
/// `as_opt_text`).
pub proof fn lemma_written_values_read_back(
    i: i64,
    b: bool,
    s: String,
    oi: Option<i64>,
    os: Option<String>,
)
    ensures
        <SqlValue as FromSpec<i64>>::from_spec(i)@ == SqlVal::Integer(i),
        <SqlValue as FromSpec<bool>>::from_spec(b)@ matches SqlVal::Integer(n) && (n != 0) == b,
        <SqlValue as FromSpec<String>>::from_spec(s)@ == SqlVal::Text(s@),
        <SqlValue as FromSpec<Option<i64>>>::from_spec(oi)@ == match oi {
            Some(x) => SqlVal::Integer(x),
            None => SqlVal::Null,
        },
        <SqlValue as FromSpec<Option<String>>>::from_spec(os)@ == match os {
            Some(x) => SqlVal::Text(x@),
            None => SqlVal::Null,
        },
{
}

} // verus!
