use vstd::prelude::*;

use crate::text::to_owned_string;

verus! {

/// What can go wrong when building SQL, mapping rows, or talking to the database engine.
#[derive(Debug, PartialEq)]
pub enum DbError {
    /// The database engine reported an error; its message.
    Sql(String),
    /// A column value had an unexpected SQLite type.
    TypeMismatch { column: String, expected: &'static str, found: &'static str },
    /// `get("col_name")` was called but that name is not in the row.
    ColumnNotFound(String),
    /// A table or column name holds characters outside `[A-Za-z0-9_]`, or does not start with a
    /// letter or `_`.
    InvalidIdentifier(String),
    /// A NOT NULL column contained NULL.
    NullValue(String),
    /// The requested record does not exist.
    NotFound,
    /// An application-level validation failure (empty title, …).
    Validation(String),
}

/// The text that describes an error.
pub open spec fn error_message(e: DbError) -> Seq<char> {
    match e {
        DbError::Sql(m) => "SQLite: "@ + m@,
        DbError::TypeMismatch { column, expected, found } => "column '"@ + column@
            + "': expected "@ + expected@ + ", found "@ + found@,
        DbError::ColumnNotFound(n) => "column not found: '"@ + n@ + "'"@,
        DbError::InvalidIdentifier(n) => "invalid SQL identifier: '"@ + n@ + "'"@,
        DbError::NullValue(c) => "column '"@ + c@ + "' is NULL"@,
        DbError::NotFound => "record not found"@,
        DbError::Validation(m) => "validation: "@ + m@,
    }
}

impl DbError {
    /// The text that describes the error.
    pub fn message(&self) -> (res: String)
        ensures
            res@ == error_message(*self),
    {
        match self {
            DbError::Sql(m) => {
                let mut s = to_owned_string("SQLite: ");
                s.append(m.as_str());
                s
            },
            DbError::TypeMismatch { column, expected, found } => {
                let mut s = to_owned_string("column '");
                s.append(column.as_str());
                s.append("': expected ");
                s.append(expected);
                s.append(", found ");
                s.append(found);
                s
            },
            DbError::ColumnNotFound(n) => {
                let mut s = to_owned_string("column not found: '");
                s.append(n.as_str());
                s.append("'");
                s
            },
            DbError::InvalidIdentifier(n) => {
                let mut s = to_owned_string("invalid SQL identifier: '");
                s.append(n.as_str());
                s.append("'");
                s
            },
            DbError::NullValue(c) => {
                let mut s = to_owned_string("column '");
                s.append(c.as_str());
                s.append("' is NULL");
                s
            },
            DbError::NotFound => to_owned_string("record not found"),
            DbError::Validation(m) => {
                let mut s = to_owned_string("validation: ");
                s.append(m.as_str());
                s
            },
        }
    }
}

} // verus!
