use vstd::prelude::*;

use crate::database::ident::{quote_ident, quoted};

verus! {

/// Action taken on child rows when the referenced parent row is deleted.
#[derive(Clone, Copy, Debug, PartialEq, Eq, Structural)]
pub enum OnDelete {
    /// Automatically delete child rows.
    Cascade,
    /// Set the foreign-key column to NULL (the column must be nullable).
    SetNull,
    /// Reject the parent deletion if any child rows exist.
    Restrict,
    /// Same as Restrict but checked at transaction end.
    NoAction,
}

/// The SQL words of an ON DELETE action.
pub open spec fn on_delete_sql(a: OnDelete) -> Seq<char> {
    match a {
        OnDelete::Cascade => "CASCADE"@,
        OnDelete::SetNull => "SET NULL"@,
        OnDelete::Restrict => "RESTRICT"@,
        OnDelete::NoAction => "NO ACTION"@,
    }
}

impl OnDelete {
    pub fn as_sql(self) -> (res: &'static str)
        ensures
            res@ == on_delete_sql(self),
    {
        match self {
            OnDelete::Cascade => "CASCADE",
            OnDelete::SetNull => "SET NULL",
            OnDelete::Restrict => "RESTRICT",
            OnDelete::NoAction => "NO ACTION",
        }
    }
}

/// The SQLite storage type of a column. There is no boolean type: booleans are stored as
/// INTEGER 0 / 1.
#[derive(Clone, Debug)]
pub enum ColType {
    /// INTEGER — i64, bool (0/1), Unix timestamps.
    Integer,
    /// REAL — floating-point numbers.
    Real,
    /// TEXT — strings, enum variants stored as strings.
    Text,
}

/// The SQL name of a storage type.
pub open spec fn col_type_sql(t: ColType) -> Seq<char> {
    match t {
        ColType::Integer => "INTEGER"@,
        ColType::Real => "REAL"@,
        ColType::Text => "TEXT"@,
    }
}

impl ColType {
    pub fn as_sql(&self) -> (res: &'static str)
        ensures
            res@ == col_type_sql(*self),
    {
        match self {
            ColType::Integer => "INTEGER",
            ColType::Real => "REAL",
            ColType::Text => "TEXT",
        }
    }
}

/// Definition of one column of a table (the `id` primary key is managed separately).
#[derive(Clone, Debug)]
pub struct Column {
    /// The column name.
    pub name: &'static str,
    /// The SQLite storage type.
    pub col_type: ColType,
    /// Whether a NOT NULL constraint is added.
    pub not_null: bool,
    /// A DEFAULT expression, written verbatim into the CREATE TABLE statement.
    pub default: Option<&'static str>,
    /// A `REFERENCES "table"("col")` foreign key.
    pub references: Option<(&'static str, &'static str)>,
    /// The action on parent deletion (only used when `references` is set).
    pub on_delete: Option<OnDelete>,
}

/// The SQL fragment that declares a column inside CREATE TABLE:
/// `"name" TYPE`, then ` NOT NULL`, ` DEFAULT expr`, and
/// ` REFERENCES "table"("col")` followed by ` ON DELETE action`, each when set.
pub open spec fn column_sql(c: Column) -> Seq<char> {
    let not_null = if c.not_null {
        " NOT NULL"@
    } else {
        Seq::<char>::empty()
    };
    let default = match c.default {
        Some(d) => " DEFAULT "@ + d@,
        None => Seq::<char>::empty(),
    };
    let references = match c.references {
        None => Seq::<char>::empty(),
        Some((tbl, col)) => " REFERENCES "@ + quoted(tbl@) + seq!['('] + quoted(col@) + seq![')']
            + match c.on_delete {
            Some(a) => " ON DELETE "@ + on_delete_sql(a),
            None => Seq::<char>::empty(),
        },
    };
    quoted(c.name@) + seq![' '] + col_type_sql(c.col_type) + not_null + default + references
}

impl Column {
    /// A nullable column without default, reference or ON DELETE action.
    pub fn new(name: &'static str, col_type: ColType) -> (res: Self)
        ensures
            res.name == name,
            res.col_type == col_type,
            !res.not_null,
            res.default is None,
            res.references is None,
            res.on_delete is None,
    {
        Column { name, col_type, not_null: false, default: None, references: None, on_delete: None }
    }

    /// Adds the NOT NULL constraint.
    pub fn not_null(self) -> (res: Self)
        ensures
            res == (Column { not_null: true, ..self }),
    {
        let mut c = self;
        c.not_null = true;
        c
    }

    /// Sets the DEFAULT expression, written verbatim into SQL.
    pub fn default(self, expr: &'static str) -> (res: Self)
        ensures
            res == (Column { default: Some(expr), ..self }),
    {
        let mut c = self;
        c.default = Some(expr);
        c
    }

    /// Adds a `REFERENCES "table"("col")` foreign key.
    pub fn references(self, table: &'static str, col: &'static str) -> (res: Self)
        ensures
            res == (Column { references: Some((table, col)), ..self }),
    {
        let mut c = self;
        c.references = Some((table, col));
        c
    }

    /// Sets the ON DELETE action of the foreign key.
    pub fn on_delete(self, action: OnDelete) -> (res: Self)
        ensures
            res == (Column { on_delete: Some(action), ..self }),
    {
        let mut c = self;
        c.on_delete = Some(action);
        c
    }

    /// The SQL fragment declaring this column inside CREATE TABLE.
    pub fn to_sql_fragment(&self) -> (res: String)
        ensures
            res@ == column_sql(*self),
    {
        let mut sql: String = quote_ident(self.name);
        sql.append(" ");
        proof {
            reveal_strlit(" ");
        }
        sql.append(self.col_type.as_sql());
        if self.not_null {
            sql.append(" NOT NULL");
        }
        match self.default {
            Some(d) => {
                sql.append(" DEFAULT ");
                sql.append(d);
            },
            None => {},
        }
        match self.references {
            None => {},
            Some((tbl, col)) => {
                sql.append(" REFERENCES ");
                let t: String = quote_ident(tbl);
                sql.append(t.as_str());
                sql.append("(");
                let c: String = quote_ident(col);
                sql.append(c.as_str());
                sql.append(")");
                proof {
                    reveal_strlit("(");
                    reveal_strlit(")");
                }
                match self.on_delete {
                    Some(a) => {
                        sql.append(" ON DELETE ");
                        sql.append(a.as_sql());
                    },
                    None => {},
                }
            },
        }
        proof {
            assert(sql@ =~= column_sql(*self));
        }
        sql
    }
}

/// Definition of a CREATE INDEX statement.
#[derive(Clone, Debug)]
pub struct IndexDef {
    /// Column names included in the index, in order.
    pub columns: &'static [&'static str],
    /// Whether the index is UNIQUE.
    pub unique: bool,
}

impl IndexDef {
    pub fn new(columns: &'static [&'static str]) -> (res: Self)
        ensures
            res.columns == columns,
            !res.unique,
    {
        IndexDef { columns, unique: false }
    }

    /// Makes the index UNIQUE.
    pub fn unique(self) -> (res: Self)
        ensures
            res.columns == self.columns,
            res.unique,
    {
        IndexDef { columns: self.columns, unique: true }
    }
}

} // verus!
