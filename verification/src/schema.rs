//! The shape of a durable table: its columns, by name and kind, in order.

use vstd::prelude::*;
use vstd::string::StringExecFns;

verus! {

/// What a column holds.
#[derive(Clone, Copy, Debug, PartialEq, Eq, Structural)]
pub enum ColumnKind {
    /// UTF-8 text.
    Text,
    /// A signed 64-bit integer.
    Integer,
    /// A binary64 number.
    Real,
}

/// One column of a table.
#[derive(Debug, PartialEq, Eq)]
pub struct Field {
    pub name: String,
    pub kind: ColumnKind,
    /// Whether a row may leave the column empty. No table of the ledgers has
    /// such a column.
    pub nullable: bool,
}

impl Field {
    /// Whether this is the column `name` of kind `kind`, filled in every row.
    pub open spec fn is(&self, name: Seq<char>, kind: ColumnKind) -> bool {
        &&& self.name@ == name
        &&& self.kind == kind
        &&& !self.nullable
    }

    /// A column that every row fills.
    pub fn required(name: &str, kind: ColumnKind) -> (field: Field)
        ensures
            field.is(name@, kind),
    {
        Field { name: String::from_str(name), kind, nullable: false }
    }
}

} // verus!
