//! How the tables of an earlier schema are brought up to date.

use vstd::prelude::*;
use vstd::string::*;

use crate::text::{str_eq, views};

verus! {

/// The statement that asks for the columns of a table.
pub open spec fn table_info(table: Seq<char>) -> Seq<char> {
    "PRAGMA table_info("@ + table + ")"@
}

/// The statement that adds a column to a table.
pub open spec fn add_column(
    table: Seq<char>,
    column: Seq<char>,
    definition: Seq<char>,
) -> Seq<char> {
    "ALTER TABLE "@ + table + " ADD COLUMN "@ + column + " "@ + definition
}

/// The statement that asks for the columns of a table.
pub fn table_info_statement(table: &str) -> (statement: String)
    ensures
        statement@ == table_info(table@),
{
    let mut statement = "PRAGMA table_info(".to_owned();
    statement.append(table);
    statement.append(")");
    statement
}

/// The statement that adds the column `column` to a table with the columns `columns`; none where it
/// has that column.
pub fn ensure_column(table: &str, column: &str, definition: &str, columns: &Vec<String>) -> (
    statement: Option<String>)
    ensures
        if views(columns@).contains(column@) {
            statement is None
        } else {
            statement matches Some(s) && s@ == add_column(table@, column@, definition@)
        },
{
    let ghost names = views(columns@);
    let mut i: usize = 0;
    while i < columns.len()
        invariant
            i <= columns@.len(),
            names == views(columns@),
            forall|j: int| 0 <= j < i ==> #[trigger] names[j] != column@,
        decreases columns.len() - i,
    {
        assert(names[i as int] == columns@[i as int]@);
        if str_eq(columns[i].as_str(), column) {
            return None;
        }
        i = i + 1;
    }
    let mut statement = "ALTER TABLE ".to_owned();
    statement.append(table);
    statement.append(" ADD COLUMN ");
    statement.append(column);
    statement.append(" ");
    statement.append(definition);
    Some(statement)
}

} // verus!
