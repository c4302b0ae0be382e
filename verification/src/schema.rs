//! The statements that the access layer issues.

use vstd::prelude::*;

verus! {

/// The schema script: the table and its index, each created only where absent.
pub const DB_INIT_SQL: &'static str = "
CREATE TABLE IF NOT EXISTS my_table (
    id INTEGER PRIMARY KEY,
    batch_id INTEGER
);

CREATE INDEX IF NOT EXISTS my_table_name ON my_table (
    batch_id ASC,
    id ASC
);
";

/// The number of statements in the schema script, each of which answers with one result.
pub const SCHEMA_STATEMENTS: usize = 2;

/// Inserts one row into the partition bound to the parameter and returns its id.
pub const INSERT_SQL: &'static str = "INSERT INTO my_table (batch_id) VALUES (?) RETURNING id";

/// Reads the ids of the partition bound to the parameter, ascending.
pub const SELECT_SQL: &'static str = "SELECT id FROM my_table where batch_id = ? ORDER BY id";

} // verus!
