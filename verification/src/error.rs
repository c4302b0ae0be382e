//! The failure taxonomy of the access layer.

use vstd::prelude::*;

verus! {

/// Why an operation of the access layer did not produce its result.
#[derive(Clone, Copy, Debug, PartialEq, Eq, Structural)]
pub enum DbError {
    /// No connection became free within the acquire timeout.
    PoolExhausted,
    /// Writer contention outlasted the busy-retry window.
    BusyTimeout,
    /// The storage engine rejected or failed the statement.
    StatementFailed,
    /// A statement that must yield exactly one row yielded none.
    EmptyResult,
}

/// What the binding reported when a call failed, reduced to what the
/// taxonomy depends on.
#[derive(Clone, Copy, Debug, PartialEq, Eq, Structural)]
pub enum Fault {
    /// Waiting for a free connection ran into the acquire timeout.
    AcquireTimedOut,
    /// The engine returned an error; `code` is its result code where it gave one.
    Engine { code: Option<i32> },
    /// Anything else: transport, decoding, a closed pool.
    Other,
}

/// The engine's primary result code for a database that stayed locked.
pub const ENGINE_BUSY: i32 = 5;

/// The primary result code within an extended one: its low eight bits.
pub open spec fn primary_code(code: i32) -> i32 {
    code & 0xff
}

impl DbError {
    /// The failure that `fault` stands for.
    pub open spec fn of_fault(fault: Fault) -> DbError {
        match fault {
            Fault::AcquireTimedOut => DbError::PoolExhausted,
            Fault::Engine { code: Some(code) } => if primary_code(code) == ENGINE_BUSY {
                DbError::BusyTimeout
            } else {
                DbError::StatementFailed
            },
            Fault::Engine { code: None } => DbError::StatementFailed,
            Fault::Other => DbError::StatementFailed,
        }
    }

    /// Sorts a fault into the taxonomy: an acquire timeout is `PoolExhausted`,
    /// an engine error whose primary code says "busy" is `BusyTimeout`, and
    /// every other fault is `StatementFailed`.
    pub fn classify(fault: Fault) -> (error: DbError)
        ensures
            error == DbError::of_fault(fault),
    {
        match fault {
            Fault::AcquireTimedOut => DbError::PoolExhausted,
            Fault::Engine { code: Some(code) } => {
                if code & 0xff == ENGINE_BUSY {
                    DbError::BusyTimeout
                } else {
                    DbError::StatementFailed
                }
            },
            Fault::Engine { code: None } => DbError::StatementFailed,
            Fault::Other => DbError::StatementFailed,
        }
    }
}

} // verus!
