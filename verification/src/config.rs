//! How the pool and the storage engine are configured.

use vstd::prelude::*;

verus! {

/// How far the engine waits for the disk before a write counts as done.
#[derive(Clone, Copy, Debug, PartialEq, Eq, Structural)]
pub enum Synchronous {
    Off,
    Normal,
    /// Every write is on disk before it is acknowledged.
    Full,
    Extra,
}

/// How the engine journals a transaction.
#[derive(Clone, Copy, Debug, PartialEq, Eq, Structural)]
pub enum JournalMode {
    Delete,
    Truncate,
    Persist,
    Memory,
    /// A write-ahead log: readers go on while a write is in progress.
    Wal,
    Off,
}

/// The most connections that the pool opens by default.
pub const DEFAULT_MAX_CONNECTIONS: u32 = 50;

/// The default wait, in seconds, both for a free connection and on a locked database.
pub const DEFAULT_TIMEOUT_SECS: u64 = 600;

/// The settings with which a database file is opened.
#[derive(Clone, Copy, Debug, PartialEq, Eq, Structural)]
pub struct PoolConfig {
    /// The most physical connections open at one time.
    pub max_connections: u32,
    /// How long a caller waits for a free connection before the acquire fails.
    pub acquire_timeout_secs: u64,
    /// How long a writer retries on a locked database before the statement fails.
    pub busy_timeout_secs: u64,
    /// Whether the file is created where it does not exist.
    pub create_if_missing: bool,
    pub synchronous: Synchronous,
    pub journal_mode: JournalMode,
}

impl Default for PoolConfig {
    /// The settings of every handle unless the caller changes one: fifty
    /// connections, ten minutes for either wait, the file created where it is
    /// missing, full synchronous writes, a write-ahead log.
    fn default() -> (config: PoolConfig)
        ensures
            config == (PoolConfig {
                max_connections: DEFAULT_MAX_CONNECTIONS,
                acquire_timeout_secs: DEFAULT_TIMEOUT_SECS,
                busy_timeout_secs: DEFAULT_TIMEOUT_SECS,
                create_if_missing: true,
                synchronous: Synchronous::Full,
                journal_mode: JournalMode::Wal,
            }),
    {
        PoolConfig {
            max_connections: DEFAULT_MAX_CONNECTIONS,
            acquire_timeout_secs: DEFAULT_TIMEOUT_SECS,
            busy_timeout_secs: DEFAULT_TIMEOUT_SECS,
            create_if_missing: true,
            synchronous: Synchronous::Full,
            journal_mode: JournalMode::Wal,
        }
    }
}

impl PoolConfig {
    /// The same settings with another pool size.
    pub fn with_max_connections(self, max_connections: u32) -> (config: PoolConfig)
        ensures
            config == (PoolConfig { max_connections, ..self }),
    {
        PoolConfig { max_connections, ..self }
    }

    /// The same settings with another wait, in seconds, for a free connection
    /// and on a locked database alike.
    pub fn with_timeout_secs(self, secs: u64) -> (config: PoolConfig)
        ensures
            config == (PoolConfig { acquire_timeout_secs: secs, busy_timeout_secs: secs, ..self }),
    {
        PoolConfig { acquire_timeout_secs: secs, busy_timeout_secs: secs, ..self }
    }
}

} // verus!
