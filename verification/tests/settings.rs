use batchdb::config::{
    JournalMode, PoolConfig, Synchronous, DEFAULT_MAX_CONNECTIONS, DEFAULT_TIMEOUT_SECS,
};
use batchdb::error::{DbError, Fault, ENGINE_BUSY};
use batchdb::schema::{DB_INIT_SQL, INSERT_SQL, SCHEMA_STATEMENTS, SELECT_SQL};

#[test]
fn the_default_settings() {
    let config = PoolConfig::default();
    assert_eq!(config.max_connections, 50);
    assert_eq!(config.acquire_timeout_secs, 600);
    assert_eq!(config.busy_timeout_secs, 600);
    assert!(config.create_if_missing);
    assert_eq!(config.synchronous, Synchronous::Full);
    assert_eq!(config.journal_mode, JournalMode::Wal);
    assert_eq!(DEFAULT_MAX_CONNECTIONS, 50);
    assert_eq!(DEFAULT_TIMEOUT_SECS, 600);
}

#[test]
fn the_pool_size_can_be_changed_alone() {
    let config = PoolConfig::default().with_max_connections(4);
    assert_eq!(config, PoolConfig { max_connections: 4, ..PoolConfig::default() });
}

#[test]
fn the_timeout_applies_to_both_waits() {
    let config = PoolConfig::default().with_timeout_secs(30);
    assert_eq!(
        config,
        PoolConfig { acquire_timeout_secs: 30, busy_timeout_secs: 30, ..PoolConfig::default() }
    );
}

#[test]
fn an_acquire_timeout_is_pool_exhausted() {
    assert_eq!(DbError::classify(Fault::AcquireTimedOut), DbError::PoolExhausted);
}

#[test]
fn a_busy_engine_is_a_busy_timeout() {
    assert_eq!(ENGINE_BUSY, 5);
    assert_eq!(DbError::classify(Fault::Engine { code: Some(5) }), DbError::BusyTimeout);
    assert_eq!(DbError::classify(Fault::Engine { code: Some(261) }), DbError::BusyTimeout);
    assert_eq!(DbError::classify(Fault::Engine { code: Some(517) }), DbError::BusyTimeout);
    assert_eq!(DbError::classify(Fault::Engine { code: Some(773) }), DbError::BusyTimeout);
}

#[test]
fn any_other_fault_is_a_failed_statement() {
    assert_eq!(DbError::classify(Fault::Engine { code: Some(1) }), DbError::StatementFailed);
    assert_eq!(DbError::classify(Fault::Engine { code: Some(6) }), DbError::StatementFailed);
    assert_eq!(DbError::classify(Fault::Engine { code: Some(1555) }), DbError::StatementFailed);
    assert_eq!(DbError::classify(Fault::Engine { code: Some(0) }), DbError::StatementFailed);
    assert_eq!(DbError::classify(Fault::Engine { code: None }), DbError::StatementFailed);
    assert_eq!(DbError::classify(Fault::Other), DbError::StatementFailed);
}

#[test]
fn the_schema_script_creates_table_and_index_only_where_absent() {
    assert_eq!(DB_INIT_SQL.matches("IF NOT EXISTS").count(), SCHEMA_STATEMENTS);
    assert_eq!(DB_INIT_SQL.matches(';').count(), SCHEMA_STATEMENTS);
    assert!(DB_INIT_SQL.contains("CREATE TABLE IF NOT EXISTS my_table"));
    assert!(DB_INIT_SQL.contains("id INTEGER PRIMARY KEY"));
    assert!(DB_INIT_SQL.contains("batch_id INTEGER"));
    assert!(DB_INIT_SQL.contains("CREATE INDEX IF NOT EXISTS my_table_name ON my_table"));
}

#[test]
fn the_data_statements() {
    assert_eq!(INSERT_SQL, "INSERT INTO my_table (batch_id) VALUES (?) RETURNING id");
    assert_eq!(SELECT_SQL, "SELECT id FROM my_table where batch_id = ? ORDER BY id");
}
