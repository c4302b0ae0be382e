use std::path::Path;
use std::time::Duration;

use futures::StreamExt;
use sqlx::pool::PoolConnection;
use sqlx::sqlite::{SqliteConnectOptions, SqliteJournalMode, SqlitePoolOptions, SqliteSynchronous};
use sqlx::{Row, Sqlite, SqlitePool};

use batchdb::config::PoolConfig;
use batchdb::error::{DbError, Fault};
use batchdb::protocol::{admit_handle, FullInsert, Insert, SchemaInit, Select};
use batchdb::schema::{DB_INIT_SQL, INSERT_SQL, SCHEMA_STATEMENTS, SELECT_SQL};
use batchdb::stream::{Advance, Disposition, StreamEvent, Verdict};

fn fault_of(error: &sqlx::Error) -> Fault {
    match error {
        sqlx::Error::PoolTimedOut => Fault::AcquireTimedOut,
        sqlx::Error::Database(engine) => Fault::Engine {
            code: engine.code().and_then(|code| code.parse().ok()),
        },
        _ => Fault::Other,
    }
}

fn row_event(pulled: Option<Result<sqlx::sqlite::SqliteRow, sqlx::Error>>) -> StreamEvent<i64> {
    match pulled {
        None => StreamEvent::Exhausted,
        Some(Ok(row)) => match row.try_get::<i64, _>(0) {
            Ok(id) => StreamEvent::Item(id),
            Err(error) => StreamEvent::Failed(fault_of(&error)),
        },
        Some(Err(error)) => StreamEvent::Failed(fault_of(&error)),
    }
}

async fn settle(connection: PoolConnection<Sqlite>, disposition: Disposition) {
    match disposition {
        Disposition::Release => drop(connection),
        Disposition::Discard => {
            let _ = connection.close().await;
        }
    }
}

async fn open(db_file: &Path, config: PoolConfig) -> SqlitePool {
    connect(db_file, config, DB_INIT_SQL).await.unwrap()
}

async fn connect(
    db_file: &Path,
    config: PoolConfig,
    script: &'static str,
) -> Result<SqlitePool, DbError> {
    let options = SqliteConnectOptions::new()
        .filename(db_file)
        .create_if_missing(config.create_if_missing)
        .synchronous(SqliteSynchronous::Full)
        .journal_mode(SqliteJournalMode::Wal)
        .busy_timeout(Duration::from_secs(config.busy_timeout_secs));
    let pool = SqlitePoolOptions::new()
        .acquire_timeout(Duration::from_secs(config.acquire_timeout_secs))
        .max_connections(config.max_connections)
        .connect_with(options)
        .await
        .unwrap();
    let (_, outcome) = run_script(&pool, script).await;
    let closer = pool.clone();
    let admitted = admit_handle(pool, outcome);
    if admitted.is_err() {
        closer.close().await;
    }
    admitted
}

async fn init_db(pool: &SqlitePool) -> (usize, Result<(), DbError>) {
    run_script(pool, DB_INIT_SQL).await
}

async fn run_script(pool: &SqlitePool, script: &'static str) -> (usize, Result<(), DbError>) {
    let mut connection = pool.acquire().await.unwrap();
    let mut pulls = 0;
    let verdict = {
        #[allow(deprecated)]
        let mut results = sqlx::query(script).execute_many(&mut *connection).await;
        let mut state = SchemaInit::start();
        loop {
            let event = match results.next().await {
                None => StreamEvent::Exhausted,
                Some(Ok(_)) => StreamEvent::Item(()),
                Some(Err(error)) => StreamEvent::Failed(fault_of(&error)),
            };
            pulls += 1;
            match state.on_event(&event) {
                Advance::Pull(next) => state = next,
                Advance::Done(verdict) => break verdict,
            }
        }
    };
    settle(connection, verdict.disposition).await;
    (pulls, verdict.outcome)
}

async fn insert(pool: &SqlitePool, batch_id: i64) -> Verdict<i64> {
    let mut connection = pool.acquire().await.unwrap();
    let answer = match sqlx::query(INSERT_SQL).bind(batch_id).fetch_one(&mut *connection).await {
        Ok(row) => row_event(Some(Ok(row))),
        Err(sqlx::Error::RowNotFound) => StreamEvent::Exhausted,
        Err(error) => StreamEvent::Failed(fault_of(&error)),
    };
    let verdict = Insert::conclude(&answer);
    settle(connection, verdict.disposition).await;
    verdict
}

async fn full_insert(pool: &SqlitePool, batch_id: i64) -> (usize, Verdict<i64>) {
    let mut connection = pool.acquire().await.unwrap();
    let mut pulls = 0;
    let verdict = {
        let mut rows = sqlx::query(INSERT_SQL).bind(batch_id).fetch(&mut *connection);
        let mut state = FullInsert::start();
        loop {
            let event = row_event(rows.next().await);
            pulls += 1;
            match state.on_event(&event) {
                Advance::Pull(next) => state = next,
                Advance::Done(verdict) => break verdict,
            }
        }
    };
    settle(connection, verdict.disposition).await;
    (pulls, verdict)
}

async fn select(pool: &SqlitePool, batch_id: i64) -> (usize, Verdict<Vec<i64>>) {
    let mut connection = pool.acquire().await.unwrap();
    let mut pulls = 0;
    let verdict = {
        let mut rows = sqlx::query(SELECT_SQL).bind(batch_id).fetch(&mut *connection);
        let mut state = Select::start();
        loop {
            let event = row_event(rows.next().await);
            pulls += 1;
            match state.on_event(&event) {
                Advance::Pull(next) => state = next,
                Advance::Done(verdict) => break verdict,
            }
        }
    };
    settle(connection, verdict.disposition).await;
    (pulls, verdict)
}

fn scratch_dir() -> tempfile::TempDir {
    tempfile::tempdir_in("/dev/shm").or_else(|_| tempfile::tempdir()).unwrap()
}

fn runtime() -> tokio::runtime::Runtime {
    tokio::runtime::Builder::new_multi_thread()
        .worker_threads(2)
        .enable_time()
        .build()
        .unwrap()
}

struct Fixture {
    _tempdir: tempfile::TempDir,
    runtime: tokio::runtime::Runtime,
    pool: SqlitePool,
}

fn test_db() -> Fixture {
    let tempdir = scratch_dir();
    let db_file = tempdir.path().join("catalog.db");
    let runtime = runtime();
    let pool = runtime.block_on(open(&db_file, PoolConfig::default()));
    Fixture { _tempdir: tempdir, runtime, pool }
}

fn released<T>(outcome: T) -> Verdict<T> {
    Verdict { disposition: Disposition::Release, outcome: Ok(outcome) }
}

#[test]
fn flaky() {
    let test_db = test_db();
    test_db.runtime.block_on(async {
        for i in 0..10000 {
            let id1 = insert(&test_db.pool, i).await.outcome.unwrap();
            let id2 = insert(&test_db.pool, i).await.outcome.unwrap();
            assert_eq!(select(&test_db.pool, i).await.1.outcome.unwrap(), vec![id1, id2])
        }
    });
}

#[test]
fn works() {
    let test_db = test_db();
    test_db.runtime.block_on(async {
        for i in 0..10000 {
            let id1 = full_insert(&test_db.pool, i).await.1.outcome.unwrap();
            let id2 = full_insert(&test_db.pool, i).await.1.outcome.unwrap();
            assert_eq!(select(&test_db.pool, i).await.1.outcome.unwrap(), vec![id1, id2])
        }
    });
}

#[test]
fn sqlite_insert_twice_then_select() {
    let test_db = test_db();
    test_db.runtime.block_on(async {
        let a = insert(&test_db.pool, 7).await;
        let b = insert(&test_db.pool, 7).await;
        assert_eq!(a, released(1));
        assert_eq!(b, released(2));
        assert_eq!(select(&test_db.pool, 7).await, (3, released(vec![1, 2])));
    });
}

#[test]
fn sqlite_full_insert_twice_then_select() {
    let test_db = test_db();
    test_db.runtime.block_on(async {
        let a = full_insert(&test_db.pool, 7).await;
        let b = full_insert(&test_db.pool, 7).await;
        assert_eq!(a, (2, released(1)));
        assert_eq!(b, (2, released(2)));
        assert_eq!(select(&test_db.pool, 7).await, (3, released(vec![1, 2])));
    });
}

#[test]
fn sqlite_select_of_an_untouched_batch_is_empty() {
    let test_db = test_db();
    test_db.runtime.block_on(async {
        assert_eq!(select(&test_db.pool, 7).await, (1, released(Vec::new())));
        insert(&test_db.pool, 8).await.outcome.unwrap();
        assert_eq!(select(&test_db.pool, 7).await, (1, released(Vec::new())));
    });
}

fn concurrent_full_inserts_are_both_read_back(batches: std::ops::Range<i64>) {
    let test_db = test_db();
    test_db.runtime.block_on(async {
        for batch in batches {
            let (first, second) = futures::future::join(
                full_insert(&test_db.pool, batch),
                full_insert(&test_db.pool, batch),
            )
            .await;
            assert_eq!(first.0, 2);
            assert_eq!(second.0, 2);
            let mut ids = vec![first.1.outcome.unwrap(), second.1.outcome.unwrap()];
            ids.sort();
            assert!(ids[0] < ids[1]);
            assert_eq!(select(&test_db.pool, batch).await, (3, released(ids)));
        }
    });
}

#[test]
fn sqlite_concurrent_full_inserts_batches_0_to_2500() {
    concurrent_full_inserts_are_both_read_back(0..2500);
}

#[test]
fn sqlite_concurrent_full_inserts_batches_2500_to_5000() {
    concurrent_full_inserts_are_both_read_back(2500..5000);
}

#[test]
fn sqlite_concurrent_full_inserts_batches_5000_to_7500() {
    concurrent_full_inserts_are_both_read_back(5000..7500);
}

#[test]
fn sqlite_concurrent_full_inserts_batches_7500_to_10000() {
    concurrent_full_inserts_are_both_read_back(7500..10000);
}

#[test]
fn sqlite_ids_grow_over_the_life_of_a_handle() {
    let test_db = test_db();
    test_db.runtime.block_on(async {
        let mut last = 0;
        for step in 0..200i64 {
            let id = if step % 2 == 0 {
                insert(&test_db.pool, step % 5).await.outcome.unwrap()
            } else {
                full_insert(&test_db.pool, step % 3).await.1.outcome.unwrap()
            };
            assert!(id > last);
            last = id;
        }
    });
}

#[test]
fn sqlite_opening_twice_keeps_the_rows() {
    let tempdir = scratch_dir();
    let db_file = tempdir.path().join("catalog.db");
    let runtime = runtime();
    runtime.block_on(async {
        let pool = open(&db_file, PoolConfig::default()).await;
        let a = insert(&pool, 7).await.outcome.unwrap();
        let b = full_insert(&pool, 9).await.1.outcome.unwrap();
        pool.close().await;

        let pool = open(&db_file, PoolConfig::default().with_max_connections(2)).await;
        assert_eq!(select(&pool, 7).await.1, released(vec![a]));
        assert_eq!(select(&pool, 9).await.1, released(vec![b]));
        assert_eq!(init_db(&pool).await, (SCHEMA_STATEMENTS + 1, Ok(())));
        assert_eq!(select(&pool, 7).await.1, released(vec![a]));
        let c = insert(&pool, 7).await.outcome.unwrap();
        assert!(c > b);
        assert_eq!(select(&pool, 7).await.1, released(vec![a, c]));
        pool.close().await;
    });
}

#[test]
fn sqlite_statements_fail_before_the_schema_exists() {
    let tempdir = scratch_dir();
    let db_file = tempdir.path().join("catalog.db");
    runtime().block_on(async {
        let options = SqliteConnectOptions::new().filename(&db_file).create_if_missing(true);
        let pool = SqlitePoolOptions::new().max_connections(2).connect_with(options).await.unwrap();
        let discarded = Verdict { disposition: Disposition::Discard, outcome: Err(DbError::StatementFailed) };
        assert_eq!(insert(&pool, 7).await, discarded);
        assert_eq!(full_insert(&pool, 7).await, (1, discarded));
        let (pulls, verdict) = select(&pool, 7).await;
        assert_eq!(pulls, 1);
        assert_eq!(verdict.disposition, Disposition::Discard);
        assert_eq!(verdict.outcome, Err(DbError::StatementFailed));
        pool.close().await;
    });
}

#[test]
fn sqlite_an_exhausted_pool_is_reported() {
    let tempdir = scratch_dir();
    let db_file = tempdir.path().join("catalog.db");
    runtime().block_on(async {
        let options = SqliteConnectOptions::new().filename(&db_file).create_if_missing(true);
        let pool = SqlitePoolOptions::new()
            .max_connections(1)
            .acquire_timeout(Duration::from_millis(200))
            .connect_with(options)
            .await
            .unwrap();
        let held = pool.acquire().await.unwrap();
        let error = pool.acquire().await.unwrap_err();
        assert_eq!(fault_of(&error), Fault::AcquireTimedOut);
        assert_eq!(DbError::classify(fault_of(&error)), DbError::PoolExhausted);
        drop(held);
        assert!(pool.acquire().await.is_ok());
        pool.close().await;
    });
}

#[test]
fn sqlite_a_failed_schema_script_gives_no_handle() {
    let tempdir = scratch_dir();
    let db_file = tempdir.path().join("catalog.db");
    runtime().block_on(async {
        let broken = "CREATE TABLE IF NOT EXISTS my_table (id INTEGER PRIMARY KEY, batch_id INTEGER);
CREATE INDEX IF NOT EXISTS my_table_name ON no_such_table (batch_id ASC, id ASC);";
        let result = connect(&db_file, PoolConfig::default(), broken).await;
        assert_eq!(result.err(), Some(DbError::StatementFailed));
    });
}

#[test]
fn sqlite_the_schema_script_is_read_to_its_end() {
    let test_db = test_db();
    test_db.runtime.block_on(async {
        assert_eq!(init_db(&test_db.pool).await, (SCHEMA_STATEMENTS + 1, Ok(())));
    });
}
