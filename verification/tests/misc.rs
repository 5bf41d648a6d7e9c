use mssqlts::codec::{Column, Row};
use mssqlts::debug::{debug_off, enables_debug, init, is_debug, set_debug};
use mssqlts::error::{prefixed, ClientFailure, ErrorKind, MssqlError, PoolFailure};
use mssqlts::filestream::FilestreamMode;
use mssqlts::stream::RowCursor;
use mssqlts::transaction::{begin_transaction_sql, isolation_sql, COMMIT_SQL, ROLLBACK_SQL};
use mssqlts::value::{JsonValue, SqlValue};

fn numbered(n: i32) -> Row {
    Row { columns: vec![Column { name: "n".to_string(), value: Some(SqlValue::Int(n)) }] }
}

fn number_of(row: &Row) -> i32 {
    match row.columns[0].value {
        Some(SqlValue::Int(n)) => n,
        _ => panic!("no number"),
    }
}

#[test]
fn cursor_hands_out_each_row_once_then_nothing() {
    let mut cursor = RowCursor::new(vec![numbered(1), numbered(2), numbered(3)]);
    assert_eq!(cursor.next_row().map(|r| number_of(&r)), Some(1));
    assert_eq!(cursor.next_row().map(|r| number_of(&r)), Some(2));
    assert_eq!(cursor.next_row().map(|r| number_of(&r)), Some(3));
    for _ in 0..5 {
        assert!(cursor.next_row().is_none());
    }
}

#[test]
fn cursor_over_no_rows_is_exhausted_at_once() {
    let mut cursor = RowCursor::new(vec![]);
    assert!(cursor.next_row().is_none());
    assert!(cursor.next_row().is_none());
    assert!(cursor.next_json().is_none());
}

#[test]
fn cursor_decodes_on_advance() {
    let mut cursor = RowCursor::new(vec![numbered(4), numbered(5)]);
    let first = cursor.next_json().unwrap();
    assert!(matches!(first.get("n"), Some(JsonValue::Int(4))));
    assert_eq!(cursor.next_row().map(|r| number_of(&r)), Some(5));
    assert!(cursor.next_json().is_none());
    assert!(cursor.next_json().is_none());
}

#[test]
fn error_messages_carry_their_kind() {
    assert_eq!(MssqlError::Config("a".to_string()).message(), "Config error: a");
    assert_eq!(MssqlError::Connection("b".to_string()).message(), "Connection error: b");
    assert_eq!(MssqlError::Query("c".to_string()).message(), "Query error: c");
    assert_eq!(MssqlError::Transaction("d".to_string()).message(), "Transaction error: d");
    assert_eq!(MssqlError::Pool("e".to_string()).message(), "Pool error: e");
    assert_eq!(MssqlError::Cancelled.message(), "Operation cancelled");
    assert_eq!(MssqlError::Query(String::new()).kind(), ErrorKind::Query);
    assert_eq!(MssqlError::Cancelled.kind(), ErrorKind::Cancelled);
    assert_eq!(prefixed("a", "b"), "ab");
}

fn folded(e: ClientFailure) -> String {
    MssqlError::from_client_failure(e).message()
}

#[test]
fn driver_failures_are_folded_into_the_taxonomy() {
    assert_eq!(folded(ClientFailure::Config("x".to_string())), "Config error: x");
    assert_eq!(folded(ClientFailure::Connection("x".to_string())), "Connection error: x");
    assert_eq!(folded(ClientFailure::ConnectionClosed), "Connection error: Connection closed");
    assert_eq!(folded(ClientFailure::ConnectTimeout), "Connection error: Connection timeout");
    assert_eq!(folded(ClientFailure::ConnectionTimeout), "Connection error: Connection timeout");
    assert_eq!(folded(ClientFailure::TlsTimeout), "Connection error: Connection timeout");
    assert_eq!(folded(ClientFailure::CommandTimeout), "Query error: Command timeout");
    assert_eq!(folded(ClientFailure::Query("x".to_string())), "Query error: x");
    assert_eq!(folded(ClientFailure::Transaction("x".to_string())), "Transaction error: x");
    assert_eq!(
        folded(ClientFailure::Server {
            number: 2627,
            class: 14,
            message: "Violation of PRIMARY KEY".to_string()
        }),
        "Query error: SQL Server error 2627 (severity 14): Violation of PRIMARY KEY"
    );
    assert_eq!(
        folded(ClientFailure::Server { number: -1, class: 0, message: String::new() }),
        "Query error: SQL Server error -1 (severity 0): "
    );
    assert_eq!(
        folded(ClientFailure::Authentication("bad login".to_string())),
        "Connection error: Authentication error: bad login"
    );
    assert_eq!(folded(ClientFailure::Cancelled), "Operation cancelled");
    assert_eq!(folded(ClientFailure::Other("IO error: x".to_string())), "Query error: IO error: x");
}

fn pool_folded(e: PoolFailure) -> String {
    MssqlError::from_pool_failure(e).message()
}

#[test]
fn pool_failures_are_pool_errors() {
    assert_eq!(
        pool_folded(PoolFailure::Timeout),
        "Pool error: Connection timeout: pool exhausted"
    );
    assert_eq!(
        pool_folded(PoolFailure::AcquisitionTimeout { millis: 30000 }),
        "Pool error: Connection timeout after 30000ms: pool exhausted"
    );
    assert_eq!(
        pool_folded(PoolFailure::AcquisitionTimeout { millis: u128::MAX }),
        "Pool error: Connection timeout after 340282366920938463463374607431768211455ms: \
         pool exhausted"
    );
    assert_eq!(pool_folded(PoolFailure::PoolClosed), "Pool error: Pool is closed");
    assert_eq!(
        pool_folded(PoolFailure::MaxConnectionsReached { max: 10 }),
        "Pool error: Pool exhausted: maximum connections (10) reached"
    );
    assert_eq!(
        pool_folded(PoolFailure::ConnectionCreation("x".to_string())),
        "Pool error: Could not establish connection: x"
    );
    assert_eq!(
        pool_folded(PoolFailure::Connection("x".to_string())),
        "Pool error: Connection error: x"
    );
    assert_eq!(
        pool_folded(PoolFailure::UnhealthyConnection("x".to_string())),
        "Pool error: Connection health check failed: x"
    );
    assert_eq!(
        pool_folded(PoolFailure::ResetFailed("x".to_string())),
        "Pool error: Connection reset failed: x"
    );
    assert_eq!(
        pool_folded(PoolFailure::Configuration("x".to_string())),
        "Pool error: Pool configuration error: x"
    );
    assert_eq!(
        pool_folded(PoolFailure::ValidationFailed("x".to_string())),
        "Pool error: Connection validation failed: x"
    );
}

#[test]
fn debug_switch() {
    let mut switch = debug_off();
    assert!(!is_debug(&switch));
    init(&mut switch, None);
    assert!(!is_debug(&switch));
    init(&mut switch, Some("0"));
    assert!(!is_debug(&switch));
    init(&mut switch, Some("TrUe"));
    assert!(is_debug(&switch));
    init(&mut switch, Some("0"));
    assert!(is_debug(&switch));
    set_debug(&mut switch, false);
    assert!(!is_debug(&switch));
    set_debug(&mut switch, true);
    assert!(is_debug(&switch));
}

#[test]
fn debug_values_of_the_environment() {
    for on in ["1", "true", "TRUE", "True", "tRuE"] {
        assert!(enables_debug(on), "{}", on);
    }
    for off in ["", "0", "11", "yes", "on", "true ", " true", "tru", "truee", "trüe", "2", "t"] {
        assert!(!enables_debug(off), "{}", off);
    }
}

#[test]
fn filestream_modes() {
    assert_eq!(FilestreamMode::parse("read").unwrap(), FilestreamMode::Read);
    assert_eq!(FilestreamMode::parse("write").unwrap(), FilestreamMode::Write);
    assert_eq!(FilestreamMode::parse("readwrite").unwrap(), FilestreamMode::ReadWrite);
    match FilestreamMode::parse("Read") {
        Err(MssqlError::Config(msg)) => assert_eq!(msg, "Invalid mode: Read"),
        other => panic!("unexpected: {:?}", other),
    }
    assert_eq!(FilestreamMode::Read.access_code(), 0);
    assert_eq!(FilestreamMode::Write.access_code(), 1);
    assert_eq!(FilestreamMode::ReadWrite.access_code(), 2);
}

#[test]
fn transaction_statements() {
    assert_eq!(isolation_sql("READ_UNCOMMITTED").unwrap(), "READ UNCOMMITTED");
    assert_eq!(isolation_sql("READ_COMMITTED").unwrap(), "READ COMMITTED");
    assert_eq!(isolation_sql("REPEATABLE_READ").unwrap(), "REPEATABLE READ");
    assert_eq!(isolation_sql("SNAPSHOT").unwrap(), "SNAPSHOT");
    assert_eq!(isolation_sql("SERIALIZABLE").unwrap(), "SERIALIZABLE");
    assert_eq!(
        begin_transaction_sql("REPEATABLE_READ").unwrap(),
        "SET TRANSACTION ISOLATION LEVEL REPEATABLE READ; BEGIN TRANSACTION"
    );
    match begin_transaction_sql("read_committed") {
        Err(MssqlError::Transaction(msg)) => {
            assert_eq!(msg, "Unknown isolation level: read_committed")
        },
        other => panic!("unexpected: {:?}", other),
    }
    assert!(isolation_sql("").is_err());
    assert_eq!(COMMIT_SQL, "COMMIT TRANSACTION");
    assert_eq!(ROLLBACK_SQL, "ROLLBACK TRANSACTION");
}
