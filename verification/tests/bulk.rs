use mssqlts::bulk::{
    batch_failed, batch_size_of, bracket_escape, build_insert_batch, next_bulk_step, record_batch, start_bulk,
    value_to_literal, BulkColumn, BulkInsertRequest, BulkStep,
};
use mssqlts::error::MssqlError;
use mssqlts::value::JsonValue;

fn text(s: &str) -> JsonValue {
    JsonValue::String(s.to_string())
}

fn column(name: &str, col_type: &str) -> BulkColumn {
    BulkColumn { name: name.to_string(), col_type: col_type.to_string(), nullable: false }
}

#[test]
fn test_bracket_escape() {
    assert_eq!(bracket_escape("TableName"), "[TableName]");
    assert_eq!(bracket_escape("[Already]"), "[Already]");
    assert_eq!(bracket_escape("has]bracket"), "[has]]bracket]");
}

#[test]
fn bracket_escape_twice_changes_nothing_more() {
    for name in ["TableName", "", "dbo.Table", "with space", "naïve"] {
        let once = bracket_escape(name);
        assert_eq!(once, format!("[{}]", name));
        assert_eq!(bracket_escape(&once), once);
    }
}

#[test]
fn bracket_escape_edge_cases() {
    assert_eq!(bracket_escape(""), "[]");
    assert_eq!(bracket_escape("[[["), "[]");
    assert_eq!(bracket_escape("]]"), "[]");
    assert_eq!(bracket_escape("[[dbo]]"), "[dbo]");
    assert_eq!(bracket_escape("a[b"), "[a[b]");
    assert_eq!(bracket_escape("]a]b["), "[]]a]]b[]");
}

#[test]
fn test_value_to_literal() {
    assert_eq!(value_to_literal(&JsonValue::Null, "int").unwrap(), "NULL");
    assert_eq!(value_to_literal(&JsonValue::Int(42), "int").unwrap(), "42");
    assert_eq!(value_to_literal(&JsonValue::Bool(true), "bit").unwrap(), "1");
    assert_eq!(value_to_literal(&text("hello"), "nvarchar").unwrap(), "N'hello'");
    assert_eq!(value_to_literal(&text("it's"), "varchar").unwrap(), "N'it''s'");
}

#[test]
fn value_to_literal_numbers() {
    assert_eq!(value_to_literal(&JsonValue::Bool(false), "bit").unwrap(), "0");
    assert_eq!(value_to_literal(&JsonValue::Int(-7), "int").unwrap(), "-7");
    assert_eq!(value_to_literal(&JsonValue::Int(0), "int").unwrap(), "0");
    assert_eq!(
        value_to_literal(&JsonValue::Int(i64::MIN), "bigint").unwrap(),
        "-9223372036854775808"
    );
    assert_eq!(
        value_to_literal(&JsonValue::UInt(u64::MAX), "decimal").unwrap(),
        "18446744073709551615"
    );
    assert_eq!(value_to_literal(&JsonValue::Float("1.5".to_string()), "float").unwrap(), "1.5");
}

#[test]
fn value_to_literal_typed_texts() {
    assert_eq!(
        value_to_literal(&text("550E8400-E29B-41D4-A716-446655440000"), "uniqueidentifier")
            .unwrap(),
        "'550E8400-E29B-41D4-A716-446655440000'"
    );
    assert_eq!(value_to_literal(&text("AQID/w=="), "varbinary").unwrap(), "0x010203FF");
    assert_eq!(value_to_literal(&text("AQID/w=="), "binary").unwrap(), "0x010203FF");
    assert_eq!(value_to_literal(&text("AQID/w=="), "image").unwrap(), "0x010203FF");
    assert_eq!(value_to_literal(&text(""), "varbinary").unwrap(), "0x");
    assert_eq!(value_to_literal(&text("AQID/w=="), "nvarchar").unwrap(), "N'AQID/w=='");
    assert_eq!(
        value_to_literal(&JsonValue::Structured("{\"a\":\"it's\"}".to_string()), "nvarchar")
            .unwrap(),
        "N'{\"a\":\"it''s\"}'"
    );
}

#[test]
fn value_to_literal_rejects_malformed_texts() {
    match value_to_literal(&text("not-a-uuid"), "uniqueidentifier") {
        Err(MssqlError::Query(msg)) => assert!(msg.starts_with("Invalid UUID: ")),
        other => panic!("unexpected: {:?}", other),
    }
    match value_to_literal(&text("***"), "varbinary") {
        Err(MssqlError::Query(msg)) => assert!(msg.starts_with("Invalid base64: ")),
        other => panic!("unexpected: {:?}", other),
    }
}

#[test]
fn test_build_insert_batch() {
    let columns = vec![
        BulkColumn { name: "id".into(), col_type: "int".into(), nullable: false },
        BulkColumn { name: "name".into(), col_type: "nvarchar".into(), nullable: true },
    ];
    let col_names: Vec<&str> = columns.iter().map(|c| c.name.as_str()).collect();
    let rows = vec![
        vec![JsonValue::Int(1), text("Alice")],
        vec![JsonValue::Int(2), text("Bob")],
    ];
    let sql = build_insert_batch("Users", &col_names, &columns, &rows).unwrap();
    assert_eq!(sql, "INSERT INTO [Users] ([id], [name]) VALUES (1, N'Alice'), (2, N'Bob')");
}

#[test]
fn build_insert_batch_short_and_empty_rows() {
    let columns = vec![column("a", "int"), column("b", "int")];
    let col_names = vec!["a", "b"];
    let rows = vec![vec![JsonValue::Int(1)], vec![]];
    let sql = build_insert_batch("[dbo].[T]", &col_names, &columns, &rows).unwrap();
    assert_eq!(sql, "INSERT INTO [dbo]].[T] ([a], [b]) VALUES (1), ()");
    let none: Vec<Vec<JsonValue>> = vec![];
    let sql = build_insert_batch("T", &col_names, &columns, &none).unwrap();
    assert_eq!(sql, "INSERT INTO [T] ([a], [b]) VALUES ");
}

#[test]
fn build_insert_batch_reports_both_counts() {
    let columns = vec![column("a", "int")];
    let col_names = vec!["a"];
    let rows = vec![vec![JsonValue::Int(1)], vec![JsonValue::Int(1), JsonValue::Int(2), JsonValue::Null]];
    match build_insert_batch("T", &col_names, &columns, &rows) {
        Err(MssqlError::Query(msg)) => {
            assert_eq!(msg, "Row has 3 values but only 1 columns defined")
        },
        other => panic!("unexpected: {:?}", other),
    }
}

#[test]
fn build_insert_batch_value_error_comes_before_count_error() {
    let columns = vec![column("a", "uniqueidentifier")];
    let col_names = vec!["a"];
    let rows = vec![vec![text("nope"), JsonValue::Int(2)]];
    match build_insert_batch("T", &col_names, &columns, &rows) {
        Err(MssqlError::Query(msg)) => assert!(msg.starts_with("Invalid UUID: ")),
        other => panic!("unexpected: {:?}", other),
    }
}

fn request(rows: usize, batch_size: Option<usize>) -> BulkInsertRequest {
    BulkInsertRequest {
        table: "T".to_string(),
        columns: vec![column("n", "int")],
        rows: (0..rows).map(|i| vec![JsonValue::Int(i as i64)]).collect(),
        batch_size,
    }
}

#[test]
fn batch_size_defaults_and_floor() {
    assert_eq!(batch_size_of(&request(0, None)), 1000);
    assert_eq!(batch_size_of(&request(0, Some(0))), 1);
    assert_eq!(batch_size_of(&request(0, Some(7))), 7);
}

#[test]
fn bulk_insert_of_no_rows_sends_nothing() {
    let req = request(0, None);
    let progress = start_bulk();
    match next_bulk_step(&req, &progress).unwrap() {
        BulkStep::Done(total) => assert_eq!(total, 0),
        BulkStep::Send(sql) => panic!("unexpected statement: {}", sql),
    }
}

#[test]
fn bulk_insert_cuts_rows_into_consecutive_chunks() {
    let req = request(5, Some(2));
    let mut progress = start_bulk();
    let mut sent = Vec::new();
    loop {
        match next_bulk_step(&req, &progress).unwrap() {
            BulkStep::Send(sql) => {
                sent.push(sql);
                record_batch(&req, &mut progress, 10);
            },
            BulkStep::Done(total) => {
                assert_eq!(total, 30);
                break;
            },
        }
    }
    assert_eq!(
        sent,
        vec![
            "INSERT INTO [T] ([n]) VALUES (0), (1)".to_string(),
            "INSERT INTO [T] ([n]) VALUES (2), (3)".to_string(),
            "INSERT INTO [T] ([n]) VALUES (4)".to_string(),
        ]
    );
}

#[test]
fn refused_statement_is_a_query_error() {
    match batch_failed("connection closed") {
        MssqlError::Query(msg) => assert_eq!(msg, "Bulk insert batch failed: connection closed"),
        other => panic!("unexpected: {:?}", other),
    }
    match batch_failed("") {
        MssqlError::Query(msg) => assert_eq!(msg, "Bulk insert batch failed: "),
        other => panic!("unexpected: {:?}", other),
    }
}

#[test]
fn recording_past_the_last_row_moves_nothing() {
    let req = request(1, None);
    let mut progress = start_bulk();
    record_batch(&req, &mut progress, 1);
    assert_eq!((progress.next_row, progress.total), (1, 1));
    record_batch(&req, &mut progress, 4);
    assert_eq!((progress.next_row, progress.total), (1, 5));
}

#[test]
fn bulk_insert_fails_at_the_chunk_that_cannot_be_written() {
    let mut req = request(3, Some(2));
    req.rows[2].push(JsonValue::Null);
    let mut progress = start_bulk();
    match next_bulk_step(&req, &progress).unwrap() {
        BulkStep::Send(sql) => assert_eq!(sql, "INSERT INTO [T] ([n]) VALUES (0), (1)"),
        BulkStep::Done(_) => panic!("done too early"),
    }
    record_batch(&req, &mut progress, 2);
    assert_eq!(progress.next_row, 2);
    match next_bulk_step(&req, &progress) {
        Err(MssqlError::Query(msg)) => {
            assert_eq!(msg, "Row has 2 values but only 1 columns defined")
        },
        other => panic!("unexpected: {:?}", other),
    }
}
