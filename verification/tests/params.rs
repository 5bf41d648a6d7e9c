use mssqlts::command::{SerializedCommand, SerializedParam};
use mssqlts::error::MssqlError;
use mssqlts::query::{
    bind_batch, bind_statement, build_param_boxes, declare_type_of, hint_is,
    integer_to_sql_value, param_to_boxed, param_to_sql_value, parse_datetime, refused,
    text_to_sql_value,
};
use mssqlts::value::{JsonValue, Real, SqlValue};

fn with(value: JsonValue, hint: Option<&str>) -> SerializedParam {
    SerializedParam {
        name: "p".to_string(),
        value,
        param_type: hint.map(|h| h.to_string()),
        output: false,
    }
}

fn named(name: &str, value: JsonValue, hint: Option<&str>) -> SerializedParam {
    SerializedParam {
        name: name.to_string(),
        value,
        param_type: hint.map(|h| h.to_string()),
        output: false,
    }
}

fn text(s: &str) -> JsonValue {
    JsonValue::String(s.to_string())
}

fn command(sql: &str, params: Vec<SerializedParam>) -> SerializedCommand {
    SerializedCommand {
        sql: sql.to_string(),
        params,
        transaction_id: None,
        command_timeout_ms: None,
        command_type: "query".to_string(),
        stream_mode: None,
        fetch_size: None,
    }
}

fn query_error(r: Result<SqlValue, MssqlError>) -> String {
    match r {
        Err(MssqlError::Query(msg)) => msg,
        other => panic!("unexpected: {:?}", other),
    }
}

#[test]
fn null_and_booleans_map_directly() {
    assert!(matches!(param_to_sql_value(&with(JsonValue::Null, None)).unwrap(), SqlValue::Null));
    assert!(matches!(
        param_to_sql_value(&with(JsonValue::Null, Some("int"))).unwrap(),
        SqlValue::Null
    ));
    assert!(matches!(
        param_to_sql_value(&with(JsonValue::Bool(true), None)).unwrap(),
        SqlValue::Bool(true)
    ));
}

#[test]
fn integer_width_follows_the_hint() {
    let hint = |h: &str| Some(h.to_string());
    assert!(matches!(integer_to_sql_value(200, &hint("tinyint")), SqlValue::TinyInt(200)));
    assert!(matches!(integer_to_sql_value(-5, &hint("smallint")), SqlValue::SmallInt(-5)));
    assert!(matches!(integer_to_sql_value(7, &hint("int")), SqlValue::Int(7)));
    assert!(matches!(integer_to_sql_value(7, &hint("bigint")), SqlValue::BigInt(7)));
    assert!(matches!(integer_to_sql_value(7, &hint("INT")), SqlValue::Int(7)));
    assert!(matches!(integer_to_sql_value(7, &hint("nvarchar")), SqlValue::Int(7)));
}

#[test]
fn integer_is_cut_to_the_hinted_width() {
    let hint = |h: &str| Some(h.to_string());
    assert!(matches!(integer_to_sql_value(256, &hint("tinyint")), SqlValue::TinyInt(0)));
    assert!(matches!(integer_to_sql_value(-1, &hint("tinyint")), SqlValue::TinyInt(255)));
    assert!(matches!(integer_to_sql_value(32768, &hint("smallint")), SqlValue::SmallInt(-32768)));
    assert!(matches!(
        integer_to_sql_value(4294967296 + 5, &hint("int")),
        SqlValue::Int(5)
    ));
}

#[test]
fn integer_without_hint_prefers_32_bits() {
    assert!(matches!(integer_to_sql_value(0, &None), SqlValue::Int(0)));
    assert!(matches!(integer_to_sql_value(2147483647, &None), SqlValue::Int(2147483647)));
    assert!(matches!(integer_to_sql_value(-2147483648, &None), SqlValue::Int(-2147483648)));
    assert!(matches!(integer_to_sql_value(2147483648, &None), SqlValue::BigInt(2147483648)));
    assert!(matches!(integer_to_sql_value(-2147483649, &None), SqlValue::BigInt(-2147483649)));
}

#[test]
fn integer_with_real_hint_becomes_a_real() {
    for hint in ["float", "real"] {
        match integer_to_sql_value(-12, &Some(hint.to_string())) {
            SqlValue::Double(Real::Finite(t)) => assert_eq!(t, "-12"),
            other => panic!("unexpected: {:?}", other),
        }
    }
}

#[test]
fn numbers_beyond_the_signed_range_and_fractions_become_reals() {
    match param_to_sql_value(&with(JsonValue::UInt(u64::MAX), None)).unwrap() {
        SqlValue::Double(Real::Finite(t)) => assert_eq!(t, "18446744073709551615"),
        other => panic!("unexpected: {:?}", other),
    }
    assert!(matches!(
        param_to_sql_value(&with(JsonValue::UInt(5), None)).unwrap(),
        SqlValue::Int(5)
    ));
    match param_to_sql_value(&with(JsonValue::Float("0.5".to_string()), Some("int"))).unwrap() {
        SqlValue::Double(Real::Finite(t)) => assert_eq!(t, "0.5"),
        other => panic!("unexpected: {:?}", other),
    }
}

#[test]
fn text_without_hint_stays_text() {
    match param_to_sql_value(&with(text("2024-01-15"), None)).unwrap() {
        SqlValue::String(s) => assert_eq!(s, "2024-01-15"),
        other => panic!("unexpected: {:?}", other),
    }
    match param_to_sql_value(&with(text("x"), Some("nvarchar"))).unwrap() {
        SqlValue::String(s) => assert_eq!(s, "x"),
        other => panic!("unexpected: {:?}", other),
    }
    match param_to_sql_value(&with(text("x"), Some("DATE"))).unwrap() {
        SqlValue::String(s) => assert_eq!(s, "x"),
        other => panic!("unexpected: {:?}", other),
    }
}

#[test]
fn structured_values_are_passed_as_json_text() {
    match param_to_sql_value(&with(JsonValue::Structured("[1,2]".to_string()), Some("int")))
        .unwrap()
    {
        SqlValue::String(s) => assert_eq!(s, "[1,2]"),
        other => panic!("unexpected: {:?}", other),
    }
}

#[test]
fn uuid_text_is_read_and_normalized() {
    let p = with(text("550E8400-E29B-41D4-A716-446655440000"), Some("uniqueidentifier"));
    match param_to_sql_value(&p).unwrap() {
        SqlValue::Uuid(t) => assert_eq!(t, "550e8400-e29b-41d4-a716-446655440000"),
        other => panic!("unexpected: {:?}", other),
    }
    let p = with(text("550e8400e29b41d4a716446655440000"), Some("uniqueidentifier"));
    match param_to_sql_value(&p).unwrap() {
        SqlValue::Uuid(t) => assert_eq!(t, "550e8400-e29b-41d4-a716-446655440000"),
        other => panic!("unexpected: {:?}", other),
    }
    let msg = query_error(param_to_sql_value(&with(text("nope"), Some("uniqueidentifier"))));
    assert!(msg.starts_with("Invalid UUID: "));
    assert!(msg.len() > "Invalid UUID: ".len());
}

#[test]
fn date_and_time_texts_are_read() {
    match param_to_sql_value(&with(text("2024-1-5"), Some("date"))).unwrap() {
        SqlValue::Date(t) => assert_eq!(t, "2024-01-05"),
        other => panic!("unexpected: {:?}", other),
    }
    match param_to_sql_value(&with(text("23:56:4"), Some("time"))).unwrap() {
        SqlValue::Time(t) => assert_eq!(t, "23:56:04"),
        other => panic!("unexpected: {:?}", other),
    }
    match param_to_sql_value(&with(text("10:30:00.5"), Some("time"))).unwrap() {
        SqlValue::Time(t) => assert_eq!(t, "10:30:00.500"),
        other => panic!("unexpected: {:?}", other),
    }
    assert!(query_error(param_to_sql_value(&with(text("2024-13-01"), Some("date"))))
        .starts_with("Invalid date: "));
    assert!(query_error(param_to_sql_value(&with(text("25:00:00"), Some("time"))))
        .starts_with("Invalid time: "));
}

#[test]
fn datetime_is_read_in_each_of_its_forms() {
    assert_eq!(parse_datetime("2024-01-15T10:30:00.250").unwrap(), "2024-01-15 10:30:00.250");
    assert_eq!(parse_datetime("2024-01-15T10:30:00").unwrap(), "2024-01-15 10:30:00");
    assert_eq!(parse_datetime("2024-01-15 10:30:00.5").unwrap(), "2024-01-15 10:30:00.500");
    assert_eq!(parse_datetime("2024-01-15 10:30:00").unwrap(), "2024-01-15 10:30:00");
    assert_eq!(parse_datetime("2024-01-15T10:30:00+02:00").unwrap(), "2024-01-15 10:30:00");
    assert_eq!(parse_datetime("2024-01-15T10:30:00Z").unwrap(), "2024-01-15 10:30:00");
    match parse_datetime("yesterday") {
        Err(MssqlError::Query(msg)) => assert_eq!(msg, "Invalid datetime: yesterday"),
        other => panic!("unexpected: {:?}", other),
    }
    for hint in ["datetime", "datetime2"] {
        match param_to_sql_value(&with(text("2024-01-15T10:30:00"), Some(hint))).unwrap() {
            SqlValue::DateTime(t) => assert_eq!(t, "2024-01-15 10:30:00"),
            other => panic!("unexpected: {:?}", other),
        }
        assert_eq!(
            query_error(param_to_sql_value(&with(text("2024-01-15"), Some(hint)))),
            "Invalid datetime: 2024-01-15"
        );
    }
}

#[test]
fn rfc3339_datetime_keeps_what_is_written_and_discards_the_offset() {
    assert_eq!(parse_datetime("2024-01-02T03:04:05+02:00").unwrap(), "2024-01-02 03:04:05");
    assert_eq!(parse_datetime("2024-01-02T03:04:05-08:00").unwrap(), "2024-01-02 03:04:05");
    assert_eq!(parse_datetime("2024-01-01T00:30:00+05:30").unwrap(), "2024-01-01 00:30:00");
    assert_eq!(parse_datetime("2024-12-31T23:59:59.250-11:00").unwrap(), "2024-12-31 23:59:59.250");
    assert_eq!(parse_datetime("0000-01-01T00:00:00+23:59").unwrap(), "0000-01-01 00:00:00");
    assert_eq!(parse_datetime("9999-12-31T23:59:59-23:59").unwrap(), "9999-12-31 23:59:59");
    for hint in ["datetime", "datetime2"] {
        match param_to_sql_value(&with(text("2024-01-02T03:04:05+02:00"), Some(hint))).unwrap() {
            SqlValue::DateTime(t) => assert_eq!(t, "2024-01-02 03:04:05"),
            other => panic!("unexpected: {:?}", other),
        }
    }
}

#[test]
fn refusals_give_the_reason_of_the_reader() {
    assert_eq!(
        query_error(param_to_sql_value(&with(text("2024-13-01"), Some("date")))),
        "Invalid date: input is out of range"
    );
    assert_eq!(
        query_error(param_to_sql_value(&with(text("noon"), Some("time")))),
        "Invalid time: input contains invalid characters"
    );
    assert_eq!(
        query_error(param_to_sql_value(&with(text("2024"), Some("datetimeoffset")))),
        "Invalid datetimeoffset: premature end of input"
    );
    let uuid = query_error(param_to_sql_value(&with(text("nope"), Some("uniqueidentifier"))));
    assert_eq!(uuid, format!("Invalid UUID: {}", uuid::Uuid::parse_str("nope").unwrap_err()));
    let binary = query_error(param_to_sql_value(&with(text("AQID/w="), Some("varbinary"))));
    assert!(binary.starts_with("Invalid base64: Invalid"), "{}", binary);
}

#[test]
fn datetime_with_offset_keeps_its_offset() {
    let p = with(text("2024-01-15T10:30:00+02:00"), Some("datetimeoffset"));
    match param_to_sql_value(&p).unwrap() {
        SqlValue::DateTimeOffset(d) => {
            assert_eq!(d.display, "2024-01-15 10:30:00 +02:00");
            assert_eq!(d.rfc3339, "2024-01-15T10:30:00+02:00");
        },
        other => panic!("unexpected: {:?}", other),
    }
    assert!(query_error(param_to_sql_value(&with(text("2024-01-15"), Some("datetimeoffset"))))
        .starts_with("Invalid datetimeoffset: "));
}

#[test]
fn binary_text_is_base64() {
    match param_to_sql_value(&with(text("AQID/w=="), Some("varbinary"))).unwrap() {
        SqlValue::Binary(b) => assert_eq!(b, vec![1, 2, 3, 255]),
        other => panic!("unexpected: {:?}", other),
    }
    assert!(query_error(param_to_sql_value(&with(text("AQID/w="), Some("varbinary"))))
        .starts_with("Invalid base64: "));
}

#[test]
fn text_conversion_by_hint() {
    assert!(matches!(
        text_to_sql_value("2024-01-15", &Some("date".to_string())).unwrap(),
        SqlValue::Date(t) if t == "2024-01-15"
    ));
    assert!(matches!(text_to_sql_value("abc", &None).unwrap(), SqlValue::String(t) if t == "abc"));
    assert!(hint_is(&Some("date".to_string()), "date"));
    assert!(!hint_is(&Some("Date".to_string()), "date"));
    assert!(!hint_is(&None, "date"));
    match refused("Invalid date: ", "input is out of range") {
        MssqlError::Query(msg) => assert_eq!(msg, "Invalid date: input is out of range"),
        other => panic!("unexpected: {:?}", other),
    }
}

#[test]
fn boxed_value_is_the_same_value() {
    let p = with(JsonValue::Int(5), Some("bigint"));
    assert!(matches!(*param_to_boxed(&p).unwrap(), SqlValue::BigInt(5)));
    assert!(param_to_boxed(&with(text("x"), Some("date"))).is_err());
}

#[test]
fn declare_type_takes_lower_case_only() {
    assert_eq!(declare_type_of("int").unwrap(), "INT");
    match declare_type_of("INT") {
        Err(MssqlError::Query(msg)) => assert_eq!(msg, "Unknown SQL type: INT"),
        other => panic!("unexpected: {:?}", other),
    }
}

#[test]
fn boxes_follow_the_slot_order() {
    let params = vec![
        named("a", JsonValue::Int(1), None),
        named("b", text("two"), None),
        named("c", JsonValue::Bool(true), None),
    ];
    let values = build_param_boxes(&params, &[2, 0, 2]).unwrap();
    assert_eq!(values.len(), 3);
    assert!(matches!(*values[0], SqlValue::Bool(true)));
    assert!(matches!(*values[1], SqlValue::Int(1)));
    assert!(matches!(*values[2], SqlValue::Bool(true)));
    assert!(build_param_boxes(&params, &[]).unwrap().is_empty());
}

#[test]
fn a_parameter_that_fills_no_slot_must_convert_too() {
    let params =
        vec![named("a", JsonValue::Int(1), None), named("b", text("bad"), Some("date"))];
    match build_param_boxes(&params, &[0]) {
        Err(MssqlError::Query(msg)) => assert!(msg.starts_with("Invalid date: ")),
        other => panic!("unexpected: {:?}", other.map(|v| v.len())),
    }
}

#[test]
fn statement_is_rewritten_and_bound() {
    let cmd = command(
        "SELECT * FROM t WHERE a = @a AND b = @b AND a2 = @A",
        vec![named("@a", JsonValue::Int(1), None), named("b", text("x"), None)],
    );
    let st = bind_statement(&cmd).unwrap();
    assert_eq!(st.sql, "SELECT * FROM t WHERE a = @P1 AND b = @P2 AND a2 = @P3");
    assert_eq!(st.values.len(), 3);
    assert!(matches!(*st.values[0], SqlValue::Int(1)));
    assert!(matches!(&*st.values[1], SqlValue::String(s) if s == "x"));
    assert!(matches!(*st.values[2], SqlValue::Int(1)));
}

#[test]
fn statement_without_bound_reference_is_sent_as_it_stands() {
    let cmd = command("SELECT '@a', @@ROWCOUNT", vec![named("a", JsonValue::Int(1), None)]);
    let st = bind_statement(&cmd).unwrap();
    assert_eq!(st.sql, "SELECT '@a', @@ROWCOUNT");
    assert!(st.values.is_empty());
    let st = bind_statement(&command("SELECT 1", vec![])).unwrap();
    assert_eq!(st.sql, "SELECT 1");
    assert!(st.values.is_empty());
}

#[test]
fn batch_gets_the_row_count_probe() {
    let cmd = command("UPDATE t SET a = @a", vec![named("a", JsonValue::Int(1), None)]);
    let st = bind_batch(&cmd).unwrap();
    assert_eq!(st.sql, "UPDATE t SET a = @P1; SELECT @@ROWCOUNT AS __rc");
    assert_eq!(st.values.len(), 1);
    let st = bind_batch(&command("EXEC p", vec![])).unwrap();
    assert_eq!(st.sql, "EXEC p; SELECT @@ROWCOUNT AS __rc");
}

#[test]
fn binding_fails_before_anything_is_sent() {
    let cmd = command("SELECT @d", vec![named("d", text("soon"), Some("datetime"))]);
    match bind_statement(&cmd) {
        Err(MssqlError::Query(msg)) => assert_eq!(msg, "Invalid datetime: soon"),
        other => panic!("unexpected: {:?}", other.map(|s| s.sql)),
    }
    assert!(bind_batch(&cmd).is_err());
}
