use mssqlts::batch::{build_output_batch, has_output_params, plan_exec, ExecPlan};
use mssqlts::codec::{row_to_json, rows_to_json, Column, Row};
use mssqlts::command::{SerializedCommand, SerializedParam};
use mssqlts::error::MssqlError;
use mssqlts::results::{has_all_columns, merge_into, ResultCollector};
use mssqlts::value::{JsonObject, JsonValue, SqlValue};

fn input(name: &str, value: JsonValue, hint: Option<&str>) -> SerializedParam {
    SerializedParam {
        name: name.to_string(),
        value,
        param_type: hint.map(|h| h.to_string()),
        output: false,
    }
}

fn output(name: &str, value: JsonValue, hint: Option<&str>) -> SerializedParam {
    SerializedParam {
        name: name.to_string(),
        value,
        param_type: hint.map(|h| h.to_string()),
        output: true,
    }
}

fn command(kind: &str, sql: &str, params: Vec<SerializedParam>) -> SerializedCommand {
    SerializedCommand {
        sql: sql.to_string(),
        params,
        transaction_id: None,
        command_timeout_ms: None,
        command_type: kind.to_string(),
        stream_mode: None,
        fetch_size: None,
    }
}

fn text(s: &str) -> JsonValue {
    JsonValue::String(s.to_string())
}

#[test]
fn batch_for_stored_procedure() {
    let cmd = command(
        "stored_procedure",
        "dbo.AddUser",
        vec![
            input("@name", text("O'Brien"), None),
            output("@id", JsonValue::Null, Some("int")),
            output("total", JsonValue::Int(5), Some("BIGINT")),
            output("note", JsonValue::Null, None),
        ],
    );
    let batch = build_output_batch(&cmd).unwrap();
    assert_eq!(
        batch.sql,
        "DECLARE @id INT;\n\
         DECLARE @total BIGINT;\n\
         SET @total = 5;\n\
         DECLARE @note NVARCHAR(MAX);\n\
         EXEC dbo.AddUser @name = N'O''Brien', @id = @id OUTPUT, @total = @total OUTPUT, \
         @note = @note OUTPUT;\n\
         SELECT @id AS [id], @total AS [total], @note AS [note];\n\
         SELECT @@ROWCOUNT AS __rc;\n"
    );
    assert_eq!(batch.output_names, vec!["id", "total", "note"]);
}

#[test]
fn batch_for_plain_text() {
    let cmd = command(
        "query",
        "SET @n = (SELECT COUNT(*) FROM t)",
        vec![input("x", JsonValue::Int(1), None), output("@n", JsonValue::Null, Some("int"))],
    );
    let batch = build_output_batch(&cmd).unwrap();
    assert_eq!(
        batch.sql,
        "DECLARE @n INT;\n\
         SET @n = (SELECT COUNT(*) FROM t);\n\
         SELECT @n AS [n];\n\
         SELECT @@ROWCOUNT AS __rc;\n"
    );
    assert_eq!(batch.output_names, vec!["n"]);
}

#[test]
fn batch_without_output_parameters() {
    let cmd = command("stored_procedure", "p", vec![input("a", JsonValue::Bool(true), None)]);
    let batch = build_output_batch(&cmd).unwrap();
    assert_eq!(batch.sql, "EXEC p @a = 1;\nSELECT @@ROWCOUNT AS __rc;\n");
    assert!(batch.output_names.is_empty());
    let cmd = command("stored_procedure", "p", vec![]);
    assert_eq!(build_output_batch(&cmd).unwrap().sql, "EXEC p ;\nSELECT @@ROWCOUNT AS __rc;\n");
}

#[test]
fn batch_fails_on_unknown_hint() {
    let cmd = command("query", "x", vec![output("a", JsonValue::Null, Some("Widget"))]);
    match build_output_batch(&cmd) {
        Err(MssqlError::Query(msg)) => assert_eq!(msg, "Unknown SQL type: widget"),
        other => panic!("unexpected: {:?}", other),
    }
}

#[test]
fn batch_fails_on_value_that_does_not_convert() {
    let cmd = command("query", "x", vec![output("a", text("soon"), Some("datetime"))]);
    match build_output_batch(&cmd) {
        Err(MssqlError::Query(msg)) => assert_eq!(msg, "Invalid datetime: soon"),
        other => panic!("unexpected: {:?}", other),
    }
    let cmd = command(
        "stored_procedure",
        "p",
        vec![output("o", JsonValue::Null, None), input("a", text("soon"), Some("datetime"))],
    );
    match build_output_batch(&cmd) {
        Err(MssqlError::Query(msg)) => assert_eq!(msg, "Invalid datetime: soon"),
        other => panic!("unexpected: {:?}", other),
    }
    let cmd = command(
        "query",
        "x",
        vec![output("o", JsonValue::Null, None), input("a", text("soon"), Some("datetime"))],
    );
    assert!(build_output_batch(&cmd).is_ok());
}

#[test]
fn hint_error_comes_before_value_error() {
    let cmd = command("query", "x", vec![output("a", text("soon"), Some("nope"))]);
    match build_output_batch(&cmd) {
        Err(MssqlError::Query(msg)) => assert_eq!(msg, "Unknown SQL type: nope"),
        other => panic!("unexpected: {:?}", other),
    }
}

#[test]
fn plan_follows_output_flag() {
    let cmd = command("query", "SELECT @a", vec![input("a", JsonValue::Int(1), None)]);
    assert!(!has_output_params(&cmd));
    match plan_exec(&cmd).unwrap() {
        ExecPlan::Bound(st) => {
            assert_eq!(st.sql, "SELECT @P1; SELECT @@ROWCOUNT AS __rc");
            assert_eq!(st.values.len(), 1);
        },
        other => panic!("unexpected: {:?}", other),
    }
    let cmd = command(
        "query",
        "SELECT @a",
        vec![input("a", JsonValue::Int(1), None), output("b", JsonValue::Null, None)],
    );
    assert!(has_output_params(&cmd));
    match plan_exec(&cmd).unwrap() {
        ExecPlan::Batch(b) => {
            assert_eq!(
                b.sql,
                "DECLARE @b NVARCHAR(MAX);\nSELECT @a;\nSELECT @b AS [b];\n\
                 SELECT @@ROWCOUNT AS __rc;\n"
            );
        },
        other => panic!("unexpected: {:?}", other),
    }
    assert!(!has_output_params(&command("query", "x", vec![])));
}

fn row(columns: Vec<(&str, SqlValue)>) -> JsonObject {
    row_to_json(&Row {
        columns: columns
            .into_iter()
            .map(|(n, v)| Column { name: n.to_string(), value: Some(v) })
            .collect(),
    })
}

fn names(list: &[&str]) -> Vec<String> {
    list.iter().map(|s| s.to_string()).collect()
}

#[test]
fn collector_sorts_rows() {
    let mut c = ResultCollector::new(names(&["id", "total"]));
    c.accept_row(row(vec![("a", SqlValue::Int(1))]));
    c.accept_row(row(vec![("a", SqlValue::Int(2))]));
    c.end_result_set();
    c.end_result_set();
    c.accept_row(row(vec![("total", SqlValue::BigInt(9)), ("id", SqlValue::Int(7))]));
    c.end_result_set();
    c.accept_row(row(vec![("__rc", SqlValue::Int(3))]));
    c.end_result_set();
    let out = c.finish();
    assert_eq!(out.rows_affected, 3);
    assert_eq!(out.result_sets.len(), 1);
    assert_eq!(out.result_sets[0].len(), 2);
    assert!(matches!(out.result_sets[0][1].get("a"), Some(JsonValue::Int(2))));
    assert_eq!(out.output_params.len(), 2);
    assert!(matches!(out.output_params.get("id"), Some(JsonValue::Int(7))));
    assert!(matches!(out.output_params.get("total"), Some(JsonValue::Int(9))));
}

#[test]
fn collector_output_row_must_match_names_exactly() {
    let mut c = ResultCollector::new(names(&["id", "total"]));
    c.accept_row(row(vec![("id", SqlValue::Int(1))]));
    c.accept_row(row(vec![
        ("id", SqlValue::Int(1)),
        ("total", SqlValue::Int(2)),
        ("more", SqlValue::Int(3)),
    ]));
    c.accept_row(row(vec![("ID", SqlValue::Int(1)), ("total", SqlValue::Int(2))]));
    c.end_result_set();
    let out = c.finish();
    assert_eq!(out.result_sets.len(), 1);
    assert_eq!(out.result_sets[0].len(), 3);
    assert_eq!(out.output_params.len(), 0);
    assert_eq!(out.rows_affected, 0);
}

#[test]
fn collector_without_output_names_keeps_every_row() {
    let mut c = ResultCollector::new(vec![]);
    c.accept_row(row(vec![]));
    c.accept_row(row(vec![("x", SqlValue::Null)]));
    c.end_result_set();
    let out = c.finish();
    assert_eq!(out.result_sets.len(), 1);
    assert_eq!(out.result_sets[0].len(), 2);
    assert_eq!(out.output_params.len(), 0);
}

#[test]
fn collector_probe_needs_an_integer() {
    let mut c = ResultCollector::new(vec![]);
    c.accept_row(row(vec![("__rc", SqlValue::String("3".to_string()))]));
    c.accept_row(row(vec![("__rc", SqlValue::Null)]));
    c.accept_row(row(vec![("__rc", SqlValue::BigInt(1 << 60))]));
    c.accept_row(row(vec![("__rc", SqlValue::Int(5)), ("other", SqlValue::Int(1))]));
    c.accept_row(row(vec![("__rc", SqlValue::Int(6))]));
    c.end_result_set();
    let out = c.finish();
    assert_eq!(out.rows_affected, 6);
    assert_eq!(out.result_sets.len(), 1);
    assert_eq!(out.result_sets[0].len(), 3);
}

#[test]
fn collector_drops_rows_of_an_open_set_and_keeps_later_outputs() {
    let mut c = ResultCollector::new(names(&["o"]));
    c.accept_row(row(vec![("o", SqlValue::Int(1))]));
    c.accept_row(row(vec![("o", SqlValue::Int(2))]));
    c.accept_row(row(vec![("a", SqlValue::Int(1))]));
    let out = c.finish();
    assert!(out.result_sets.is_empty());
    assert!(matches!(out.output_params.get("o"), Some(JsonValue::Int(2))));
}

#[test]
fn collector_with_repeated_output_name_takes_no_output_row() {
    let mut c = ResultCollector::new(names(&["o", "o"]));
    c.accept_row(row(vec![("o", SqlValue::Int(1))]));
    c.end_result_set();
    let out = c.finish();
    assert_eq!(out.output_params.len(), 0);
    assert_eq!(out.result_sets.len(), 1);
}

#[test]
fn merging_replaces_equal_keys() {
    let mut target = row(vec![("a", SqlValue::Int(1)), ("b", SqlValue::Int(2))]);
    let other = row(vec![("b", SqlValue::Int(20)), ("c", SqlValue::Int(30))]);
    merge_into(&mut target, &other);
    assert_eq!(target.len(), 3);
    assert!(matches!(target.get("a"), Some(JsonValue::Int(1))));
    assert!(matches!(target.get("b"), Some(JsonValue::Int(20))));
    assert!(matches!(target.get("c"), Some(JsonValue::Int(30))));
    assert!(has_all_columns(&target, &names(&["a", "c"])));
    assert!(has_all_columns(&target, &names(&[])));
    assert!(!has_all_columns(&target, &names(&["a", "d"])));
}

#[test]
fn rows_decode_in_order() {
    let rows = vec![
        Row { columns: vec![Column { name: "n".to_string(), value: Some(SqlValue::Int(1)) }] },
        Row { columns: vec![] },
        Row { columns: vec![Column { name: "n".to_string(), value: None }] },
    ];
    let objects = rows_to_json(&rows);
    assert_eq!(objects.len(), 3);
    assert!(matches!(objects[0].get("n"), Some(JsonValue::Int(1))));
    assert_eq!(objects[1].len(), 0);
    assert!(matches!(objects[2].get("n"), Some(JsonValue::Null)));
}
