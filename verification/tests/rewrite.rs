use mssqlts::command::SerializedParam;
use mssqlts::query::sql_type_for_declare;
use mssqlts::error::MssqlError;
use mssqlts::rewrite::{is_sql_ident_char, normalize_name, rewrite_named_params, strip_markers};
use mssqlts::value::JsonValue;

fn param(name: &str) -> SerializedParam {
    SerializedParam {
        name: name.to_string(),
        value: JsonValue::Null,
        param_type: None,
        output: false,
    }
}

#[test]
fn no_params_returns_unchanged() {
    let (sql, order) = rewrite_named_params("SELECT * FROM t", &[]);
    assert_eq!(sql, "SELECT * FROM t");
    assert!(order.is_empty());
}

#[test]
fn no_params_leaves_references_alone() {
    let (sql, order) = rewrite_named_params("SELECT @a, '@b', @@c", &[]);
    assert_eq!(sql, "SELECT @a, '@b', @@c");
    assert!(order.is_empty());
}

#[test]
fn rewrite_single_param() {
    let params = vec![param("name")];
    let (sql, order) = rewrite_named_params("SELECT * FROM t WHERE name = @name", &params);
    assert_eq!(sql, "SELECT * FROM t WHERE name = @P1");
    assert_eq!(order, vec![0]);
}

#[test]
fn rewrite_multiple_params() {
    let params = vec![param("a"), param("b")];
    let (sql, order) = rewrite_named_params("SELECT @a, @b", &params);
    assert_eq!(sql, "SELECT @P1, @P2");
    assert_eq!(order, vec![0, 1]);
}

#[test]
fn preserves_string_literals() {
    let params = vec![param("name")];
    let (sql, _) = rewrite_named_params("SELECT '@name', @name", &params);
    assert_eq!(sql, "SELECT '@name', @P1");
}

#[test]
fn preserves_system_variables() {
    let params = vec![param("val")];
    let (sql, _) = rewrite_named_params("SELECT @@IDENTITY, @val", &params);
    assert_eq!(sql, "SELECT @@IDENTITY, @P1");
}

#[test]
fn case_insensitive_matching() {
    let params = vec![param("Name")];
    let (sql, order) = rewrite_named_params("SELECT @name, @NAME", &params);
    assert_eq!(sql, "SELECT @P1, @P2");
    assert_eq!(order, vec![0, 0]);
}

#[test]
fn rewrite_repeated_param() {
    let params = vec![param("x")];
    let (sql, order) = rewrite_named_params("@x + @x", &params);
    assert_eq!(sql, "@P1 + @P2");
    assert_eq!(order, vec![0, 0]);
}

#[test]
fn sql_type_declares() {
    assert_eq!(sql_type_for_declare("int").unwrap(), "INT");
    assert_eq!(sql_type_for_declare("BIGINT").unwrap(), "BIGINT");
    assert_eq!(sql_type_for_declare("nvarchar").unwrap(), "NVARCHAR(MAX)");
    assert_eq!(sql_type_for_declare("uniqueidentifier").unwrap(), "UNIQUEIDENTIFIER");
    assert!(sql_type_for_declare("badtype").is_err());
}

#[test]
fn sql_type_declares_every_hint() {
    let table = [
        ("int", "INT"),
        ("bigint", "BIGINT"),
        ("smallint", "SMALLINT"),
        ("tinyint", "TINYINT"),
        ("float", "FLOAT"),
        ("real", "REAL"),
        ("decimal", "DECIMAL(38, 18)"),
        ("bit", "BIT"),
        ("varchar", "VARCHAR(MAX)"),
        ("nvarchar", "NVARCHAR(MAX)"),
        ("text", "TEXT"),
        ("ntext", "NTEXT"),
        ("char", "CHAR(1)"),
        ("nchar", "NCHAR(1)"),
        ("date", "DATE"),
        ("datetime", "DATETIME"),
        ("datetime2", "DATETIME2"),
        ("datetimeoffset", "DATETIMEOFFSET"),
        ("time", "TIME"),
        ("uniqueidentifier", "UNIQUEIDENTIFIER"),
        ("varbinary", "VARBINARY(MAX)"),
        ("xml", "XML"),
        ("json", "NVARCHAR(MAX)"),
    ];
    for (hint, declared) in table {
        assert_eq!(sql_type_for_declare(hint).unwrap(), declared);
        assert_eq!(sql_type_for_declare(&hint.to_uppercase()).unwrap(), declared);
    }
}

#[test]
fn unknown_type_hint_is_named_in_the_error() {
    match sql_type_for_declare("BadType") {
        Err(MssqlError::Query(msg)) => assert_eq!(msg, "Unknown SQL type: badtype"),
        other => panic!("unexpected: {:?}", other),
    }
    match sql_type_for_declare("") {
        Err(MssqlError::Query(msg)) => assert_eq!(msg, "Unknown SQL type: "),
        other => panic!("unexpected: {:?}", other),
    }
}

#[test]
fn identifier_characters() {
    assert!(is_sql_ident_char('a'));
    assert!(is_sql_ident_char('Z'));
    assert!(is_sql_ident_char('7'));
    assert!(is_sql_ident_char('_'));
    assert!(is_sql_ident_char('é'));
    assert!(!is_sql_ident_char('@'));
    assert!(!is_sql_ident_char(' '));
    assert!(!is_sql_ident_char('-'));
    assert!(!is_sql_ident_char('\''));
}

#[test]
fn names_are_matched_without_markers_in_lower_case() {
    assert_eq!(strip_markers("@Name"), "Name");
    assert_eq!(strip_markers("@@Name"), "Name");
    assert_eq!(strip_markers("Na@me"), "Na@me");
    assert_eq!(strip_markers("@"), "");
    assert_eq!(normalize_name("@UserId"), "userid");
    assert_eq!(normalize_name("ÄB"), "äb");
}

#[test]
fn marker_in_declared_name_is_ignored() {
    let params = vec![param("@id")];
    let (sql, order) = rewrite_named_params("WHERE id = @ID;", &params);
    assert_eq!(sql, "WHERE id = @P1;");
    assert_eq!(order, vec![0]);
}

#[test]
fn unmatched_references_are_left_untouched() {
    let params = vec![param("a")];
    let (sql, order) = rewrite_named_params("SELECT @b, @a, @ab, @", &params);
    assert_eq!(sql, "SELECT @b, @P1, @ab, @");
    assert_eq!(order, vec![0]);
}

#[test]
fn parameters_need_not_appear_in_declaration_order() {
    let params = vec![param("a"), param("b"), param("c")];
    let (sql, order) = rewrite_named_params("@c @a @c @b", &params);
    assert_eq!(sql, "@P1 @P2 @P3 @P4");
    assert_eq!(order, vec![2, 0, 2, 1]);
}

#[test]
fn later_declaration_of_a_name_wins() {
    let params = vec![param("x"), param("X")];
    let (_, order) = rewrite_named_params("@x", &params);
    assert_eq!(order, vec![1]);
}

#[test]
fn doubled_quote_does_not_end_a_literal() {
    let params = vec![param("a")];
    let (sql, order) = rewrite_named_params("'it''s @a' @a", &params);
    assert_eq!(sql, "'it''s @a' @P1");
    assert_eq!(order, vec![0]);
}

#[test]
fn unclosed_literal_runs_to_the_end() {
    let params = vec![param("a")];
    let (sql, order) = rewrite_named_params("@a 'x @a", &params);
    assert_eq!(sql, "@P1 'x @a");
    assert_eq!(order, vec![0]);
    let (sql, order) = rewrite_named_params("'", &params);
    assert_eq!(sql, "'");
    assert!(order.is_empty());
    let (sql, _) = rewrite_named_params("'a'''", &params);
    assert_eq!(sql, "'a'''");
}

#[test]
fn system_variable_takes_its_identifier_along() {
    let params = vec![param("rowcount"), param("a")];
    let (sql, order) = rewrite_named_params("@@rowcount+@a @@ @a", &params);
    assert_eq!(sql, "@@rowcount+@P1 @@ @P2");
    assert_eq!(order, vec![1, 1]);
}

#[test]
fn slot_numbers_run_past_nine() {
    let params = vec![param("p")];
    let text = vec!["@p"; 12].join(",");
    let (sql, order) = rewrite_named_params(&text, &params);
    assert_eq!(sql, "@P1,@P2,@P3,@P4,@P5,@P6,@P7,@P8,@P9,@P10,@P11,@P12");
    assert_eq!(order, vec![0; 12]);
}

#[test]
fn text_beyond_ascii_is_kept() {
    let params = vec![param("größe")];
    let (sql, order) = rewrite_named_params("SELECT N'ü@größe' + @GRÖSSE + @Größe -- ✓", &params);
    assert_eq!(sql, "SELECT N'ü@größe' + @GRÖSSE + @P1 -- ✓");
    assert_eq!(order, vec![0]);
}
