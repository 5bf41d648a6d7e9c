//! Conversion of command parameters into typed values, the mapping from type
//! hints to declaration types, and the binding of a command's parameters to
//! the positional slots of its rewritten text.

use vstd::prelude::*;
use crate::command::{SerializedCommand, SerializedParam};
use crate::error::{prefixed, ErrorKind, MssqlError};
use crate::formats::{
    base64_bytes, base64_decode, base64_refusal, date_refusal, date_text, datetime_text,
    offset_datetime_refusal, offset_datetime_text, parse_date, parse_datetime_as,
    parse_offset_datetime, parse_rfc3339_local, parse_time, parse_uuid, rfc3339_local_text,
    time_refusal, time_text, uuid_refusal, uuid_text,
};
use crate::rewrite::{param_names, rewrite_named_params, rewritten};
use crate::text::{
    decimal, lowercase, push_decimal, push_signed_decimal, push_text, signed_decimal, str_eq,
    to_lowercase,
};
use crate::value::{JsonValue, JsonView, Real, RealView, SqlValue, SqlView};

verus! {

/// The declaration type for a type hint in lower case, where the hint is known.
pub open spec fn declare_type(lower: Seq<char>) -> Option<Seq<char>> {
    if lower == "int"@ {
        Some("INT"@)
    } else if lower == "bigint"@ {
        Some("BIGINT"@)
    } else if lower == "smallint"@ {
        Some("SMALLINT"@)
    } else if lower == "tinyint"@ {
        Some("TINYINT"@)
    } else if lower == "float"@ {
        Some("FLOAT"@)
    } else if lower == "real"@ {
        Some("REAL"@)
    } else if lower == "decimal"@ {
        Some("DECIMAL(38, 18)"@)
    } else if lower == "bit"@ {
        Some("BIT"@)
    } else if lower == "varchar"@ {
        Some("VARCHAR(MAX)"@)
    } else if lower == "nvarchar"@ {
        Some("NVARCHAR(MAX)"@)
    } else if lower == "text"@ {
        Some("TEXT"@)
    } else if lower == "ntext"@ {
        Some("NTEXT"@)
    } else if lower == "char"@ {
        Some("CHAR(1)"@)
    } else if lower == "nchar"@ {
        Some("NCHAR(1)"@)
    } else if lower == "date"@ {
        Some("DATE"@)
    } else if lower == "datetime"@ {
        Some("DATETIME"@)
    } else if lower == "datetime2"@ {
        Some("DATETIME2"@)
    } else if lower == "datetimeoffset"@ {
        Some("DATETIMEOFFSET"@)
    } else if lower == "time"@ {
        Some("TIME"@)
    } else if lower == "uniqueidentifier"@ {
        Some("UNIQUEIDENTIFIER"@)
    } else if lower == "varbinary"@ {
        Some("VARBINARY(MAX)"@)
    } else if lower == "xml"@ {
        Some("XML"@)
    } else if lower == "json"@ {
        Some("NVARCHAR(MAX)"@)
    } else {
        None
    }
}

/// Whether `r` is the outcome of mapping the lower-case hint `lower`: the
/// declaration type where the hint is known, else a query error that names it.
pub open spec fn is_declare_outcome(r: Result<&'static str, MssqlError>, lower: Seq<char>) -> bool {
    match r {
        Ok(t) => declare_type(lower) == Some(t@),
        Err(e) => declare_type(lower) is None && e.is(
            ErrorKind::Query,
            "Unknown SQL type: "@ + lower,
        ),
    }
}

/// Maps a type hint that is already in lower case to the type keyword used in
/// a declaration of a server-side variable.
pub fn declare_type_of(lower: &str) -> (r: Result<&'static str, MssqlError>)
    ensures
        is_declare_outcome(r, lower@),
{
    if str_eq(lower, "int") {
        Ok("INT")
    } else if str_eq(lower, "bigint") {
        Ok("BIGINT")
    } else if str_eq(lower, "smallint") {
        Ok("SMALLINT")
    } else if str_eq(lower, "tinyint") {
        Ok("TINYINT")
    } else if str_eq(lower, "float") {
        Ok("FLOAT")
    } else if str_eq(lower, "real") {
        Ok("REAL")
    } else if str_eq(lower, "decimal") {
        Ok("DECIMAL(38, 18)")
    } else if str_eq(lower, "bit") {
        Ok("BIT")
    } else if str_eq(lower, "varchar") {
        Ok("VARCHAR(MAX)")
    } else if str_eq(lower, "nvarchar") {
        Ok("NVARCHAR(MAX)")
    } else if str_eq(lower, "text") {
        Ok("TEXT")
    } else if str_eq(lower, "ntext") {
        Ok("NTEXT")
    } else if str_eq(lower, "char") {
        Ok("CHAR(1)")
    } else if str_eq(lower, "nchar") {
        Ok("NCHAR(1)")
    } else if str_eq(lower, "date") {
        Ok("DATE")
    } else if str_eq(lower, "datetime") {
        Ok("DATETIME")
    } else if str_eq(lower, "datetime2") {
        Ok("DATETIME2")
    } else if str_eq(lower, "datetimeoffset") {
        Ok("DATETIMEOFFSET")
    } else if str_eq(lower, "time") {
        Ok("TIME")
    } else if str_eq(lower, "uniqueidentifier") {
        Ok("UNIQUEIDENTIFIER")
    } else if str_eq(lower, "varbinary") {
        Ok("VARBINARY(MAX)")
    } else if str_eq(lower, "xml") {
        Ok("XML")
    } else if str_eq(lower, "json") {
        Ok("NVARCHAR(MAX)")
    } else {
        Err(MssqlError::Query(prefixed("Unknown SQL type: ", lower)))
    }
}

/// Maps a type hint, in any case, to the type keyword used in a declaration
/// of a server-side variable. An unknown hint is a query error that names the
/// hint in lower case.
pub fn sql_type_for_declare(type_hint: &str) -> (r: Result<&'static str, MssqlError>)
    ensures
        is_declare_outcome(r, lowercase(type_hint@)),
{
    let lower = to_lowercase(type_hint);
    declare_type_of(lower.as_str())
}

/// The text of an optional string.
pub open spec fn opt_text(o: Option<String>) -> Option<Seq<char>> {
    match o {
        Some(s) => Some(s@),
        None => None,
    }
}

/// Whether the hint is present and reads exactly `name`.
pub fn hint_is(hint: &Option<String>, name: &str) -> (r: bool)
    ensures
        r == (opt_text(*hint) == Some(name@)),
{
    match hint {
        Some(t) => str_eq(t.as_str(), name),
        None => false,
    }
}

/// The typed value for an integer: the width that the hint names, the integer
/// being cut to that width; a real for the hints `float` and `real`; without
/// such a hint 32 bits where the integer fits them, else 64 bits.
pub open spec fn integer_param(i: i64, hint: Option<Seq<char>>) -> SqlView {
    if hint == Some("tinyint"@) {
        SqlView::TinyInt(i as u8)
    } else if hint == Some("smallint"@) {
        SqlView::SmallInt(i as i16)
    } else if hint == Some("int"@) {
        SqlView::Int(i as i32)
    } else if hint == Some("bigint"@) {
        SqlView::BigInt(i)
    } else if hint == Some("float"@) || hint == Some("real"@) {
        SqlView::Double(RealView::Finite(signed_decimal(i as int)))
    } else if i32::MIN <= i <= i32::MAX {
        SqlView::Int(i as i32)
    } else {
        SqlView::BigInt(i)
    }
}

/// The typed value for an integer.
pub fn integer_to_sql_value(i: i64, hint: &Option<String>) -> (v: SqlValue)
    ensures
        v@ == integer_param(i, opt_text(*hint)),
{
    if hint_is(hint, "tinyint") {
        SqlValue::TinyInt(#[verifier::truncate] (i as u8))
    } else if hint_is(hint, "smallint") {
        SqlValue::SmallInt(#[verifier::truncate] (i as i16))
    } else if hint_is(hint, "int") {
        SqlValue::Int(#[verifier::truncate] (i as i32))
    } else if hint_is(hint, "bigint") {
        SqlValue::BigInt(i)
    } else if hint_is(hint, "float") || hint_is(hint, "real") {
        let mut t = String::new();
        push_signed_decimal(&mut t, i);
        assert(t@ == signed_decimal(i as int));
        SqlValue::Double(Real::Finite(t))
    } else if i32::MIN as i64 <= i && i <= i32::MAX as i64 {
        SqlValue::Int(i as i32)
    } else {
        SqlValue::BigInt(i)
    }
}

/// The patterns by which a date and time without offset is read, in the order
/// in which they are tried.
pub open spec fn datetime_patterns() -> Seq<Seq<char>> {
    seq![
        "%Y-%m-%dT%H:%M:%S%.f"@,
        "%Y-%m-%dT%H:%M:%S"@,
        "%Y-%m-%d %H:%M:%S%.f"@,
        "%Y-%m-%d %H:%M:%S"@,
    ]
}

/// The date and time that a text denotes: by the first pattern that it fits,
/// else as an RFC 3339 text, of which the date and the time of day are kept
/// as written and the offset is discarded.
pub open spec fn datetime_of(s: Seq<char>) -> Option<Seq<char>> {
    if datetime_text(s, datetime_patterns()[0]) is Some {
        datetime_text(s, datetime_patterns()[0])
    } else if datetime_text(s, datetime_patterns()[1]) is Some {
        datetime_text(s, datetime_patterns()[1])
    } else if datetime_text(s, datetime_patterns()[2]) is Some {
        datetime_text(s, datetime_patterns()[2])
    } else if datetime_text(s, datetime_patterns()[3]) is Some {
        datetime_text(s, datetime_patterns()[3])
    } else {
        rfc3339_local_text(s)
    }
}

/// Reads a date and time without offset. Four patterns are tried in order,
/// then RFC 3339, whose offset is discarded; a text that fits none is a query
/// error that quotes it.
pub fn parse_datetime(s: &str) -> (r: Result<String, MssqlError>)
    ensures
        match r {
            Ok(t) => datetime_of(s@) == Some(t@),
            Err(e) => datetime_of(s@) is None && e.is(ErrorKind::Query, "Invalid datetime: "@ + s@),
        },
{
    proof {
        let patterns = datetime_patterns();
        assert(patterns[0] == "%Y-%m-%dT%H:%M:%S%.f"@ && patterns[1] == "%Y-%m-%dT%H:%M:%S"@);
        assert(patterns[2] == "%Y-%m-%d %H:%M:%S%.f"@ && patterns[3] == "%Y-%m-%d %H:%M:%S"@);
    }
    if let Some(t) = parse_datetime_as(s, "%Y-%m-%dT%H:%M:%S%.f") {
        return Ok(t);
    }
    if let Some(t) = parse_datetime_as(s, "%Y-%m-%dT%H:%M:%S") {
        return Ok(t);
    }
    if let Some(t) = parse_datetime_as(s, "%Y-%m-%d %H:%M:%S%.f") {
        return Ok(t);
    }
    if let Some(t) = parse_datetime_as(s, "%Y-%m-%d %H:%M:%S") {
        return Ok(t);
    }
    if let Some(t) = parse_rfc3339_local(s) {
        return Ok(t);
    }
    Err(MssqlError::Query(prefixed("Invalid datetime: ", s)))
}

/// The typed value for a text under a hint, where the text is well formed for
/// the hint. Without a hint that asks for more, the text itself.
pub open spec fn text_param(s: Seq<char>, hint: Option<Seq<char>>) -> Option<SqlView> {
    if hint == Some("uniqueidentifier"@) {
        match uuid_text(s) {
            Some(t) => Some(SqlView::Uuid(t)),
            None => None,
        }
    } else if hint == Some("date"@) {
        match date_text(s) {
            Some(t) => Some(SqlView::Date(t)),
            None => None,
        }
    } else if hint == Some("time"@) {
        match time_text(s) {
            Some(t) => Some(SqlView::Time(t)),
            None => None,
        }
    } else if hint == Some("datetime"@) || hint == Some("datetime2"@) {
        match datetime_of(s) {
            Some(t) => Some(SqlView::DateTime(t)),
            None => None,
        }
    } else if hint == Some("datetimeoffset"@) {
        match offset_datetime_text(s) {
            Some(d) => Some(SqlView::DateTimeOffset { display: d.0, rfc3339: d.1 }),
            None => None,
        }
    } else if hint == Some("varbinary"@) {
        match base64_bytes(s) {
            Some(b) => Some(SqlView::Binary(b)),
            None => None,
        }
    } else {
        Some(SqlView::String(s))
    }
}

/// The message of the error that the conversion of the text `s` under `hint`
/// reports where it fails: which form was expected, then the reader's reason
/// or, for a date and time without offset, the text itself.
pub open spec fn text_error(s: Seq<char>, hint: Option<Seq<char>>) -> Seq<char> {
    if hint == Some("uniqueidentifier"@) {
        "Invalid UUID: "@ + uuid_refusal(s)
    } else if hint == Some("date"@) {
        "Invalid date: "@ + date_refusal(s)
    } else if hint == Some("time"@) {
        "Invalid time: "@ + time_refusal(s)
    } else if hint == Some("datetime"@) || hint == Some("datetime2"@) {
        "Invalid datetime: "@ + s
    } else if hint == Some("datetimeoffset"@) {
        "Invalid datetimeoffset: "@ + offset_datetime_refusal(s)
    } else {
        "Invalid base64: "@ + base64_refusal(s)
    }
}

/// Whether `e` is the error that the conversion of the text `s` under `hint`
/// reports where it fails: a query error with the message [`text_error`].
pub open spec fn is_text_error(e: MssqlError, s: Seq<char>, hint: Option<Seq<char>>) -> bool {
    e.is(ErrorKind::Query, text_error(s, hint))
}

/// The query error for a text that its reader refused: `prefix`, then the
/// reader's reason.
pub fn refused(prefix: &str, reason: &str) -> (e: MssqlError)
    ensures
        e.is(ErrorKind::Query, prefix@ + reason@),
{
    MssqlError::Query(prefixed(prefix, reason))
}

/// The typed value for a text under a hint.
pub fn text_to_sql_value(s: &str, hint: &Option<String>) -> (r: Result<SqlValue, MssqlError>)
    ensures
        match r {
            Ok(v) => text_param(s@, opt_text(*hint)) == Some(v@),
            Err(e) => text_param(s@, opt_text(*hint)) is None && is_text_error(
                e,
                s@,
                opt_text(*hint),
            ),
        },
{
    if hint_is(hint, "uniqueidentifier") {
        match parse_uuid(s) {
            Ok(t) => Ok(SqlValue::Uuid(t)),
            Err(reason) => Err(refused("Invalid UUID: ", reason.as_str())),
        }
    } else if hint_is(hint, "date") {
        match parse_date(s) {
            Ok(t) => Ok(SqlValue::Date(t)),
            Err(reason) => Err(refused("Invalid date: ", reason.as_str())),
        }
    } else if hint_is(hint, "time") {
        match parse_time(s) {
            Ok(t) => Ok(SqlValue::Time(t)),
            Err(reason) => Err(refused("Invalid time: ", reason.as_str())),
        }
    } else if hint_is(hint, "datetime") || hint_is(hint, "datetime2") {
        match parse_datetime(s) {
            Ok(t) => Ok(SqlValue::DateTime(t)),
            Err(e) => Err(e),
        }
    } else if hint_is(hint, "datetimeoffset") {
        match parse_offset_datetime(s) {
            Ok(d) => Ok(SqlValue::DateTimeOffset(d)),
            Err(reason) => Err(refused("Invalid datetimeoffset: ", reason.as_str())),
        }
    } else if hint_is(hint, "varbinary") {
        match base64_decode(s) {
            Ok(b) => Ok(SqlValue::Binary(b)),
            Err(reason) => Err(refused("Invalid base64: ", reason.as_str())),
        }
    } else {
        Ok(SqlValue::String(String::from_str(s)))
    }
}

/// The typed value that a host value converts to under a hint, where the
/// conversion succeeds. Null and booleans map directly, integers by
/// [`integer_param`], an integer above the signed range and a number with a
/// fraction become reals, texts convert by [`text_param`], and an array or an
/// object is passed as its JSON text.
pub open spec fn param_value(value: JsonView, hint: Option<Seq<char>>) -> Option<SqlView> {
    match value {
        JsonView::Null => Some(SqlView::Null),
        JsonView::Bool(b) => Some(SqlView::Bool(b)),
        JsonView::Int(i) => Some(integer_param(i, hint)),
        JsonView::UInt(u) => if u <= i64::MAX {
            Some(integer_param(u as i64, hint))
        } else {
            Some(SqlView::Double(RealView::Finite(decimal(u as nat))))
        },
        JsonView::Float(t) => Some(SqlView::Double(RealView::Finite(t))),
        JsonView::String(s) => text_param(s, hint),
        JsonView::Structured(t) => Some(SqlView::String(t)),
    }
}

/// Whether `e` is the error that the conversion of `value` under `hint`
/// reports where it fails. Only texts fail to convert.
pub open spec fn is_param_error(e: MssqlError, value: JsonView, hint: Option<Seq<char>>) -> bool {
    value matches JsonView::String(s) && is_text_error(e, s, hint)
}

/// Whether `r` is the outcome of converting `param`.
pub open spec fn is_param_outcome(r: Result<SqlView, MssqlError>, param: SerializedParam) -> bool {
    match r {
        Ok(v) => param_value(param.value@, opt_text(param.param_type)) == Some(v),
        Err(e) => param_value(param.value@, opt_text(param.param_type)) is None && is_param_error(
            e,
            param.value@,
            opt_text(param.param_type),
        ),
    }
}

/// The view of a conversion outcome.
pub open spec fn outcome_view(r: Result<SqlValue, MssqlError>) -> Result<SqlView, MssqlError> {
    match r {
        Ok(v) => Ok(v@),
        Err(e) => Err(e),
    }
}

/// Converts a parameter to the typed value that stands for it in a literal.
/// Fails, with a query error that gives the reader's reason, only for a text
/// that is malformed for its hint.
pub fn param_to_sql_value(param: &SerializedParam) -> (r: Result<SqlValue, MssqlError>)
    ensures
        is_param_outcome(outcome_view(r), *param),
{
    match &param.value {
        JsonValue::Null => Ok(SqlValue::Null),
        JsonValue::Bool(b) => Ok(SqlValue::Bool(*b)),
        JsonValue::Int(i) => Ok(integer_to_sql_value(*i, &param.param_type)),
        JsonValue::UInt(u) => {
            if *u <= i64::MAX as u64 {
                Ok(integer_to_sql_value(*u as i64, &param.param_type))
            } else {
                let mut t = String::new();
                push_decimal(&mut t, *u as u128);
                assert(t@ == decimal(*u as nat));
                Ok(SqlValue::Double(Real::Finite(t)))
            }
        },
        JsonValue::Float(t) => Ok(SqlValue::Double(Real::Finite(t.clone()))),
        JsonValue::String(s) => text_to_sql_value(s.as_str(), &param.param_type),
        JsonValue::Structured(t) => Ok(SqlValue::String(t.clone())),
    }
}

/// Converts a parameter to the typed value that is bound to a positional slot.
/// The value is the one that [`param_to_sql_value`] gives, on the heap.
pub fn param_to_boxed(param: &SerializedParam) -> (r: Result<Box<SqlValue>, MssqlError>)
    ensures
        match r {
            Ok(b) => is_param_outcome(Ok(b@), *param),
            Err(e) => is_param_outcome(Err(e), *param),
        },
{
    match param_to_sql_value(param) {
        Ok(v) => Ok(Box::new(v)),
        Err(e) => Err(e),
    }
}

/// Whether every one of the first `n` parameters converts.
pub open spec fn all_convert(params: Seq<SerializedParam>, n: int) -> bool {
    forall|k: int|
        0 <= k < n ==> param_value(
            (#[trigger] params[k]).value@,
            opt_text(params[k].param_type),
        ) is Some
}

/// Whether `e` is the error of the first parameter that does not convert.
pub open spec fn is_first_param_error(e: MssqlError, params: Seq<SerializedParam>) -> bool {
    exists|k: int|
        0 <= k < params.len() && all_convert(params, k) && #[trigger] is_param_outcome(
            Err(e),
            params[k],
        )
}

/// Whether `values` holds, slot by slot, the converted parameters that `order`
/// names.
pub open spec fn is_bound(
    values: Seq<Box<SqlValue>>,
    params: Seq<SerializedParam>,
    order: Seq<usize>,
) -> bool {
    &&& values.len() == order.len()
    &&& forall|j: int|
        0 <= j < order.len() ==> param_value(
            params[order[j] as int].value@,
            opt_text(params[order[j] as int].param_type),
        ) == Some((#[trigger] values[j])@)
}

/// Converts the parameters that fill the positional slots, in slot order.
///
/// Every declared parameter must convert, whether a slot names it or not: the
/// error of the first one that does not is returned.
pub fn build_param_boxes(params: &[SerializedParam], order: &[usize]) -> (r: Result<
    Vec<Box<SqlValue>>,
    MssqlError,
>)
    requires
        forall|j: int| 0 <= j < order.len() ==> order[j] < params.len(),
    ensures
        match r {
            Ok(values) => all_convert(params@, params.len() as int) && is_bound(
                values@,
                params@,
                order@,
            ),
            Err(e) => is_first_param_error(e, params@),
        },
{
    let mut i: usize = 0;
    while i < params.len()
        invariant
            i <= params.len(),
            all_convert(params@, i as int),
        decreases params.len() - i,
    {
        match param_to_boxed(&params[i]) {
            Ok(_) => {},
            Err(e) => {
                assert(is_param_outcome(Err(e), params@[i as int]));
                return Err(e);
            },
        }
        i += 1;
    }
    let mut ordered: Vec<Box<SqlValue>> = Vec::new();
    let mut j: usize = 0;
    while j < order.len()
        invariant
            j <= order.len(),
            all_convert(params@, params.len() as int),
            forall|k: int| 0 <= k < order.len() ==> order[k] < params.len(),
            is_bound(ordered@, params@, order@.take(j as int)),
        decreases order.len() - j,
    {
        let idx = order[j];
        match param_to_boxed(&params[idx]) {
            Ok(b) => {
                ordered.push(b);
            },
            Err(e) => {
                assert(params@[idx as int] == params[idx as int]);
                assert(false);
                return Err(e);
            },
        }
        j += 1;
    }
    assert(order@.take(order.len() as int) == order@);
    Ok(ordered)
}

/// A statement ready to be sent: its text, and the value for each positional
/// slot.
#[derive(Debug)]
pub struct BoundStatement {
    pub sql: String,
    pub values: Vec<Box<SqlValue>>,
}

/// The probe appended to a batch to learn how many rows it affected.
pub open spec fn row_count_probe() -> Seq<char> {
    "; SELECT @@ROWCOUNT AS __rc"@
}

/// The text sent for a command: the rewritten text where a reference was
/// bound, else the command's own text.
pub open spec fn statement_text(cmd: SerializedCommand) -> Seq<char> {
    let rw = rewritten(cmd.sql@, param_names(cmd.params@));
    if rw.1.len() == 0 {
        cmd.sql@
    } else {
        rw.0
    }
}

/// Whether `r` is the outcome of binding `cmd`, the statement's text being
/// followed by `suffix`.
pub open spec fn is_bind_outcome(
    r: Result<BoundStatement, MssqlError>,
    cmd: SerializedCommand,
    suffix: Seq<char>,
) -> bool {
    match r {
        Ok(st) => {
            &&& all_convert(cmd.params@, cmd.params.len() as int)
            &&& st.sql@ == statement_text(cmd) + suffix
            &&& is_bound(st.values@, cmd.params@, rewritten(cmd.sql@, param_names(cmd.params@)).1)
        },
        Err(e) => is_first_param_error(e, cmd.params@),
    }
}

fn bind_with_suffix(cmd: &SerializedCommand, suffix: &str) -> (r: Result<BoundStatement, MssqlError>)
    ensures
        is_bind_outcome(r, *cmd, suffix@),
{
    let (rewritten_sql, order) = rewrite_named_params(cmd.sql.as_str(), cmd.params.as_slice());
    let values = build_param_boxes(cmd.params.as_slice(), order.as_slice())?;
    let mut sql = if values.len() == 0 {
        cmd.sql.clone()
    } else {
        rewritten_sql
    };
    push_text(&mut sql, suffix);
    Ok(BoundStatement { sql, values })
}

/// Prepares a query or a statement without result: rewrites the references
/// and converts the parameters that fill the slots.
pub fn bind_statement(cmd: &SerializedCommand) -> (r: Result<BoundStatement, MssqlError>)
    ensures
        is_bind_outcome(r, *cmd, Seq::empty()),
{
    let r = bind_with_suffix(cmd, "");
    proof {
        reveal_strlit("");
        assert(""@ =~= Seq::<char>::empty());
    }
    r
}

/// Prepares a batch without output parameters: as [`bind_statement`], with the
/// row-count probe appended to the text.
pub fn bind_batch(cmd: &SerializedCommand) -> (r: Result<BoundStatement, MssqlError>)
    ensures
        is_bind_outcome(r, *cmd, row_count_probe()),
{
    bind_with_suffix(cmd, "; SELECT @@ROWCOUNT AS __rc")
}

} // verus!
