//! The value codec: typed values rendered as SQL literals, and typed values
//! decoded into host values.

use vstd::prelude::*;
use crate::text::{
    decimal, double_char, hex_upper, push_char, push_decimal, push_hex_upper, push_signed_decimal,
    push_text, push_text_doubling, signed_decimal,
};
use crate::value::{JsonObject, JsonValue, JsonView, Real, RealView, SqlValue, SqlView};

verus! {

/// Largest magnitude that a host number holds without loss: two to the 53rd.
pub const SAFE_INTEGER_LIMIT: i64 = 9007199254740992;

/// `text` between single quotes.
pub open spec fn quoted(text: Seq<char>) -> Seq<char> {
    seq!['\''] + text + seq!['\'']
}

/// A national-character string literal: embedded quotes are doubled.
pub open spec fn national_literal(text: Seq<char>) -> Seq<char> {
    "N'"@ + double_char(text, '\'') + seq!['\'']
}

/// A binary literal: `0x` and two upper-case hexadecimal digits per byte.
pub open spec fn binary_literal(bytes: Seq<u8>) -> Seq<char> {
    "0x"@ + hex_upper(bytes)
}

/// The literal for a real number: its decimal text, or `NULL` when not finite.
pub open spec fn real_literal(r: RealView) -> Seq<char> {
    match r {
        RealView::Finite(t) => t,
        RealView::NotFinite => "NULL"@,
    }
}

/// The SQL literal that stands for a typed value.
pub open spec fn sql_literal(v: SqlView) -> Seq<char> {
    match v {
        SqlView::Null => "NULL"@,
        SqlView::Bool(b) => if b {
            "1"@
        } else {
            "0"@
        },
        SqlView::TinyInt(n) => decimal(n as nat),
        SqlView::SmallInt(n) => signed_decimal(n as int),
        SqlView::Int(n) => signed_decimal(n as int),
        SqlView::BigInt(n) => signed_decimal(n as int),
        SqlView::Float(r) => real_literal(r),
        SqlView::Double(r) => real_literal(r),
        SqlView::String(s) => national_literal(s),
        SqlView::Binary(b) => binary_literal(b),
        SqlView::Uuid(t) => quoted(t),
        SqlView::Date(t) => quoted(t),
        SqlView::Time(t) => quoted(t),
        SqlView::DateTime(t) => quoted(t),
        SqlView::DateTimeOffset { display, rfc3339 } => quoted(display),
        SqlView::Xml(_) => "NULL"@,
        SqlView::Other(_) => "NULL"@,
    }
}

/// Appends `text` between single quotes.
pub fn push_quoted(out: &mut String, text: &str)
    ensures
        final(out)@ == old(out)@ + quoted(text@),
{
    push_char(out, '\'');
    push_text(out, text);
    push_char(out, '\'');
    assert(out@ == old(out)@ + quoted(text@));
}

/// Appends the national-character string literal for `text`.
pub fn push_national_literal(out: &mut String, text: &str)
    ensures
        final(out)@ == old(out)@ + national_literal(text@),
{
    push_text(out, "N'");
    push_text_doubling(out, text, '\'');
    push_char(out, '\'');
    assert(out@ == old(out)@ + national_literal(text@));
}

/// Appends the binary literal for `bytes`.
pub fn push_binary_literal(out: &mut String, bytes: &Vec<u8>)
    ensures
        final(out)@ == old(out)@ + binary_literal(bytes@),
{
    push_text(out, "0x");
    push_hex_upper(out, bytes);
    assert(out@ == old(out)@ + binary_literal(bytes@));
}

fn push_real_literal(out: &mut String, r: &Real)
    ensures
        final(out)@ == old(out)@ + real_literal(r@),
{
    match r {
        Real::Finite(t) => push_text(out, t.as_str()),
        Real::NotFinite => push_text(out, "NULL"),
    }
}

/// Renders a typed value as a SQL literal, for statements that cannot bind
/// parameters. Null and values without a literal form become `NULL`, booleans
/// `1` or `0`, numbers their decimal text, strings a national-character
/// literal, binary data a hexadecimal literal, identifiers and temporal values
/// their text between quotes.
pub fn sql_value_to_literal(val: &SqlValue) -> (s: String)
    ensures
        s@ == sql_literal(val@),
{
    let mut s = String::new();
    match val {
        SqlValue::Null => push_text(&mut s, "NULL"),
        SqlValue::Bool(b) => if *b {
            push_text(&mut s, "1")
        } else {
            push_text(&mut s, "0")
        },
        SqlValue::TinyInt(n) => push_decimal(&mut s, *n as u128),
        SqlValue::SmallInt(n) => push_signed_decimal(&mut s, *n as i64),
        SqlValue::Int(n) => push_signed_decimal(&mut s, *n as i64),
        SqlValue::BigInt(n) => push_signed_decimal(&mut s, *n),
        SqlValue::Float(r) => push_real_literal(&mut s, r),
        SqlValue::Double(r) => push_real_literal(&mut s, r),
        SqlValue::String(t) => push_national_literal(&mut s, t.as_str()),
        SqlValue::Binary(b) => push_binary_literal(&mut s, b),
        SqlValue::Uuid(t) => push_quoted(&mut s, t.as_str()),
        SqlValue::Date(t) => push_quoted(&mut s, t.as_str()),
        SqlValue::Time(t) => push_quoted(&mut s, t.as_str()),
        SqlValue::DateTime(t) => push_quoted(&mut s, t.as_str()),
        SqlValue::DateTimeOffset(d) => push_quoted(&mut s, d.display.as_str()),
        SqlValue::Xml(_) => push_text(&mut s, "NULL"),
        SqlValue::Other(_) => push_text(&mut s, "NULL"),
    }
    assert(s@ == Seq::<char>::empty() + sql_literal(val@));
    s
}

/// Whether a host number holds `n` without loss.
pub open spec fn is_safe_integer(n: int) -> bool {
    -SAFE_INTEGER_LIMIT <= n <= SAFE_INTEGER_LIMIT
}

/// The host value that a real number decodes to.
pub open spec fn decoded_real(r: RealView) -> JsonView {
    match r {
        RealView::Finite(t) => JsonView::Float(t),
        RealView::NotFinite => JsonView::Null,
    }
}

/// The host value that a typed value decodes to.
pub open spec fn decoded(v: SqlView) -> JsonView {
    match v {
        SqlView::Null => JsonView::Null,
        SqlView::Bool(b) => JsonView::Bool(b),
        SqlView::TinyInt(n) => JsonView::Int(n as i64),
        SqlView::SmallInt(n) => JsonView::Int(n as i64),
        SqlView::Int(n) => JsonView::Int(n as i64),
        SqlView::BigInt(n) => if is_safe_integer(n as int) {
            JsonView::Int(n)
        } else {
            JsonView::String(signed_decimal(n as int))
        },
        SqlView::Float(r) => decoded_real(r),
        SqlView::Double(r) => decoded_real(r),
        SqlView::String(s) => JsonView::String(s),
        SqlView::Binary(b) => JsonView::String(crate::formats::base64_text(b)),
        SqlView::Uuid(t) => JsonView::String(t),
        SqlView::Date(t) => JsonView::String(t),
        SqlView::Time(t) => JsonView::String(t),
        SqlView::DateTime(t) => JsonView::String(t),
        SqlView::DateTimeOffset { display, rfc3339 } => JsonView::String(rfc3339),
        SqlView::Xml(s) => JsonView::String(s),
        SqlView::Other(s) => JsonView::String(s),
    }
}

fn decode_real(r: &Real) -> (j: JsonValue)
    ensures
        j@ == decoded_real(r@),
{
    match r {
        Real::Finite(t) => JsonValue::Float(t.clone()),
        Real::NotFinite => JsonValue::Null,
    }
}

/// Decodes a typed value into a host value. Integers and booleans map
/// directly; a 64-bit integer beyond the safe magnitude becomes its decimal
/// text; binary data becomes base64 text; identifiers and temporal values
/// become their text, one with an offset in its RFC 3339 form.
pub fn sql_value_to_json(val: &SqlValue) -> (j: JsonValue)
    ensures
        j@ == decoded(val@),
{
    match val {
        SqlValue::Null => JsonValue::Null,
        SqlValue::Bool(b) => JsonValue::Bool(*b),
        SqlValue::TinyInt(n) => JsonValue::Int(*n as i64),
        SqlValue::SmallInt(n) => JsonValue::Int(*n as i64),
        SqlValue::Int(n) => JsonValue::Int(*n as i64),
        SqlValue::BigInt(n) => {
            if -SAFE_INTEGER_LIMIT <= *n && *n <= SAFE_INTEGER_LIMIT {
                JsonValue::Int(*n)
            } else {
                let mut s = String::new();
                push_signed_decimal(&mut s, *n);
                assert(s@ == signed_decimal(*n as int));
                JsonValue::String(s)
            }
        },
        SqlValue::Float(r) => decode_real(r),
        SqlValue::Double(r) => decode_real(r),
        SqlValue::String(s) => JsonValue::String(s.clone()),
        SqlValue::Binary(b) => JsonValue::String(crate::formats::base64_encode(b)),
        SqlValue::Uuid(t) => JsonValue::String(t.clone()),
        SqlValue::Date(t) => JsonValue::String(t.clone()),
        SqlValue::Time(t) => JsonValue::String(t.clone()),
        SqlValue::DateTime(t) => JsonValue::String(t.clone()),
        SqlValue::DateTimeOffset(d) => JsonValue::String(d.rfc3339.clone()),
        SqlValue::Xml(s) => JsonValue::String(s.clone()),
        SqlValue::Other(s) => JsonValue::String(s.clone()),
    }
}

/// One column of a result row: its name, and its value where the row holds one.
#[derive(Debug)]
pub struct Column {
    pub name: String,
    pub value: Option<SqlValue>,
}

/// A result row: its columns in order.
#[derive(Debug)]
pub struct Row {
    pub columns: Vec<Column>,
}

/// The host value for a column: null where the row holds no value.
pub open spec fn decoded_column(c: Column) -> JsonView {
    match c.value {
        Some(v) => decoded(v@),
        None => JsonView::Null,
    }
}

/// The object that a row decodes to: each column name mapped to its decoded
/// value, a later column replacing an earlier one of the same name.
pub open spec fn row_object(columns: Seq<Column>) -> Map<Seq<char>, JsonView>
    decreases columns.len(),
{
    if columns.len() == 0 {
        Map::empty()
    } else {
        row_object(columns.drop_last()).insert(columns.last().name@, decoded_column(columns.last()))
    }
}

/// Decodes a row into an object keyed by column name.
pub fn row_to_json(row: &Row) -> (obj: JsonObject)
    ensures
        obj@ == row_object(row.columns@),
{
    let mut obj = JsonObject::new();
    let mut i: usize = 0;
    while i < row.columns.len()
        invariant
            i <= row.columns.len(),
            obj@ == row_object(row.columns@.take(i as int)),
        decreases row.columns.len() - i,
    {
        let col = &row.columns[i];
        let value = match &col.value {
            Some(v) => sql_value_to_json(v),
            None => JsonValue::Null,
        };
        proof {
            let next = row.columns@.take(i + 1);
            assert(next.drop_last() == row.columns@.take(i as int));
            assert(next.last() == *col);
        }
        obj.insert(col.name.clone(), value);
        i += 1;
    }
    assert(row.columns@.take(row.columns@.len() as int) == row.columns@);
    obj
}

/// Decodes the rows of a result set, in order.
pub fn rows_to_json(rows: &Vec<Row>) -> (objects: Vec<JsonObject>)
    ensures
        objects.len() == rows.len(),
        forall|i: int| 0 <= i < rows.len() ==> (#[trigger] objects[i])@ == row_object(rows[i].columns@),
{
    let mut objects: Vec<JsonObject> = Vec::new();
    let mut i: usize = 0;
    while i < rows.len()
        invariant
            i <= rows.len(),
            objects.len() == i,
            forall|k: int| 0 <= k < i ==> (#[trigger] objects[k])@ == row_object(rows[k].columns@),
        decreases rows.len() - i,
    {
        objects.push(row_to_json(&rows[i]));
        i += 1;
    }
    objects
}

} // verus!
