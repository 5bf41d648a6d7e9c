//! Bulk insert by batches: a row set is cut into consecutive chunks, and each
//! chunk becomes one `INSERT` statement whose values are written as literals.

use vstd::prelude::*;
use vstd::slice::slice_subrange;
use crate::codec::{
    binary_literal, national_literal, push_binary_literal, push_national_literal, quoted,
    push_quoted,
};
use crate::error::{ErrorKind, MssqlError};
use crate::formats::{
    base64_bytes, base64_decode, base64_refusal, parse_uuid, uuid_refusal, uuid_text,
};
use crate::query::refused;
use crate::text::{
    chars_of, count_leading, decimal, double_char, leading_run, lemma_double_char_absent, push_char,
    push_decimal, push_doubling, push_signed_decimal, push_text, signed_decimal, str_eq,
    trailing_run, trailing_start, trim_end, trim_start,
};
use crate::value::{JsonValue, JsonView};

verus! {

/// Rows per statement where the request names no batch size.
pub const DEFAULT_BATCH_SIZE: usize = 1000;

/// One column of the target table.
#[derive(Debug)]
pub struct BulkColumn {
    pub name: String,
    /// The column's type, which decides how a text is written.
    pub col_type: String,
    pub nullable: bool,
}

/// A request to insert rows into a table.
#[derive(Debug)]
pub struct BulkInsertRequest {
    pub table: String,
    pub columns: Vec<BulkColumn>,
    pub rows: Vec<Vec<JsonValue>>,
    pub batch_size: Option<usize>,
}

/// An identifier between brackets: brackets around the name are dropped first,
/// and a closing bracket inside it is doubled.
pub open spec fn bracketed(name: Seq<char>) -> Seq<char> {
    seq!['['] + double_char(trim_end(trim_start(name, '['), ']'), ']') + seq![']']
}

/// A name without brackets is put between brackets as it stands, and putting
/// the result between brackets again changes nothing.
pub proof fn lemma_bracketed_once(name: Seq<char>)
    requires
        forall|k: int| 0 <= k < name.len() ==> name[k] != '[' && name[k] != ']',
    ensures
        bracketed(name) == seq!['['] + name + seq![']'],
        bracketed(bracketed(name)) == bracketed(name),
{
    let whole = seq!['['] + name + seq![']'];
    lemma_double_char_absent(name, ']');
    // The bare name has no bracket to drop at either end.
    assert(trim_start(name, '[') =~= name);
    assert(trim_end(name, ']') =~= name);
    assert(bracketed(name) == whole);
    // The bracketed name loses exactly its two brackets.
    let inner = whole.drop_first();
    assert(inner =~= name + seq![']']);
    assert(leading_run(inner, '[') == 0) by {
        if name.len() > 0 {
            assert(inner[0] == name[0]);
        }
    }
    assert(leading_run(whole, '[') == 1);
    assert(trim_start(whole, '[') =~= inner);
    assert(inner.drop_last() =~= name);
    assert(trailing_run(name, ']') == 0);
    assert(trailing_run(inner, ']') == 1);
    assert(trim_end(inner, ']') =~= name);
}

/// Appends an identifier between brackets.
pub fn push_bracketed(out: &mut String, name: &str)
    ensures
        final(out)@ == old(out)@ + bracketed(name@),
{
    let v = chars_of(name);
    let start = count_leading(&v, '[');
    let end = trailing_start(&v, start, ']');
    proof {
        vstd::seq_lib::lemma_seq_skip_nothing(v@, 0);
        assert(trim_start(name@, '[') == v@.skip(start as int));
        assert(trim_end(v@.skip(start as int), ']') =~= v@.subrange(start as int, end as int));
    }
    push_char(out, '[');
    push_doubling(out, &v, start, end, ']');
    push_char(out, ']');
    assert(out@ == old(out)@ + bracketed(name@));
}

/// Writes an identifier between brackets, so that it can stand in a statement
/// whatever characters it holds.
pub fn bracket_escape(name: &str) -> (s: String)
    ensures
        s@ == bracketed(name@),
{
    let mut s = String::new();
    push_bracketed(&mut s, name);
    assert(s@ == Seq::<char>::empty() + bracketed(name@));
    s
}

/// Whether texts of a column of this type are binary data in base64.
pub open spec fn is_binary_type(col_type: Seq<char>) -> bool {
    col_type == "varbinary"@ || col_type == "binary"@ || col_type == "image"@
}

/// The literal for a value in a column of type `col_type`, where the value
/// can be written. A text for an identifier column must denote a UUID and is
/// written as it stands between quotes; a text for a binary column must be
/// base64 and is written in hexadecimal; any other text, and the JSON text of
/// an array or an object, is a national-character literal.
pub open spec fn bulk_literal(value: JsonView, col_type: Seq<char>) -> Option<Seq<char>> {
    match value {
        JsonView::Null => Some("NULL"@),
        JsonView::Bool(b) => Some(
            if b {
                "1"@
            } else {
                "0"@
            },
        ),
        JsonView::Int(i) => Some(signed_decimal(i as int)),
        JsonView::UInt(u) => Some(decimal(u as nat)),
        JsonView::Float(t) => Some(t),
        JsonView::String(s) => if col_type == "uniqueidentifier"@ {
            if uuid_text(s) is Some {
                Some(quoted(s))
            } else {
                None
            }
        } else if is_binary_type(col_type) {
            match base64_bytes(s) {
                Some(b) => Some(binary_literal(b)),
                None => None,
            }
        } else {
            Some(national_literal(s))
        },
        JsonView::Structured(t) => Some(national_literal(t)),
    }
}

/// The message of the error that writing the text `s` for a column of type
/// `col_type` reports where it fails: which form was expected, then the
/// reader's reason.
pub open spec fn literal_error(s: Seq<char>, col_type: Seq<char>) -> Seq<char> {
    if col_type == "uniqueidentifier"@ {
        "Invalid UUID: "@ + uuid_refusal(s)
    } else {
        "Invalid base64: "@ + base64_refusal(s)
    }
}

/// Whether `e` is the error that writing `value` for a column of type
/// `col_type` reports where it fails: a query error with the message
/// [`literal_error`]. Only texts fail to be written.
pub open spec fn is_literal_error(e: MssqlError, value: JsonView, col_type: Seq<char>) -> bool {
    value matches JsonView::String(s) && e.is(ErrorKind::Query, literal_error(s, col_type))
}

/// Message for a statement of a bulk insert that the server refused.
pub open spec fn batch_failure(reason: Seq<char>) -> Seq<char> {
    "Bulk insert batch failed: "@ + reason
}

/// The error for a statement of a bulk insert that the server refused: a
/// query error that says so and gives the driver's reason.
pub fn batch_failed(reason: &str) -> (e: MssqlError)
    ensures
        e.is(ErrorKind::Query, batch_failure(reason@)),
{
    refused("Bulk insert batch failed: ", reason)
}

/// Appends the literal for a value in a column of type `col_type`.
pub fn push_value_literal(out: &mut String, value: &JsonValue, col_type: &str) -> (r: Result<
    (),
    MssqlError,
>)
    ensures
        match r {
            Ok(_) => bulk_literal(value@, col_type@) matches Some(t) && final(out)@ == old(out)@
                + t,
            Err(e) => bulk_literal(value@, col_type@) is None && is_literal_error(
                e,
                value@,
                col_type@,
            ),
        },
{
    match value {
        JsonValue::Null => push_text(out, "NULL"),
        JsonValue::Bool(b) => if *b {
            push_text(out, "1")
        } else {
            push_text(out, "0")
        },
        JsonValue::Int(i) => push_signed_decimal(out, *i),
        JsonValue::UInt(u) => push_decimal(out, *u as u128),
        JsonValue::Float(t) => push_text(out, t.as_str()),
        JsonValue::String(s) => {
            if str_eq(col_type, "uniqueidentifier") {
                match parse_uuid(s.as_str()) {
                    Ok(_) => push_quoted(out, s.as_str()),
                    Err(reason) => {
                        return Err(refused("Invalid UUID: ", reason.as_str()));
                    },
                }
            } else if str_eq(col_type, "varbinary") || str_eq(col_type, "binary") || str_eq(
                col_type,
                "image",
            ) {
                match base64_decode(s.as_str()) {
                    Ok(bytes) => push_binary_literal(out, &bytes),
                    Err(reason) => {
                        return Err(refused("Invalid base64: ", reason.as_str()));
                    },
                }
            } else {
                push_national_literal(out, s.as_str())
            }
        },
        JsonValue::Structured(t) => push_national_literal(out, t.as_str()),
    }
    Ok(())
}

/// Writes a value as the literal that stands for it in a column of type
/// `col_type`.
pub fn value_to_literal(value: &JsonValue, col_type: &str) -> (r: Result<String, MssqlError>)
    ensures
        match r {
            Ok(s) => bulk_literal(value@, col_type@) == Some(s@),
            Err(e) => bulk_literal(value@, col_type@) is None && is_literal_error(
                e,
                value@,
                col_type@,
            ),
        },
{
    let mut s = String::new();
    match push_value_literal(&mut s, value, col_type) {
        Ok(_) => {
            assert(s@ =~= bulk_literal(value@, col_type@).unwrap());
            Ok(s)
        },
        Err(e) => Err(e),
    }
}

/// The bracketed column names, separated by a comma and a space.
pub open spec fn column_list(names: Seq<Seq<char>>) -> Seq<char>
    decreases names.len(),
{
    if names.len() == 0 {
        Seq::empty()
    } else if names.len() == 1 {
        bracketed(names.last())
    } else {
        column_list(names.drop_last()) + ", "@ + bracketed(names.last())
    }
}

/// The texts of a list of string slices.
pub open spec fn slice_texts(names: Seq<&str>) -> Seq<Seq<char>> {
    Seq::new(names.len(), |i: int| names[i]@)
}

/// The names of a list of columns.
pub open spec fn column_names(columns: Seq<BulkColumn>) -> Seq<Seq<char>> {
    Seq::new(columns.len(), |i: int| columns[i].name@)
}

/// Message for a row that holds more values than there are columns.
pub open spec fn too_many_values(values: nat, columns: nat) -> Seq<char> {
    "Row has "@ + decimal(values) + " values but only "@ + decimal(columns) + " columns defined"@
}

/// The literals of the first `n` values of a row, separated by a comma and a
/// space; `None` where one of them cannot be written or has no column.
pub open spec fn value_list(row: Seq<JsonValue>, columns: Seq<BulkColumn>, n: int) -> Option<
    Seq<char>,
>
    decreases n,
{
    if n <= 0 {
        Some(Seq::empty())
    } else {
        match value_list(row, columns, n - 1) {
            None => None,
            Some(before) => if n - 1 >= columns.len() {
                None
            } else {
                match bulk_literal(row[n - 1]@, columns[n - 1].col_type@) {
                    None => None,
                    Some(lit) => Some(
                        if n == 1 {
                            lit
                        } else {
                            before + ", "@ + lit
                        },
                    ),
                }
            },
        }
    }
}

/// One row between parentheses.
pub open spec fn row_tuple(row: Seq<JsonValue>, columns: Seq<BulkColumn>) -> Option<Seq<char>> {
    match value_list(row, columns, row.len() as int) {
        Some(list) => Some(seq!['('] + list + seq![')']),
        None => None,
    }
}

/// The rows, each between parentheses, separated by a comma and a space.
pub open spec fn row_list(rows: Seq<Vec<JsonValue>>, columns: Seq<BulkColumn>) -> Option<Seq<char>>
    decreases rows.len(),
{
    if rows.len() == 0 {
        Some(Seq::empty())
    } else {
        match (row_list(rows.drop_last(), columns), row_tuple(rows.last()@, columns)) {
            (Some(before), Some(this)) => Some(
                if rows.len() == 1 {
                    this
                } else {
                    before + ", "@ + this
                },
            ),
            _ => None,
        }
    }
}

/// The `INSERT` statement for a batch of rows.
pub open spec fn insert_statement(
    table: Seq<char>,
    col_names: Seq<Seq<char>>,
    columns: Seq<BulkColumn>,
    rows: Seq<Vec<JsonValue>>,
) -> Option<Seq<char>> {
    match row_list(rows, columns) {
        Some(list) => Some(
            "INSERT INTO "@ + bracketed(table) + " ("@ + column_list(col_names) + ") VALUES "@
                + list,
        ),
        None => None,
    }
}

/// Whether the value at `c` is the first of the row that cannot be written.
pub open spec fn values_fail_at(row: Seq<JsonValue>, columns: Seq<BulkColumn>, c: int) -> bool {
    0 <= c < row.len() && value_list(row, columns, c) is Some && value_list(row, columns, c + 1)
        is None
}

/// Whether `e` is the error that writing `row` reports: that of its first
/// value that cannot be written, which for a value beyond the last column
/// gives both counts.
pub open spec fn is_row_error(e: MssqlError, row: Seq<JsonValue>, columns: Seq<BulkColumn>) -> bool {
    exists|c: int| #[trigger]
        values_fail_at(row, columns, c) && if c >= columns.len() {
            e.is(ErrorKind::Query, too_many_values(row.len(), columns.len()))
        } else {
            is_literal_error(e, row[c]@, columns[c].col_type@)
        }
}

/// Whether the row at `r` is the first that cannot be written.
pub open spec fn rows_fail_at(rows: Seq<Vec<JsonValue>>, columns: Seq<BulkColumn>, r: int) -> bool {
    0 <= r < rows.len() && row_list(rows.take(r), columns) is Some && row_tuple(rows[r]@, columns)
        is None
}

/// Whether `e` is the error that writing `rows` reports: that of the first row
/// that cannot be written.
pub open spec fn is_rows_error(
    e: MssqlError,
    rows: Seq<Vec<JsonValue>>,
    columns: Seq<BulkColumn>,
) -> bool {
    exists|r: int| #[trigger] rows_fail_at(rows, columns, r) && is_row_error(e, rows[r]@, columns)
}

/// Once a row cannot be written, neither can any longer list of rows.
pub proof fn lemma_row_list_fail(rows: Seq<Vec<JsonValue>>, columns: Seq<BulkColumn>, k: int)
    requires
        0 <= k < rows.len(),
        row_tuple(rows[k]@, columns) is None,
    ensures
        row_list(rows, columns) is None,
    decreases rows.len(),
{
    if k < rows.len() - 1 {
        lemma_row_list_fail(rows.drop_last(), columns, k);
    }
}

/// Once a value cannot be written, neither can any longer list of values.
pub proof fn lemma_value_list_fail(row: Seq<JsonValue>, columns: Seq<BulkColumn>, k: int, n: int)
    requires
        0 <= k <= n,
        value_list(row, columns, k) is None,
    ensures
        value_list(row, columns, n) is None,
    decreases n - k,
{
    if k < n {
        lemma_value_list_fail(row, columns, k, n - 1);
    }
}

fn push_column_list(out: &mut String, names: &[&str])
    ensures
        final(out)@ == old(out)@ + column_list(slice_texts(names@)),
{
    let mut i: usize = 0;
    assert(out@ == out@ + Seq::<char>::empty());
    while i < names.len()
        invariant
            i <= names.len(),
            out@ == old(out)@ + column_list(slice_texts(names@).take(i as int)),
        decreases names.len() - i,
    {
        let ghost before = column_list(slice_texts(names@).take(i as int));
        proof {
            let next = slice_texts(names@).take(i + 1);
            assert(next.drop_last() == slice_texts(names@).take(i as int));
            assert(next.last() == names@[i as int]@);
        }
        if i > 0 {
            push_text(out, ", ");
        }
        push_bracketed(out, names[i]);
        proof {
            if i > 0 {
                assert(out@ == old(out)@ + (before + ", "@ + bracketed(names@[i as int]@)));
            } else {
                assert(before =~= Seq::<char>::empty());
                assert(out@ == old(out)@ + bracketed(names@[i as int]@));
            }
        }
        i += 1;
    }
    assert(slice_texts(names@).take(names.len() as int) == slice_texts(names@));
}

fn push_row_tuple(out: &mut String, row: &Vec<JsonValue>, columns: &[BulkColumn]) -> (r: Result<
    (),
    MssqlError,
>)
    ensures
        match r {
            Ok(_) => row_tuple(row@, columns@) matches Some(t) && final(out)@ == old(out)@ + t,
            Err(e) => row_tuple(row@, columns@) is None && is_row_error(e, row@, columns@),
        },
{
    push_char(out, '(');
    let ghost opened = out@;
    let mut c: usize = 0;
    assert(out@ == opened + Seq::<char>::empty());
    while c < row.len()
        invariant
            c <= row.len(),
            opened == old(out)@.push('('),
            value_list(row@, columns@, c as int) matches Some(t) && out@ == opened + t,
        decreases row.len() - c,
    {
        let ghost before = value_list(row@, columns@, c as int).unwrap();
        if c > 0 {
            push_text(out, ", ");
        }
        if c >= columns.len() {
            let mut msg = String::from_str("Row has ");
            push_decimal(&mut msg, row.len() as u128);
            push_text(&mut msg, " values but only ");
            push_decimal(&mut msg, columns.len() as u128);
            push_text(&mut msg, " columns defined");
            proof {
                assert(values_fail_at(row@, columns@, c as int));
                lemma_value_list_fail(row@, columns@, c + 1, row.len() as int);
            }
            return Err(MssqlError::Query(msg));
        }
        match push_value_literal(out, &row[c], columns[c].col_type.as_str()) {
            Ok(_) => {},
            Err(e) => {
                proof {
                    assert(values_fail_at(row@, columns@, c as int));
                    lemma_value_list_fail(row@, columns@, c + 1, row.len() as int);
                }
                return Err(e);
            },
        }
        proof {
            let lit = bulk_literal(row@[c as int]@, columns@[c as int].col_type@).unwrap();
            if c > 0 {
                assert(out@ == opened + (before + ", "@ + lit));
            } else {
                assert(before =~= Seq::<char>::empty());
                assert(out@ == opened + lit);
            }
        }
        c += 1;
    }
    push_char(out, ')');
    proof {
        let list = value_list(row@, columns@, row.len() as int).unwrap();
        assert(out@ =~= old(out)@ + (seq!['('] + list + seq![')']));
    }
    Ok(())
}

/// Builds the statement that inserts a batch of rows: the bracketed table
/// name, the bracketed column names, and one tuple of literals per row.
///
/// Fails with a query error for the first row, and in it the first value,
/// that cannot be written: a value beyond the last column reports both
/// counts.
pub fn build_insert_batch(
    table: &str,
    col_names: &[&str],
    columns: &[BulkColumn],
    rows: &[Vec<JsonValue>],
) -> (r: Result<String, MssqlError>)
    ensures
        match r {
            Ok(s) => insert_statement(table@, slice_texts(col_names@), columns@, rows@) == Some(
                s@,
            ),
            Err(e) => insert_statement(table@, slice_texts(col_names@), columns@, rows@) is None
                && is_rows_error(e, rows@, columns@),
        },
{
    let mut sql = String::new();
    push_text(&mut sql, "INSERT INTO ");
    push_bracketed(&mut sql, table);
    push_text(&mut sql, " (");
    push_column_list(&mut sql, col_names);
    push_text(&mut sql, ") VALUES ");
    let ghost head = "INSERT INTO "@ + bracketed(table@) + " ("@ + column_list(
        slice_texts(col_names@),
    ) + ") VALUES "@;
    assert(sql@ =~= head);
    let mut i: usize = 0;
    assert(sql@ == head + Seq::<char>::empty());
    while i < rows.len()
        invariant
            i <= rows.len(),
            row_list(rows@.take(i as int), columns@) matches Some(t) && sql@ == head + t,
        decreases rows.len() - i,
    {
        let ghost before = row_list(rows@.take(i as int), columns@).unwrap();
        proof {
            let next = rows@.take(i + 1);
            assert(next.drop_last() == rows@.take(i as int));
            assert(next.last() == rows@[i as int]);
        }
        if i > 0 {
            push_text(&mut sql, ", ");
        }
        match push_row_tuple(&mut sql, &rows[i], columns) {
            Ok(_) => {},
            Err(e) => {
                proof {
                    lemma_row_list_fail(rows@, columns@, i as int);
                    assert(rows_fail_at(rows@, columns@, i as int));
                }
                return Err(e);
            },
        }
        proof {
            let this = row_tuple(rows@[i as int]@, columns@).unwrap();
            if i > 0 {
                assert(sql@ == head + (before + ", "@ + this));
            } else {
                assert(before =~= Seq::<char>::empty());
                assert(sql@ == head + this);
            }
        }
        i += 1;
    }
    assert(rows@.take(rows.len() as int) == rows@);
    Ok(sql)
}

/// The number of rows per statement: the requested one, a thousand where none
/// is requested, and never less than one.
pub open spec fn effective_batch_size(requested: Option<usize>) -> usize {
    match requested {
        Some(n) => if n < 1 {
            1
        } else {
            n
        },
        None => DEFAULT_BATCH_SIZE,
    }
}

/// The number of rows per statement for a request.
pub fn batch_size_of(req: &BulkInsertRequest) -> (n: usize)
    ensures
        n == effective_batch_size(req.batch_size),
        n >= 1,
{
    match req.batch_size {
        Some(n) => if n < 1 {
            1
        } else {
            n
        },
        None => DEFAULT_BATCH_SIZE,
    }
}

/// How far a bulk insert has come: the first row not yet sent, and the rows
/// that the server reported as affected so far.
#[derive(Clone, Copy, Debug)]
pub struct BulkProgress {
    pub next_row: usize,
    pub total: u64,
}

/// What a bulk insert does next.
#[derive(Debug)]
pub enum BulkStep {
    /// Send this statement, then report what it affected.
    Send(String),
    /// All rows were sent; this many were affected.
    Done(u64),
}

/// Where the chunk that starts at row `start` ends.
pub open spec fn chunk_end(rows: int, start: int, size: int) -> int {
    if start + size <= rows {
        start + size
    } else {
        rows
    }
}

/// A chunk that starts before the last row holds at least one row and at most
/// as many as the batch size, and ends within the rows.
pub proof fn lemma_chunk_bounds(rows: int, start: int, size: int)
    requires
        0 <= start < rows,
        size >= 1,
    ensures
        start < chunk_end(rows, start, size) <= rows,
        chunk_end(rows, start, size) - start <= size,
        chunk_end(rows, start, size) < rows ==> chunk_end(rows, start, size) - start == size,
{
}

/// The rows of the chunk that starts at row `start`.
pub open spec fn chunk_at(req: BulkInsertRequest, start: int) -> Seq<Vec<JsonValue>> {
    req.rows@.subrange(
        start,
        chunk_end(req.rows.len() as int, start, effective_batch_size(req.batch_size) as int),
    )
}

/// The progress of a bulk insert before anything was sent.
pub fn start_bulk() -> (p: BulkProgress)
    ensures
        p.next_row == 0,
        p.total == 0,
{
    BulkProgress { next_row: 0, total: 0 }
}

/// Decides what a bulk insert does next. When rows are left, the statement
/// for the next chunk is built; a chunk that cannot be written is an error,
/// and what was sent before it stays sent. When no rows are left, the insert
/// is done with the total so far: for an empty row set that is zero, and
/// nothing is sent.
pub fn next_bulk_step(req: &BulkInsertRequest, progress: &BulkProgress) -> (r: Result<
    BulkStep,
    MssqlError,
>)
    ensures
        progress.next_row >= req.rows.len() ==> (r matches Ok(BulkStep::Done(n)) && n
            == progress.total),
        progress.next_row < req.rows.len() ==> match r {
            Ok(BulkStep::Send(s)) => insert_statement(
                req.table@,
                column_names(req.columns@),
                req.columns@,
                chunk_at(*req, progress.next_row as int),
            ) == Some(s@),
            Ok(BulkStep::Done(_)) => false,
            Err(e) => insert_statement(
                req.table@,
                column_names(req.columns@),
                req.columns@,
                chunk_at(*req, progress.next_row as int),
            ) is None && is_rows_error(e, chunk_at(*req, progress.next_row as int), req.columns@),
        },
{
    if progress.next_row >= req.rows.len() {
        return Ok(BulkStep::Done(progress.total));
    }
    let size = batch_size_of(req);
    let start = progress.next_row;
    let end = if size <= req.rows.len() - start {
        start + size
    } else {
        req.rows.len()
    };
    let mut names: Vec<&str> = Vec::new();
    let mut i: usize = 0;
    while i < req.columns.len()
        invariant
            i <= req.columns.len(),
            names.len() == i,
            forall|j: int| 0 <= j < i ==> names@[j]@ == req.columns@[j].name@,
        decreases req.columns.len() - i,
    {
        names.push(req.columns[i].name.as_str());
        i += 1;
    }
    assert(slice_texts(names@) =~= column_names(req.columns@));
    let chunk = slice_subrange(req.rows.as_slice(), start, end);
    match build_insert_batch(req.table.as_str(), names.as_slice(), req.columns.as_slice(), chunk) {
        Ok(sql) => Ok(BulkStep::Send(sql)),
        Err(e) => Err(e),
    }
}

/// Records that the statement for the current chunk was sent and affected
/// `affected` rows: the next chunk starts where this one ended, and the total
/// grows by `affected`. Where no row was left to send, only the total grows.
pub fn record_batch(req: &BulkInsertRequest, progress: &mut BulkProgress, affected: u64)
    requires
        old(progress).total + affected <= u64::MAX,
    ensures
        final(progress).next_row == if old(progress).next_row < req.rows.len() {
            chunk_end(
                req.rows.len() as int,
                old(progress).next_row as int,
                effective_batch_size(req.batch_size) as int,
            )
        } else {
            old(progress).next_row as int
        },
        old(progress).next_row < req.rows.len() ==> final(progress).next_row > old(
            progress,
        ).next_row,
        final(progress).total == old(progress).total + affected,
{
    let size = batch_size_of(req);
    let start = progress.next_row;
    if start < req.rows.len() {
        progress.next_row = if size <= req.rows.len() - start {
            start + size
        } else {
            req.rows.len()
        };
    }
    progress.total = progress.total + affected;
}

} // verus!
