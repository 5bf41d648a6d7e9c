//! A cursor over rows that were fetched in full: it hands them out one at a
//! time, in order, and once it has run out it stays run out.

use std::collections::VecDeque;
use vstd::prelude::*;
use crate::codec::{row_object, row_to_json, Row};
use crate::value::JsonObject;

verus! {

/// A single-pass cursor over fetched rows.
#[derive(Debug)]
pub struct RowCursor {
    rows: VecDeque<Row>,
    done: bool,
}

/// Mathematical model of [`RowCursor`]: the rows not yet handed out, and
/// whether an advance has found none.
pub struct CursorView {
    pub rows: Seq<Row>,
    pub done: bool,
}

impl CursorView {
    /// The cursor over `rows` before any advance.
    pub open spec fn start(rows: Seq<Row>) -> CursorView {
        CursorView { rows, done: false }
    }

    /// The cursor after one advance, and the row that the advance hands out.
    /// A cursor that has run out does not change.
    pub open spec fn advance(self) -> (CursorView, Option<Row>) {
        if self.done {
            (self, None)
        } else if self.rows.len() > 0 {
            (CursorView { rows: self.rows.drop_first(), done: false }, Some(self.rows[0]))
        } else {
            (CursorView { rows: self.rows, done: true }, None)
        }
    }

    /// The cursor after `n` advances.
    pub open spec fn advanced(self, n: nat) -> CursorView
        decreases n,
    {
        if n == 0 {
            self
        } else {
            self.advance().0.advanced((n - 1) as nat)
        }
    }
}

/// A cursor over `rows` hands out each row once, in order, and nothing after
/// the last one, however often it is advanced: the advance numbered `k`,
/// counted from zero, hands out row `k` where there is one and nothing
/// otherwise.
pub proof fn lemma_cursor_hands_out_each_row_once(rows: Seq<Row>, k: nat)
    ensures
        CursorView::start(rows).advanced(k).advance().1 == if k < rows.len() {
            Some(rows[k as int])
        } else {
            None::<Row>
        },
        CursorView::start(rows).advanced(k).rows == if k <= rows.len() {
            rows.skip(k as int)
        } else {
            Seq::<Row>::empty()
        },
        CursorView::start(rows).advanced(k).done == (k > rows.len()),
    decreases rows.len(),
{
    let c = CursorView::start(rows);
    if k == 0 {
        assert(rows.skip(0) =~= rows);
    } else if rows.len() == 0 {
        lemma_exhausted_stays(c.advance().0, (k - 1) as nat);
    } else {
        let rest = rows.drop_first();
        assert(c.advance().0 == CursorView::start(rest));
        lemma_cursor_hands_out_each_row_once(rest, (k - 1) as nat);
        if k <= rows.len() {
            assert(rest.skip(k - 1) =~= rows.skip(k as int));
        }
    }
}

/// A cursor that has run out stays as it is.
pub proof fn lemma_exhausted_stays(c: CursorView, n: nat)
    requires
        c.done,
        c.rows.len() == 0,
    ensures
        c.advanced(n) == c,
    decreases n,
{
    if n > 0 {
        lemma_exhausted_stays(c, (n - 1) as nat);
    }
}

impl View for RowCursor {
    type V = CursorView;

    closed spec fn view(&self) -> CursorView {
        CursorView { rows: self.rows@, done: self.done }
    }
}

impl RowCursor {
    /// A cursor over `rows`, before any advance.
    pub fn new(rows: Vec<Row>) -> (c: RowCursor)
        ensures
            c@ == CursorView::start(rows@),
    {
        let mut rows = rows;
        let ghost all = rows@;
        let mut queue: VecDeque<Row> = VecDeque::new();
        while rows.len() > 0
            invariant
                rows@ + queue@ == all,
            decreases rows.len(),
        {
            match rows.pop() {
                Some(row) => {
                    queue.push_front(row);
                    assert(rows@ + queue@ =~= all);
                },
                None => {},
            }
        }
        assert(queue@ =~= all);
        RowCursor { rows: queue, done: false }
    }

    /// Hands out the next row, or nothing when no row is left. Once it has
    /// handed out nothing, it does so on every later call.
    pub fn next_row(&mut self) -> (r: Option<Row>)
        ensures
            final(self)@ == old(self)@.advance().0,
            r == old(self)@.advance().1,
    {
        if self.done {
            return None;
        }
        match self.rows.pop_front() {
            Some(row) => {
                assert(self.rows@ =~= old(self).rows@.drop_first());
                Some(row)
            },
            None => {
                self.done = true;
                None
            },
        }
    }

    /// Hands out the next row, decoded.
    pub fn next_json(&mut self) -> (r: Option<JsonObject>)
        ensures
            final(self)@ == old(self)@.advance().0,
            match r {
                Some(obj) => old(self)@.advance().1 matches Some(row) && obj@ == row_object(
                    row.columns@,
                ),
                None => old(self)@.advance().1 is None,
            },
    {
        match self.next_row() {
            Some(row) => Some(row_to_json(&row)),
            None => None,
        }
    }
}

} // verus!
