//! Sorting of the rows that a batch returns: the row of the row-count probe
//! and the row of the output parameters are taken out, the other rows form the
//! visible result sets.

use vstd::prelude::*;
use crate::rewrite::texts;
use crate::value::{entries_map, entry_keys, lemma_entries_map_step, JsonObject, JsonView};

verus! {

/// A decoded row, as a map from column name to value.
pub type RowView = Map<Seq<char>, JsonView>;

/// What a row of a batch is.
pub enum RowClass {
    /// The answer of the row-count probe, with the count.
    RowCount(i64),
    /// The row that carries the output parameters.
    Outputs,
    /// A row of a visible result set.
    Data,
}

/// Whether the row has a column for each of `names`.
pub open spec fn has_all(row: RowView, names: Seq<Seq<char>>) -> bool {
    forall|k: int| 0 <= k < names.len() ==> row.contains_key(#[trigger] names[k])
}

/// What a row is, for a batch that declared the variables `names`. A row with
/// an integer in the probe's column answers the probe. A row whose columns are
/// exactly the declared names, as many columns as names, carries the output
/// parameters. Any other row is data.
pub open spec fn classify(row: RowView, names: Seq<Seq<char>>) -> RowClass {
    if row.contains_key("__rc"@) && row["__rc"@].as_i64() is Some {
        RowClass::RowCount(row["__rc"@].as_i64().unwrap())
    } else if names.len() > 0 && has_all(row, names) && row.dom().len() == names.len() {
        RowClass::Outputs
    } else {
        RowClass::Data
    }
}

/// The rows of a list of decoded rows.
pub open spec fn rows_view(rows: Seq<JsonObject>) -> Seq<RowView> {
    Seq::new(rows.len(), |i: int| rows[i]@)
}

/// The result sets of a list of result sets.
pub open spec fn sets_view(sets: Seq<Vec<JsonObject>>) -> Seq<Seq<RowView>> {
    Seq::new(sets.len(), |i: int| rows_view(sets[i]@))
}

/// What a batch returned: the affected-row count, the visible result sets,
/// and the output parameters.
#[derive(Debug)]
pub struct ExecOutcome {
    pub rows_affected: i64,
    pub result_sets: Vec<Vec<JsonObject>>,
    pub output_params: JsonObject,
}

/// The state of the sorting while the rows of a batch arrive.
#[derive(Debug)]
pub struct ResultCollector {
    pub output_names: Vec<String>,
    pub result_sets: Vec<Vec<JsonObject>>,
    pub current_set: Vec<JsonObject>,
    pub rows_affected: i64,
    pub output_params: JsonObject,
}

/// Mathematical model of [`ResultCollector`].
pub struct CollectorView {
    pub output_names: Seq<Seq<char>>,
    pub result_sets: Seq<Seq<RowView>>,
    pub current_set: Seq<RowView>,
    pub rows_affected: i64,
    pub output_params: RowView,
}

impl View for ResultCollector {
    type V = CollectorView;

    open spec fn view(&self) -> CollectorView {
        CollectorView {
            output_names: texts(self.output_names@),
            result_sets: sets_view(self.result_sets@),
            current_set: rows_view(self.current_set@),
            rows_affected: self.rows_affected,
            output_params: self.output_params@,
        }
    }
}

impl CollectorView {
    /// The state after a row arrived.
    pub open spec fn after_row(self, row: RowView) -> CollectorView {
        match classify(row, self.output_names) {
            RowClass::RowCount(n) => CollectorView { rows_affected: n, ..self },
            RowClass::Outputs => CollectorView {
                output_params: self.output_params.union_prefer_right(row),
                ..self
            },
            RowClass::Data => CollectorView { current_set: self.current_set.push(row), ..self },
        }
    }

    /// The state after a result set ended: the set is kept if it has a row.
    pub open spec fn after_set(self) -> CollectorView {
        if self.current_set.len() > 0 {
            CollectorView {
                result_sets: self.result_sets.push(self.current_set),
                current_set: Seq::empty(),
                ..self
            }
        } else {
            self
        }
    }
}

/// Copies every entry of `row` into `target`, replacing what `target` holds
/// under the same key.
pub fn merge_into(target: &mut JsonObject, row: &JsonObject)
    ensures
        final(target)@ == old(target)@.union_prefer_right(row@),
{
    let entries = row.entries();
    let mut i: usize = 0;
    assert(entries_map(entries@.take(0)) =~= Map::<Seq<char>, JsonView>::empty());
    assert(target@ =~= old(target)@.union_prefer_right(entries_map(entries@.take(0))));
    while i < entries.len()
        invariant
            i <= entries.len(),
            entry_keys(entries@).no_duplicates(),
            target@ == old(target)@.union_prefer_right(entries_map(entries@.take(i as int))),
        decreases entries.len() - i,
    {
        let key = entries[i].0.clone();
        let value = entries[i].1.duplicate();
        proof {
            lemma_entries_map_step(entries@, i as int);
        }
        target.insert(key, value);
        assert(target@ =~= old(target)@.union_prefer_right(entries_map(entries@.take(i + 1))));
        i += 1;
    }
    assert(entries@.take(entries.len() as int) == entries@);
}

/// Whether the row has a column for each of `names`.
pub fn has_all_columns(row: &JsonObject, names: &Vec<String>) -> (r: bool)
    ensures
        r == has_all(row@, texts(names@)),
{
    let mut k: usize = 0;
    while k < names.len()
        invariant
            k <= names.len(),
            forall|j: int| 0 <= j < k ==> row@.contains_key(#[trigger] texts(names@)[j]),
        decreases names.len() - k,
    {
        if !row.contains_key(names[k].as_str()) {
            assert(!row@.contains_key(texts(names@)[k as int]));
            return false;
        }
        k += 1;
    }
    true
}

impl ResultCollector {
    /// The state before any row arrived, for a batch that declared the
    /// variables `output_names`.
    pub fn new(output_names: Vec<String>) -> (c: ResultCollector)
        ensures
            c@ == (CollectorView {
                output_names: texts(output_names@),
                result_sets: Seq::empty(),
                current_set: Seq::empty(),
                rows_affected: 0,
                output_params: Map::empty(),
            }),
    {
        let c = ResultCollector {
            output_names,
            result_sets: Vec::new(),
            current_set: Vec::new(),
            rows_affected: 0,
            output_params: JsonObject::new(),
        };
        assert(sets_view(c.result_sets@) =~= Seq::empty());
        assert(rows_view(c.current_set@) =~= Seq::empty());
        c
    }

    /// Takes the next row of the current result set.
    pub fn accept_row(&mut self, row: JsonObject)
        ensures
            final(self)@ == old(self)@.after_row(row@),
    {
        let count = match row.get("__rc") {
            Some(rc) => rc.as_i64(),
            None => None,
        };
        match count {
            Some(n) => {
                self.rows_affected = n;
                return ;
            },
            None => {},
        }
        if self.output_names.len() > 0 {
            let columns = row.len();
            if has_all_columns(&row, &self.output_names) && columns == self.output_names.len() {
                merge_into(&mut self.output_params, &row);
                return ;
            }
        }
        self.current_set.push(row);
        assert(rows_view(self.current_set@) =~= rows_view(old(self).current_set@).push(row@));
    }

    /// Closes the current result set. A set without rows is dropped.
    pub fn end_result_set(&mut self)
        ensures
            final(self)@ == old(self)@.after_set(),
    {
        if self.current_set.len() > 0 {
            let mut set: Vec<JsonObject> = Vec::new();
            core::mem::swap(&mut self.current_set, &mut set);
            self.result_sets.push(set);
            assert(sets_view(self.result_sets@) =~= sets_view(old(self).result_sets@).push(
                rows_view(old(self).current_set@),
            ));
            assert(rows_view(self.current_set@) =~= Seq::empty());
        }
    }

    /// What the batch returned, once its last result set is closed. Rows of a
    /// set that was not closed are not part of it.
    pub fn finish(self) -> (r: ExecOutcome)
        ensures
            r.rows_affected == self@.rows_affected,
            sets_view(r.result_sets@) == self@.result_sets,
            r.output_params@ == self@.output_params,
    {
        ExecOutcome {
            rows_affected: self.rows_affected,
            result_sets: self.result_sets,
            output_params: self.output_params,
        }
    }
}

} // verus!
