//! The two value domains that the codec converts between: the loosely typed
//! values of the host (JSON) and the typed values of the database.
//!
//! Neither domain holds a floating-point number as such. A real number is held
//! by its decimal text, which is how it crosses the boundary in both directions.

use vstd::prelude::*;

verus! {

/// A real number: its shortest decimal text, or the fact that it is not finite.
#[derive(Debug)]
pub enum Real {
    Finite(String),
    NotFinite,
}

/// Mathematical model of [`Real`].
pub enum RealView {
    Finite(Seq<char>),
    NotFinite,
}

impl View for Real {
    type V = RealView;

    open spec fn view(&self) -> RealView {
        match self {
            Real::Finite(t) => RealView::Finite(t@),
            Real::NotFinite => RealView::NotFinite,
        }
    }
}

/// A value as the host supplies or receives it. Scalars are held in full; an
/// array or an object is held by its canonical JSON text, which is all that
/// the codec reads of it.
#[derive(Debug)]
pub enum JsonValue {
    Null,
    Bool(bool),
    /// A number that fits a signed 64-bit integer.
    Int(i64),
    /// A non-negative integer, used for those above the signed range.
    UInt(u64),
    /// A number with a fractional part or an exponent, by its decimal text.
    Float(String),
    String(String),
    /// An array or an object, by its canonical JSON text.
    Structured(String),
}

/// Mathematical model of [`JsonValue`].
pub enum JsonView {
    Null,
    Bool(bool),
    Int(i64),
    UInt(u64),
    Float(Seq<char>),
    String(Seq<char>),
    Structured(Seq<char>),
}

impl View for JsonValue {
    type V = JsonView;

    open spec fn view(&self) -> JsonView {
        match self {
            JsonValue::Null => JsonView::Null,
            JsonValue::Bool(b) => JsonView::Bool(*b),
            JsonValue::Int(i) => JsonView::Int(*i),
            JsonValue::UInt(u) => JsonView::UInt(*u),
            JsonValue::Float(t) => JsonView::Float(t@),
            JsonValue::String(s) => JsonView::String(s@),
            JsonValue::Structured(t) => JsonView::Structured(t@),
        }
    }
}

impl JsonView {
    /// The value as a signed 64-bit integer, where it is an integer in that range.
    pub open spec fn as_i64(self) -> Option<i64> {
        match self {
            JsonView::Int(i) => Some(i),
            JsonView::UInt(u) => if u <= i64::MAX {
                Some(u as i64)
            } else {
                None
            },
            _ => None,
        }
    }
}

impl JsonValue {
    /// Whether this is the null value.
    pub fn is_null(&self) -> (r: bool)
        ensures
            r == (self@ == JsonView::Null),
    {
        match self {
            JsonValue::Null => true,
            _ => false,
        }
    }

    /// The value as a signed 64-bit integer, where it is an integer in that range.
    pub fn as_i64(&self) -> (r: Option<i64>)
        ensures
            r == self@.as_i64(),
    {
        match self {
            JsonValue::Int(i) => Some(*i),
            JsonValue::UInt(u) => if *u <= i64::MAX as u64 {
                Some(*u as i64)
            } else {
                None
            },
            _ => None,
        }
    }
}

/// A date and time with an offset from UTC, by its two text forms.
#[derive(Debug)]
pub struct OffsetDateTime {
    /// Date, time and offset separated by spaces.
    pub display: String,
    /// The RFC 3339 form.
    pub rfc3339: String,
}

/// A value of the database's typed domain. Identifiers and temporal values are
/// held by their canonical text.
#[derive(Debug)]
pub enum SqlValue {
    Null,
    Bool(bool),
    TinyInt(u8),
    SmallInt(i16),
    Int(i32),
    BigInt(i64),
    Float(Real),
    Double(Real),
    String(String),
    Binary(Vec<u8>),
    /// Hyphenated lower-case text of a UUID.
    Uuid(String),
    /// `YYYY-MM-DD`.
    Date(String),
    /// `HH:MM:SS` with an optional fraction.
    Time(String),
    /// Date and time separated by a space.
    DateTime(String),
    DateTimeOffset(OffsetDateTime),
    Xml(String),
    /// A value of a kind the codec does not know, by its debug text.
    Other(String),
}

/// Mathematical model of [`SqlValue`].
pub enum SqlView {
    Null,
    Bool(bool),
    TinyInt(u8),
    SmallInt(i16),
    Int(i32),
    BigInt(i64),
    Float(RealView),
    Double(RealView),
    String(Seq<char>),
    Binary(Seq<u8>),
    Uuid(Seq<char>),
    Date(Seq<char>),
    Time(Seq<char>),
    DateTime(Seq<char>),
    DateTimeOffset { display: Seq<char>, rfc3339: Seq<char> },
    Xml(Seq<char>),
    Other(Seq<char>),
}

impl View for SqlValue {
    type V = SqlView;

    open spec fn view(&self) -> SqlView {
        match self {
            SqlValue::Null => SqlView::Null,
            SqlValue::Bool(b) => SqlView::Bool(*b),
            SqlValue::TinyInt(n) => SqlView::TinyInt(*n),
            SqlValue::SmallInt(n) => SqlView::SmallInt(*n),
            SqlValue::Int(n) => SqlView::Int(*n),
            SqlValue::BigInt(n) => SqlView::BigInt(*n),
            SqlValue::Float(r) => SqlView::Float(r@),
            SqlValue::Double(r) => SqlView::Double(r@),
            SqlValue::String(s) => SqlView::String(s@),
            SqlValue::Binary(b) => SqlView::Binary(b@),
            SqlValue::Uuid(t) => SqlView::Uuid(t@),
            SqlValue::Date(t) => SqlView::Date(t@),
            SqlValue::Time(t) => SqlView::Time(t@),
            SqlValue::DateTime(t) => SqlView::DateTime(t@),
            SqlValue::DateTimeOffset(d) => SqlView::DateTimeOffset {
                display: d.display@,
                rfc3339: d.rfc3339@,
            },
            SqlValue::Xml(s) => SqlView::Xml(s@),
            SqlValue::Other(s) => SqlView::Other(s@),
        }
    }
}

impl JsonValue {
    /// A copy of the value.
    pub fn duplicate(&self) -> (r: JsonValue)
        ensures
            r@ == self@,
    {
        match self {
            JsonValue::Null => JsonValue::Null,
            JsonValue::Bool(b) => JsonValue::Bool(*b),
            JsonValue::Int(i) => JsonValue::Int(*i),
            JsonValue::UInt(u) => JsonValue::UInt(*u),
            JsonValue::Float(t) => JsonValue::Float(t.clone()),
            JsonValue::String(s) => JsonValue::String(s.clone()),
            JsonValue::Structured(t) => JsonValue::Structured(t.clone()),
        }
    }
}

/// The keys of a list of entries, in order.
pub open spec fn entry_keys(entries: Seq<(String, JsonValue)>) -> Seq<Seq<char>> {
    entries.map_values(|e: (String, JsonValue)| e.0@)
}

/// The map that a list of entries with distinct keys stands for.
pub open spec fn entries_map(entries: Seq<(String, JsonValue)>) -> Map<Seq<char>, JsonView> {
    Map::new(
        |k: Seq<char>| entry_keys(entries).contains(k),
        |k: Seq<char>| entries[entry_keys(entries).index_of(k)].1@,
    )
}

/// With distinct keys, each entry is found under its own key, and the map has
/// as many keys as there are entries.
pub proof fn lemma_entries_map(entries: Seq<(String, JsonValue)>)
    requires
        entry_keys(entries).no_duplicates(),
    ensures
        entries_map(entries).dom().finite(),
        entries_map(entries).dom().len() == entries.len(),
        entries_map(entries).dom() == entry_keys(entries).to_set(),
        forall|i: int|
            0 <= i < entries.len() ==> entries_map(entries).contains_key(#[trigger] entries[i].0@)
                && entries_map(entries)[entries[i].0@] == entries[i].1@,
{
    let keys = entry_keys(entries);
    assert(entries_map(entries).dom() =~= keys.to_set());
    keys.unique_seq_to_set();
    vstd::seq_lib::seq_to_set_is_finite(keys);
    assert forall|i: int| 0 <= i < entries.len() implies entries_map(entries).contains_key(
        #[trigger] entries[i].0@,
    ) && entries_map(entries)[entries[i].0@] == entries[i].1@ by {
        assert(keys[i] == entries[i].0@);
        let j = keys.index_of(entries[i].0@);
        assert(keys[j] == keys[i]);
        assert(j == i);
    }
}

/// Adding an entry under a key that is not present sets the key to its value.
pub proof fn lemma_entries_map_push(
    entries: Seq<(String, JsonValue)>,
    key: String,
    value: JsonValue,
)
    requires
        entry_keys(entries).no_duplicates(),
        !entry_keys(entries).contains(key@),
    ensures
        entry_keys(entries.push((key, value))).no_duplicates(),
        entries_map(entries.push((key, value))) == entries_map(entries).insert(key@, value@),
{
    let after = entries.push((key, value));
    let n = entries.len() as int;
    assert(entry_keys(after) =~= entry_keys(entries).push(key@));
    assert(entry_keys(after).no_duplicates()) by {
        assert forall|x: int, y: int| 0 <= x < y < after.len() implies entry_keys(after)[x]
            != entry_keys(after)[y] by {
            assert(entry_keys(after)[x] == entry_keys(entries)[x]);
            if y < n {
                assert(entry_keys(after)[y] == entry_keys(entries)[y]);
            }
        }
    }
    lemma_entries_map(entries);
    lemma_entries_map(after);
    let target = entries_map(entries).insert(key@, value@);
    assert forall|k: Seq<char>| entries_map(after).contains_key(k) <==> target.contains_key(k) by {
        if entries_map(after).contains_key(k) {
            let j = entry_keys(after).index_of(k);
            if j < n {
                assert(entry_keys(entries)[j] == k);
            }
        }
        if entries_map(entries).contains_key(k) {
            let j = entry_keys(entries).index_of(k);
            assert(entry_keys(after)[j] == k);
        }
        if k == key@ {
            assert(entry_keys(after)[n] == k);
        }
    }
    assert forall|k: Seq<char>| entries_map(after).contains_key(k) implies entries_map(after)[k]
        == target[k] by {
        let j = entry_keys(after).index_of(k);
        assert(entry_keys(after)[j] == k);
        assert(entries_map(after)[after[j].0@] == after[j].1@);
        if j < n {
            assert(after[j] == entries[j]);
            assert(entries_map(entries)[entries[j].0@] == entries[j].1@);
        }
    }
    assert(entries_map(after) =~= target);
}

/// Replacing the value of the entry at `i` sets its key to the new value.
pub proof fn lemma_entries_map_update(
    entries: Seq<(String, JsonValue)>,
    i: int,
    key: String,
    value: JsonValue,
)
    requires
        entry_keys(entries).no_duplicates(),
        0 <= i < entries.len(),
        entries[i].0@ == key@,
    ensures
        entry_keys(entries.update(i, (key, value))).no_duplicates(),
        entries_map(entries.update(i, (key, value))) == entries_map(entries).insert(key@, value@),
{
    let after = entries.update(i, (key, value));
    assert(entry_keys(after) =~= entry_keys(entries));
    lemma_entries_map(entries);
    lemma_entries_map(after);
    let target = entries_map(entries).insert(key@, value@);
    assert(entries_map(entries).contains_key(entries[i].0@));
    assert forall|k: Seq<char>| entries_map(after).contains_key(k) implies entries_map(after)[k]
        == target[k] by {
        let j = entry_keys(after).index_of(k);
        assert(entry_keys(after)[j] == k);
        assert(entries_map(after)[after[j].0@] == after[j].1@);
        if j != i {
            assert(after[j] == entries[j]);
            assert(entries_map(entries)[entries[j].0@] == entries[j].1@);
            assert(entry_keys(entries)[j] != entry_keys(entries)[i]);
        }
    }
    assert(entries_map(after) =~= target);
}

/// Adding the entry at `i` to the first `i` entries sets its key to its value.
pub proof fn lemma_entries_map_step(entries: Seq<(String, JsonValue)>, i: int)
    requires
        entry_keys(entries).no_duplicates(),
        0 <= i < entries.len(),
    ensures
        entry_keys(entries.take(i)).no_duplicates(),
        entries_map(entries.take(i + 1)) == entries_map(entries.take(i)).insert(
            entries[i].0@,
            entries[i].1@,
        ),
{
    let first = entries.take(i);
    let keys = entry_keys(entries);
    assert forall|x: int, y: int| 0 <= x < y < first.len() implies entry_keys(first)[x]
        != entry_keys(first)[y] by {
        assert(entry_keys(first)[x] == keys[x]);
        assert(entry_keys(first)[y] == keys[y]);
    }
    assert(!entry_keys(first).contains(entries[i].0@)) by {
        if entry_keys(first).contains(entries[i].0@) {
            let j = entry_keys(first).index_of(entries[i].0@);
            assert(entry_keys(first)[j] == keys[j]);
            assert(keys[j] != keys[i]);
        }
    }
    lemma_entries_map_push(first, entries[i].0, entries[i].1);
    assert(entries.take(i + 1) =~= first.push(entries[i]));
}

/// Position of the entry with key `key`, if there is one.
fn position_of(entries: &Vec<(String, JsonValue)>, key: &str) -> (r: Option<usize>)
    ensures
        match r {
            Some(i) => i < entries.len() && entries@[i as int].0@ == key@,
            None => !entry_keys(entries@).contains(key@),
        },
{
    let mut i: usize = 0;
    while i < entries.len()
        invariant
            i <= entries.len(),
            forall|j: int| 0 <= j < i ==> entries@[j].0@ != key@,
        decreases entries.len() - i,
    {
        if crate::text::str_eq(entries[i].0.as_str(), key) {
            return Some(i);
        }
        i += 1;
    }
    proof {
        let keys = entry_keys(entries@);
        if keys.contains(key@) {
            let j = keys.index_of(key@);
            assert(entries@[j].0@ == key@);
        }
    }
    None
}

/// A JSON object: a finite map from keys to values. Setting a key that is
/// present replaces its value.
#[derive(Debug)]
pub struct JsonObject {
    entries: Vec<(String, JsonValue)>,
}

impl View for JsonObject {
    type V = Map<Seq<char>, JsonView>;

    closed spec fn view(&self) -> Map<Seq<char>, JsonView> {
        entries_map(self.entries@)
    }
}

impl JsonObject {
    #[verifier::type_invariant]
    spec fn keys_are_distinct(self) -> bool {
        entry_keys(self.entries@).no_duplicates()
    }

    /// The object without keys.
    pub fn new() -> (r: JsonObject)
        ensures
            r@ == Map::<Seq<char>, JsonView>::empty(),
    {
        let r = JsonObject { entries: Vec::new() };
        assert(r@ =~= Map::<Seq<char>, JsonView>::empty());
        r
    }

    /// Number of keys.
    pub fn len(&self) -> (n: usize)
        ensures
            self@.dom().finite(),
            n == self@.dom().len(),
    {
        proof {
            use_type_invariant(self);
            lemma_entries_map(self.entries@);
        }
        self.entries.len()
    }

    /// The entries in the order in which their keys were first set: each key
    /// once, with its value.
    pub fn entries(&self) -> (r: &Vec<(String, JsonValue)>)
        ensures
            self@ == entries_map(r@),
            entry_keys(r@).no_duplicates(),
    {
        proof {
            use_type_invariant(self);
        }
        &self.entries
    }

    /// The value under `key`, if the key is present.
    pub fn get(&self, key: &str) -> (r: Option<&JsonValue>)
        ensures
            match r {
                Some(v) => self@.contains_key(key@) && self@[key@] == v@,
                None => !self@.contains_key(key@),
            },
    {
        proof {
            use_type_invariant(self);
            lemma_entries_map(self.entries@);
        }
        match position_of(&self.entries, key) {
            Some(i) => Some(&self.entries[i].1),
            None => None,
        }
    }

    /// Whether `key` is present.
    pub fn contains_key(&self, key: &str) -> (r: bool)
        ensures
            r == self@.contains_key(key@),
    {
        self.get(key).is_some()
    }

    /// Sets `key` to `value`, replacing the value of a key that is present.
    pub fn insert(&mut self, key: String, value: JsonValue)
        ensures
            final(self)@ == old(self)@.insert(key@, value@),
    {
        proof {
            use_type_invariant(&*self);
        }
        let ghost before = self.entries@;
        let mut entries: Vec<(String, JsonValue)> = Vec::new();
        core::mem::swap(&mut self.entries, &mut entries);
        match position_of(&entries, key.as_str()) {
            Some(i) => {
                proof {
                    lemma_entries_map_update(before, i as int, key, value);
                }
                entries.set(i, (key, value));
            },
            None => {
                proof {
                    lemma_entries_map_push(before, key, value);
                }
                entries.push((key, value));
            },
        }
        core::mem::swap(&mut self.entries, &mut entries);
    }
}

} // verus!
