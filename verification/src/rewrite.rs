//! Rewriting of named parameter references (`@name`) into positional ones
//! (`@P1`, `@P2`, ...), with the order in which the declared parameters are to
//! be supplied.
//!
//! The text is read once, left to right. A single-quoted literal is copied as
//! it stands, a doubled quote inside it being part of the literal. A system
//! variable (`@@name`) is copied as it stands. A reference that names no
//! declared parameter is copied as it stands.

use vstd::prelude::*;
use crate::command::SerializedParam;
use crate::text::{
    alphanumeric, chars_of, count_leading, decimal, is_alphanumeric, lowercase, push_char,
    push_chars, push_decimal, str_eq, to_lowercase, trim_start,
};

verus! {

/// Whether a character can stand in an identifier: a letter, a digit or an
/// underscore.
pub open spec fn is_ident_char(c: char) -> bool {
    alphanumeric(c) || c == '_'
}

/// Whether a character can stand in an identifier.
pub fn is_sql_ident_char(c: char) -> (r: bool)
    ensures
        r == is_ident_char(c),
{
    is_alphanumeric(c) || c == '_'
}

/// The form under which a parameter name is matched: without its leading
/// markers, in lower case.
pub open spec fn normalized_name(name: Seq<char>) -> Seq<char> {
    lowercase(trim_start(name, '@'))
}

/// End of the identifier that starts at `j`: the first position at or after
/// `j` that holds no identifier character.
pub open spec fn ident_end(chars: Seq<char>, j: int) -> int
    decreases chars.len() - j,
{
    if 0 <= j < chars.len() && is_ident_char(chars[j]) {
        ident_end(chars, j + 1)
    } else {
        j
    }
}

/// End of the literal whose body starts at `j`: the position after its closing
/// quote, or the end of the text where it is not closed. Two quotes in a row
/// do not close it.
pub open spec fn literal_end(chars: Seq<char>, j: int) -> int
    decreases chars.len() - j,
{
    if j < 0 || j >= chars.len() {
        j
    } else if chars[j] == '\'' {
        if j + 1 < chars.len() && chars[j + 1] == '\'' {
            literal_end(chars, j + 2)
        } else {
            j + 1
        }
    } else {
        literal_end(chars, j + 1)
    }
}

/// The parameter that a reference resolves to: the last declared one whose
/// normalized name is `key`.
pub open spec fn resolve(names: Seq<Seq<char>>, key: Seq<char>) -> Option<int>
    decreases names.len(),
{
    if names.len() == 0 {
        None
    } else if names.last() == key {
        Some(names.len() - 1)
    } else {
        resolve(names.drop_last(), key)
    }
}

/// The positional placeholder for the slot numbered `slot`, counted from one.
pub open spec fn placeholder(slot: nat) -> Seq<char> {
    seq!['@', 'P'] + decimal(slot)
}

/// What one step of the scan does at position `i`: the text it emits, the
/// parameter it binds if it rewrote a reference, and where the scan goes on.
pub struct Step {
    pub text: Seq<char>,
    pub index: Option<int>,
    pub next: int,
}

/// The step of the scan at position `i`, when `slots` references were
/// rewritten before it.
pub open spec fn scan_step(chars: Seq<char>, names: Seq<Seq<char>>, i: int, slots: nat) -> Step
    recommends
        0 <= i < chars.len(),
{
    let c = chars[i];
    if c == '\'' {
        let e = literal_end(chars, i + 1);
        Step { text: chars.subrange(i, e), index: None, next: e }
    } else if c == '@' && i + 1 < chars.len() && chars[i + 1] == '@' {
        let e = ident_end(chars, i + 2);
        Step { text: chars.subrange(i, e), index: None, next: e }
    } else {
        let e = ident_end(chars, i + 1);
        let found = resolve(names, lowercase(chars.subrange(i + 1, e)));
        if c == '@' && e > i + 1 && found is Some {
            Step { text: placeholder(slots + 1), index: found, next: e }
        } else {
            Step { text: seq![c], index: None, next: i + 1 }
        }
    }
}

/// Both ends lie within the text and after the start.
pub proof fn lemma_ident_end_bounds(chars: Seq<char>, j: int)
    requires
        0 <= j <= chars.len(),
    ensures
        j <= ident_end(chars, j) <= chars.len(),
        forall|k: int| j <= k < ident_end(chars, j) ==> is_ident_char(chars[k]),
        ident_end(chars, j) < chars.len() ==> !is_ident_char(chars[ident_end(chars, j)]),
    decreases chars.len() - j,
{
    if j < chars.len() && is_ident_char(chars[j]) {
        lemma_ident_end_bounds(chars, j + 1);
    }
}

/// The end of a literal lies within the text and not before its body.
pub proof fn lemma_literal_end_bounds(chars: Seq<char>, j: int)
    requires
        0 <= j <= chars.len(),
    ensures
        j <= literal_end(chars, j) <= chars.len(),
    decreases chars.len() - j,
{
    if j < chars.len() {
        if chars[j] == '\'' {
            if j + 1 < chars.len() && chars[j + 1] == '\'' {
                lemma_literal_end_bounds(chars, j + 2);
            }
        } else {
            lemma_literal_end_bounds(chars, j + 1);
        }
    }
}

/// A resolved reference names a declared parameter.
pub proof fn lemma_resolve_bounds(names: Seq<Seq<char>>, key: Seq<char>)
    ensures
        resolve(names, key) matches Some(idx) ==> 0 <= idx < names.len() && names[idx] == key,
        resolve(names, key) is None ==> forall|k: int| 0 <= k < names.len() ==> names[k] != key,
    decreases names.len(),
{
    if names.len() > 0 && names.last() != key {
        lemma_resolve_bounds(names.drop_last(), key);
        assert forall|k: int| 0 <= k < names.len() && resolve(names, key) is None implies names[k]
            != key by {
            if k < names.len() - 1 {
                assert(names.drop_last()[k] == names[k]);
            }
        }
    }
}

/// Every step moves the scan forward and stays within the text.
pub proof fn lemma_step_advances(chars: Seq<char>, names: Seq<Seq<char>>, i: int, slots: nat)
    requires
        0 <= i < chars.len(),
    ensures
        i < scan_step(chars, names, i, slots).next <= chars.len(),
        scan_step(chars, names, i, slots).index matches Some(idx) ==> 0 <= idx < names.len()
            && i + 2 <= scan_step(chars, names, i, slots).next,
{
    lemma_literal_end_bounds(chars, i + 1);
    lemma_ident_end_bounds(chars, i + 1);
    if i + 1 < chars.len() {
        lemma_ident_end_bounds(chars, i + 2);
    }
    let e = ident_end(chars, i + 1);
    lemma_resolve_bounds(names, lowercase(chars.subrange(i + 1, e)));
}

/// The rewritten text and the evaluation order for the part of the text from
/// position `i` on, when `slots` references were rewritten before it: what the
/// step at `i` emits, followed by the same for the rest.
///
/// Every step moves forward within the text (see [`lemma_step_advances`]); the
/// test on `step.next` is there to make plain that the definition ends.
pub open spec fn rewritten_from(chars: Seq<char>, names: Seq<Seq<char>>, i: int, slots: nat) -> (
    Seq<char>,
    Seq<usize>,
)
    decreases chars.len() - i,
{
    if i < 0 || i >= chars.len() {
        (Seq::empty(), Seq::empty())
    } else {
        let step = scan_step(chars, names, i, slots);
        if step.next <= i || step.next > chars.len() {
            (Seq::empty(), Seq::empty())
        } else {
            match step.index {
                Some(idx) => {
                    let rest = rewritten_from(chars, names, step.next, slots + 1);
                    (step.text + rest.0, seq![idx as usize] + rest.1)
                },
                None => {
                    let rest = rewritten_from(chars, names, step.next, slots);
                    (step.text + rest.0, rest.1)
                },
            }
        }
    }
}

/// The rewritten text and the evaluation order for a whole statement.
pub open spec fn rewritten(sql: Seq<char>, names: Seq<Seq<char>>) -> (Seq<char>, Seq<usize>) {
    rewritten_from(sql, names, 0, 0)
}

/// The normalized names of the declared parameters, in declaration order.
pub open spec fn param_names(params: Seq<SerializedParam>) -> Seq<Seq<char>> {
    Seq::new(params.len(), |i: int| normalized_name(params[i].name@))
}

/// The texts of a list of strings.
pub open spec fn texts(keys: Seq<String>) -> Seq<Seq<char>> {
    Seq::new(keys.len(), |i: int| keys[i]@)
}

/// A name that occurs at `i` and nowhere after it resolves to `i`.
pub proof fn lemma_resolve_is_last(names: Seq<Seq<char>>, key: Seq<char>, i: int)
    requires
        0 <= i < names.len(),
        names[i] == key,
        forall|j: int| i < j < names.len() ==> names[j] != key,
    ensures
        resolve(names, key) == Some(i),
    decreases names.len(),
{
    if names.last() != key {
        let shorter = names.drop_last();
        assert(shorter[i] == names[i]);
        assert forall|j: int| i < j < shorter.len() implies shorter[j] != key by {
            assert(shorter[j] == names[j]);
        }
        lemma_resolve_is_last(shorter, key, i);
    }
}

/// A name that occurs nowhere does not resolve.
pub proof fn lemma_resolve_none(names: Seq<Seq<char>>, key: Seq<char>)
    requires
        forall|j: int| 0 <= j < names.len() ==> names[j] != key,
    ensures
        resolve(names, key) is None,
    decreases names.len(),
{
    if names.len() > 0 {
        let shorter = names.drop_last();
        assert forall|j: int| 0 <= j < shorter.len() implies shorter[j] != key by {
            assert(shorter[j] == names[j]);
        }
        lemma_resolve_none(shorter, key);
    }
}

/// With no declared parameter the text is left as it stands and nothing is
/// bound.
pub proof fn lemma_no_params_unchanged(sql: Seq<char>, i: int, slots: nat)
    requires
        0 <= i <= sql.len(),
    ensures
        rewritten_from(sql, Seq::empty(), i, slots) == (sql.skip(i), Seq::<usize>::empty()),
    decreases sql.len() - i,
{
    let names = Seq::<Seq<char>>::empty();
    if i < sql.len() {
        lemma_step_advances(sql, names, i, slots);
        let step = scan_step(sql, names, i, slots);
        assert(step.index is None);
        assert(step.text == sql.subrange(i, step.next)) by {
            if step.next == i + 1 {
                assert(sql.subrange(i, i + 1) =~= seq![sql[i]]);
            }
        }
        lemma_no_params_unchanged(sql, step.next, slots);
        assert(sql.subrange(i, step.next) + sql.skip(step.next) =~= sql.skip(i));
    } else {
        assert(sql.skip(i) =~= Seq::<char>::empty());
    }
}

/// Where nothing was bound, the text is left as it stands.
pub proof fn lemma_unbound_text_unchanged(
    chars: Seq<char>,
    names: Seq<Seq<char>>,
    i: int,
    slots: nat,
)
    requires
        0 <= i <= chars.len(),
        rewritten_from(chars, names, i, slots).1.len() == 0,
    ensures
        rewritten_from(chars, names, i, slots).0 == chars.skip(i),
    decreases chars.len() - i,
{
    if i < chars.len() {
        lemma_step_advances(chars, names, i, slots);
        let step = scan_step(chars, names, i, slots);
        match step.index {
            Some(idx) => {
                let rest = rewritten_from(chars, names, step.next, slots + 1);
                assert((seq![idx as usize] + rest.1).len() > 0);
            },
            None => {
                assert(step.text == chars.subrange(i, step.next)) by {
                    if step.next == i + 1 {
                        assert(chars.subrange(i, i + 1) =~= seq![chars[i]]);
                    }
                }
                lemma_unbound_text_unchanged(chars, names, step.next, slots);
                assert(chars.subrange(i, step.next) + chars.skip(step.next) =~= chars.skip(i));
            },
        }
    } else {
        assert(chars.skip(i) =~= Seq::<char>::empty());
    }
}

/// A literal without a quote in its body ends at its closing quote.
pub proof fn lemma_literal_end_at_quote(chars: Seq<char>, j: int, close: int)
    requires
        0 <= j <= close < chars.len(),
        chars[close] == '\'',
        close + 1 < chars.len() ==> chars[close + 1] != '\'',
        forall|k: int| j <= k < close ==> chars[k] != '\'',
    ensures
        literal_end(chars, j) == close + 1,
    decreases close - j,
{
    if j < close {
        lemma_literal_end_at_quote(chars, j + 1, close);
    }
}

/// An identifier runs as far as identifier characters go.
pub proof fn lemma_ident_end_at(chars: Seq<char>, j: int, end: int)
    requires
        0 <= j <= end <= chars.len(),
        forall|k: int| j <= k < end ==> is_ident_char(chars[k]),
        end < chars.len() ==> !is_ident_char(chars[end]),
    ensures
        ident_end(chars, j) == end,
    decreases end - j,
{
    if j < end {
        lemma_ident_end_at(chars, j + 1, end);
    }
}

/// Wherever a literal begins, the scan copies it up to its end and binds
/// nothing; wherever two markers stand in a row, the scan copies them and the
/// identifier after them and binds nothing.
pub proof fn lemma_literals_and_system_variables_are_copied(
    chars: Seq<char>,
    names: Seq<Seq<char>>,
    i: int,
    slots: nat,
)
    requires
        0 <= i < chars.len(),
    ensures
        chars[i] == '\'' ==> scan_step(chars, names, i, slots).index is None && scan_step(
            chars,
            names,
            i,
            slots,
        ).text == chars.subrange(i, literal_end(chars, i + 1)),
        chars[i] == '@' && i + 1 < chars.len() && chars[i + 1] == '@' ==> scan_step(
            chars,
            names,
            i,
            slots,
        ).index is None && scan_step(chars, names, i, slots).text == chars.subrange(
            i,
            ident_end(chars, i + 2),
        ),
{
}

/// A quoted literal is kept as it stands, whatever its body holds and
/// whatever parameters are declared: nothing inside it is taken for a
/// reference.
pub proof fn lemma_literal_is_kept(body: Seq<char>, names: Seq<Seq<char>>)
    requires
        forall|k: int| 0 <= k < body.len() ==> body[k] != '\'',
    ensures
        rewritten(seq!['\''] + body + seq!['\''], names) == (
            seq!['\''] + body + seq!['\''],
            Seq::<usize>::empty(),
        ),
{
    let chars = seq!['\''] + body + seq!['\''];
    let close = chars.len() - 1;
    assert forall|k: int| 1 <= k < close implies chars[k] != '\'' by {
        assert(chars[k] == body[k - 1]);
    }
    lemma_literal_end_at_quote(chars, 1, close);
    let step = scan_step(chars, names, 0, 0);
    assert(step.next == chars.len());
    assert(step.text =~= chars);
    assert(rewritten_from(chars, names, chars.len() as int, 0) == (
        Seq::<char>::empty(),
        Seq::<usize>::empty(),
    ));
    assert(chars + Seq::<char>::empty() =~= chars);
}

/// A system variable is kept as it stands, whatever parameters are declared:
/// two markers in a row never make a reference.
pub proof fn lemma_system_variable_is_kept(name: Seq<char>, names: Seq<Seq<char>>)
    requires
        forall|k: int| 0 <= k < name.len() ==> is_ident_char(name[k]),
    ensures
        rewritten(seq!['@', '@'] + name, names) == (
            seq!['@', '@'] + name,
            Seq::<usize>::empty(),
        ),
{
    let chars = seq!['@', '@'] + name;
    assert forall|k: int| 2 <= k < chars.len() implies is_ident_char(chars[k]) by {
        assert(chars[k] == name[k - 2]);
    }
    lemma_ident_end_at(chars, 2, chars.len() as int);
    let step = scan_step(chars, names, 0, 0);
    assert(chars[0] == '@' && chars[1] == '@');
    assert(step.next == chars.len());
    assert(step.text =~= chars);
    assert(rewritten_from(chars, names, chars.len() as int, 0) == (
        Seq::<char>::empty(),
        Seq::<usize>::empty(),
    ));
    assert(chars + Seq::<char>::empty() =~= chars);
}

/// A reference to a declared parameter becomes the first placeholder and
/// binds the parameter that its name resolves to in lower case. Two
/// references whose names differ only in case therefore bind the same
/// parameter.
pub proof fn lemma_reference_ignores_case(name: Seq<char>, names: Seq<Seq<char>>)
    requires
        name.len() > 0,
        name[0] != '@',
        forall|k: int| 0 <= k < name.len() ==> is_ident_char(name[k]),
        resolve(names, lowercase(name)) is Some,
        names.len() <= usize::MAX,
    ensures
        rewritten(seq!['@'] + name, names) == (
            placeholder(1),
            seq![resolve(names, lowercase(name)).unwrap() as usize],
        ),
{
    let chars = seq!['@'] + name;
    assert forall|k: int| 1 <= k < chars.len() implies is_ident_char(chars[k]) by {
        assert(chars[k] == name[k - 1]);
    }
    lemma_ident_end_at(chars, 1, chars.len() as int);
    assert(chars.subrange(1, chars.len() as int) =~= name);
    assert(chars[1] == name[0]);
    let step = scan_step(chars, names, 0, 0);
    assert(step.next == chars.len());
    assert(step.index == resolve(names, lowercase(name)));
    assert(rewritten_from(chars, names, chars.len() as int, 1) == (
        Seq::<char>::empty(),
        Seq::<usize>::empty(),
    ));
    let idx = resolve(names, lowercase(name)).unwrap();
    assert(placeholder(1) + Seq::<char>::empty() =~= placeholder(1));
    assert(seq![idx as usize] + Seq::<usize>::empty() =~= seq![idx as usize]);
}

/// The matching form of a parameter name.
pub fn normalize_name(name: &str) -> (r: String)
    ensures
        r@ == normalized_name(name@),
{
    let clean = strip_markers(name);
    to_lowercase(clean.as_str())
}

/// A parameter name without its leading markers.
pub fn strip_markers(name: &str) -> (r: String)
    ensures
        r@ == trim_start(name@, '@'),
{
    let v = chars_of(name);
    let k = count_leading(&v, '@');
    let mut clean = String::new();
    push_chars(&mut clean, &v, k, v.len());
    assert(clean@ =~= trim_start(name@, '@'));
    clean
}

fn param_keys(params: &[SerializedParam]) -> (keys: Vec<String>)
    ensures
        texts(keys@) == param_names(params@),
        keys.len() == params.len(),
{
    let mut keys: Vec<String> = Vec::new();
    let mut i: usize = 0;
    while i < params.len()
        invariant
            i <= params.len(),
            keys.len() == i,
            forall|j: int| 0 <= j < i ==> keys@[j]@ == normalized_name(params@[j].name@),
        decreases params.len() - i,
    {
        keys.push(normalize_name(params[i].name.as_str()));
        i += 1;
    }
    assert(texts(keys@) =~= param_names(params@));
    keys
}

fn find_key(keys: &Vec<String>, key: &str) -> (r: Option<usize>)
    ensures
        match r {
            Some(i) => resolve(texts(keys@), key@) == Some(i as int) && i < keys.len(),
            None => resolve(texts(keys@), key@) is None,
        },
{
    let mut k: usize = keys.len();
    while k > 0
        invariant
            k <= keys.len(),
            forall|j: int| k <= j < keys.len() ==> keys@[j]@ != key@,
        decreases k,
    {
        k -= 1;
        if str_eq(keys[k].as_str(), key) {
            proof {
                lemma_resolve_is_last(texts(keys@), key@, k as int);
            }
            return Some(k);
        }
    }
    proof {
        lemma_resolve_none(texts(keys@), key@);
    }
    None
}

fn find_ident_end(chars: &Vec<char>, from: usize) -> (e: usize)
    requires
        from <= chars.len(),
    ensures
        e == ident_end(chars@, from as int),
        from <= e <= chars.len(),
{
    let mut j: usize = from;
    while j < chars.len() && is_sql_ident_char(chars[j])
        invariant
            from <= j <= chars.len(),
            ident_end(chars@, j as int) == ident_end(chars@, from as int),
        decreases chars.len() - j,
    {
        j += 1;
    }
    j
}

fn find_literal_end(chars: &Vec<char>, from: usize) -> (e: usize)
    requires
        from <= chars.len(),
    ensures
        e == literal_end(chars@, from as int),
        from <= e <= chars.len(),
{
    let mut j: usize = from;
    loop
        invariant_except_break
            literal_end(chars@, j as int) == literal_end(chars@, from as int),
        invariant
            from <= j <= chars.len(),
        ensures
            from <= j <= chars.len(),
            j == literal_end(chars@, from as int),
        decreases chars.len() - j,
    {
        if j >= chars.len() {
            break ;
        }
        if chars[j] == '\'' {
            if j + 1 < chars.len() && chars[j + 1] == '\'' {
                j += 2;
            } else {
                j += 1;
                break ;
            }
        } else {
            j += 1;
        }
    }
    j
}

/// Rewrites the named parameter references of `sql` into positional ones.
///
/// Returns the rewritten text and, for each positional slot in order, the
/// index of the declared parameter that fills it. Every occurrence of a
/// reference gets a slot of its own. With no parameters the text is returned
/// as it stands.
pub fn rewrite_named_params(sql: &str, params: &[SerializedParam]) -> (r: (String, Vec<usize>))
    ensures
        (r.0@, r.1@) == rewritten(sql@, param_names(params@)),
        params.len() == 0 ==> r.0@ == sql@ && r.1@.len() == 0,
        forall|k: int| 0 <= k < r.1.len() ==> r.1[k] < params.len(),
{
    let ghost names = param_names(params@);
    if params.len() == 0 {
        proof {
            assert(names =~= Seq::<Seq<char>>::empty());
            lemma_no_params_unchanged(sql@, 0, 0);
            assert(sql@.skip(0) =~= sql@);
        }
        return (String::from_str(sql), Vec::new());
    }
    let keys = param_keys(params);
    let chars = chars_of(sql);
    let len = chars.len();
    let mut result = String::new();
    let mut order: Vec<usize> = Vec::new();
    let mut slots: usize = 0;
    let mut i: usize = 0;
    while i < len
        invariant
            chars@ == sql@,
            len == chars.len(),
            texts(keys@) == names,
            keys.len() == params.len(),
            i <= len,
            slots <= i,
            rewritten(sql@, names) == (
                result@ + rewritten_from(chars@, names, i as int, slots as nat).0,
                order@ + rewritten_from(chars@, names, i as int, slots as nat).1,
            ),
            forall|k: int| 0 <= k < order.len() ==> order[k] < params.len(),
        decreases len - i,
    {
        let ghost step = scan_step(chars@, names, i as int, slots as nat);
        let ghost before_text = result@;
        let ghost before_order = order@;
        proof {
            lemma_step_advances(chars@, names, i as int, slots as nat);
        }
        let c = chars[i];
        if c == '\'' {
            let e = find_literal_end(&chars, i + 1);
            push_chars(&mut result, &chars, i, e);
            proof {
                let rest = rewritten_from(chars@, names, e as int, slots as nat);
                assert(result@ + rest.0 =~= before_text + (step.text + rest.0));
            }
            i = e;
        } else if c == '@' && i + 1 < len && chars[i + 1] == '@' {
            let e = find_ident_end(&chars, i + 2);
            push_chars(&mut result, &chars, i, e);
            proof {
                let rest = rewritten_from(chars@, names, e as int, slots as nat);
                assert(result@ + rest.0 =~= before_text + (step.text + rest.0));
            }
            i = e;
        } else {
            let mut rewrote = false;
            let e = find_ident_end(&chars, i + 1);
            if c == '@' && e > i + 1 {
                let mut name = String::new();
                push_chars(&mut name, &chars, i + 1, e);
                assert(name@ =~= chars@.subrange(i + 1, e as int));
                let key = to_lowercase(name.as_str());
                match find_key(&keys, key.as_str()) {
                    Some(idx) => {
                        slots += 1;
                        push_char(&mut result, '@');
                        push_char(&mut result, 'P');
                        push_decimal(&mut result, slots as u128);
                        order.push(idx);
                        proof {
                            let rest = rewritten_from(chars@, names, e as int, slots as nat);
                            assert(step.index == Some(idx as int));
                            assert(result@ =~= before_text + placeholder(slots as nat));
                            assert(result@ + rest.0 =~= before_text + (step.text + rest.0));
                            assert(order@ + rest.1 =~= before_order + (seq![idx] + rest.1));
                        }
                        i = e;
                        rewrote = true;
                    },
                    None => {},
                }
            }
            if !rewrote {
                push_char(&mut result, c);
                proof {
                    let rest = rewritten_from(chars@, names, i + 1, slots as nat);
                    assert(step.index is None);
                    assert(step.text == seq![c]);
                    assert(result@ + rest.0 =~= before_text + (step.text + rest.0));
                }
                i += 1;
            }
        }
    }
    proof {
        assert(result@ + Seq::<char>::empty() =~= result@);
        assert(order@ + Seq::<usize>::empty() =~= order@);
    }
    (result, order)
}

} // verus!
