//! Text building blocks: the few string primitives of `std` that the rest of the
//! crate is written over, and verified helpers on top of them.

use vstd::prelude::*;

verus! {

/// Appends one character to a string.
///
/// Trusted: this is `String::push`, which `std` documents as appending the given
/// `char` to the end of the string.
#[verifier::external_body]
pub(crate) fn push_char(out: &mut String, c: char)
    ensures
        final(out)@ == old(out)@.push(c),
{
    out.push(c);
}

/// The characters of a string slice, in order.
pub fn chars_of(s: &str) -> (v: Vec<char>)
    ensures
        v@ == s@,
{
    broadcast use vstd::string::axiom_spec_iter;

    let mut v: Vec<char> = Vec::new();
    for c in it: s.chars()
        invariant
            it.seq() == s@,
            v@ == s@.take(it.index()),
    {
        v.push(c);
        assert(s@.take(it.index() + 1) == s@.take(it.index()).push(c));
    }
    assert(s@.take(s@.len() as int) == s@);
    v
}

/// Whether two string slices hold the same characters. The two are compared
/// byte by byte: the encoding of a text determines the text.
pub fn str_eq(a: &str, b: &str) -> (r: bool)
    ensures
        r == (a@ == b@),
{
    let x = a.as_bytes();
    let y = b.as_bytes();
    proof {
        vstd::utf8::encode_utf8_decode_utf8(a@);
        vstd::utf8::encode_utf8_decode_utf8(b@);
    }
    if x.len() != y.len() {
        return false;
    }
    let mut i: usize = 0;
    while i < x.len()
        invariant
            i <= x.len(),
            x.len() == y.len(),
            a@ == b@ ==> x@ == y@,
            forall|j: int| 0 <= j < i ==> x@[j] == y@[j],
        decreases x.len() - i,
    {
        if x[i] != y[i] {
            assert(x@[i as int] != y@[i as int]);
            return false;
        }
        i += 1;
    }
    assert(x@ =~= y@);
    true
}

/// The lower-case form of a text, as the Unicode case mapping gives it. The
/// result may differ in length from the text.
pub uninterp spec fn lowercase(s: Seq<char>) -> Seq<char>;

/// Whether a character is a letter or a digit in the Unicode sense.
pub uninterp spec fn alphanumeric(c: char) -> bool;

/// The lower-case form of a string slice.
///
/// Trusted: this is `str::to_lowercase`, a function of the text alone.
#[verifier::external_body]
pub(crate) fn to_lowercase(s: &str) -> (r: String)
    ensures
        r@ == lowercase(s@),
{
    s.to_lowercase()
}

/// Whether a character is a letter or a digit.
///
/// Trusted: this is `char::is_alphanumeric`, a function of the character alone.
#[verifier::external_body]
pub(crate) fn is_alphanumeric(c: char) -> (r: bool)
    ensures
        r == alphanumeric(c),
{
    c.is_alphanumeric()
}

/// The character for a decimal digit: `0` has code 48, and the other digits
/// follow it.
pub open spec fn digit_char(d: nat) -> char
    recommends
        d < 10,
{
    ((48 + d) as u8) as char
}

/// Decimal numeral of a natural number, without sign or leading zeros.
pub open spec fn decimal(n: nat) -> Seq<char>
    decreases n,
{
    if n < 10 {
        seq![digit_char(n)]
    } else {
        decimal(n / 10).push(digit_char(n % 10))
    }
}

/// Decimal numeral of an integer: a minus sign for negatives.
pub open spec fn signed_decimal(i: int) -> Seq<char> {
    if i < 0 {
        seq!['-'] + decimal((-i) as nat)
    } else {
        decimal(i as nat)
    }
}

/// Appends the decimal numeral of `n`.
pub fn push_decimal(out: &mut String, n: u128)
    ensures
        final(out)@ == old(out)@ + decimal(n as nat),
    decreases n,
{
    if n >= 10 {
        push_decimal(out, n / 10);
    }
    let d: u8 = (n % 10) as u8;
    push_char(out, (48u8 + d) as char);
}

/// Appends the decimal numeral of a signed integer.
pub fn push_signed_decimal(out: &mut String, i: i64)
    ensures
        final(out)@ == old(out)@ + signed_decimal(i as int),
{
    if i < 0 {
        push_char(out, '-');
        let magnitude: u128 = if i == i64::MIN {
            9223372036854775808u128
        } else {
            (-i) as u128
        };
        push_decimal(out, magnitude);
    } else {
        push_decimal(out, i as u128);
    }
}

/// Appends a string slice.
pub fn push_text(out: &mut String, s: &str)
    ensures
        final(out)@ == old(out)@ + s@,
{
    out.append(s);
}

/// `s` with every occurrence of `c` written twice.
pub open spec fn double_char(s: Seq<char>, c: char) -> Seq<char>
    decreases s.len(),
{
    if s.len() == 0 {
        Seq::empty()
    } else if s.last() == c {
        double_char(s.drop_last(), c).push(c).push(c)
    } else {
        double_char(s.drop_last(), c).push(s.last())
    }
}

/// How many copies of `c` stand at the start of `s`.
pub open spec fn leading_run(s: Seq<char>, c: char) -> nat
    decreases s.len(),
{
    if s.len() > 0 && s[0] == c {
        1 + leading_run(s.drop_first(), c)
    } else {
        0
    }
}

/// How many copies of `c` stand at the end of `s`.
pub open spec fn trailing_run(s: Seq<char>, c: char) -> nat
    decreases s.len(),
{
    if s.len() > 0 && s.last() == c {
        1 + trailing_run(s.drop_last(), c)
    } else {
        0
    }
}

/// `s` without the copies of `c` at its start.
pub open spec fn trim_start(s: Seq<char>, c: char) -> Seq<char> {
    s.skip(leading_run(s, c) as int)
}

/// `s` without the copies of `c` at its end.
pub open spec fn trim_end(s: Seq<char>, c: char) -> Seq<char> {
    s.take(s.len() - trailing_run(s, c))
}

/// The upper-case hexadecimal digit for a value below sixteen: a decimal digit
/// below ten, then `A` to `F`, where `A` has code 65.
pub open spec fn hex_digit_upper(n: nat) -> char
    recommends
        n < 16,
{
    if n < 10 {
        ((48 + n) as u8) as char
    } else {
        ((55 + n) as u8) as char
    }
}

/// Two upper-case hexadecimal digits per byte, in order.
pub open spec fn hex_upper(bytes: Seq<u8>) -> Seq<char>
    decreases bytes.len(),
{
    if bytes.len() == 0 {
        Seq::empty()
    } else {
        hex_upper(bytes.drop_last()).push(hex_digit_upper((bytes.last() / 16) as nat)).push(
            hex_digit_upper((bytes.last() % 16) as nat),
        )
    }
}

/// A text without `c` is not changed by doubling `c`.
pub proof fn lemma_double_char_absent(s: Seq<char>, c: char)
    requires
        forall|k: int| 0 <= k < s.len() ==> s[k] != c,
    ensures
        double_char(s, c) == s,
    decreases s.len(),
{
    if s.len() > 0 {
        let shorter = s.drop_last();
        assert forall|k: int| 0 <= k < shorter.len() implies shorter[k] != c by {
            assert(shorter[k] == s[k]);
        }
        lemma_double_char_absent(shorter, c);
        assert(shorter.push(s.last()) =~= s);
    }
}

/// The leading run ends at the first position that holds another character.
pub proof fn lemma_leading_run_is(s: Seq<char>, c: char, i: int)
    requires
        0 <= i <= s.len(),
        forall|j: int| 0 <= j < i ==> s[j] == c,
        i < s.len() ==> s[i] != c,
    ensures
        leading_run(s, c) == i,
    decreases i,
{
    if i > 0 {
        let rest = s.drop_first();
        assert forall|j: int| 0 <= j < i - 1 implies rest[j] == c by {
            assert(rest[j] == s[j + 1]);
        }
        if i - 1 < rest.len() {
            assert(rest[i - 1] == s[i]);
        }
        lemma_leading_run_is(rest, c, i - 1);
    }
}

/// The trailing run starts after the last position that holds another character.
pub proof fn lemma_trailing_run_is(s: Seq<char>, c: char, i: int)
    requires
        0 <= i <= s.len(),
        forall|j: int| i <= j < s.len() ==> s[j] == c,
        i > 0 ==> s[i - 1] != c,
    ensures
        trailing_run(s, c) == s.len() - i,
    decreases s.len() - i,
{
    if i < s.len() {
        let rest = s.drop_last();
        assert forall|j: int| i <= j < rest.len() implies rest[j] == c by {
            assert(rest[j] == s[j]);
        }
        if i > 0 {
            assert(rest[i - 1] == s[i - 1]);
        }
        lemma_trailing_run_is(rest, c, i);
    }
}

/// Length of the leading run of `c` in `v`.
pub fn count_leading(v: &Vec<char>, c: char) -> (n: usize)
    ensures
        n == leading_run(v@, c),
        n <= v.len(),
{
    let mut i: usize = 0;
    while i < v.len() && v[i] == c
        invariant
            i <= v.len(),
            forall|j: int| 0 <= j < i ==> v@[j] == c,
        decreases v.len() - i,
    {
        i += 1;
    }
    proof {
        lemma_leading_run_is(v@, c, i as int);
    }
    i
}

/// Position at which the trailing run of `c` in `v` begins, at or after `from`.
pub(crate) fn trailing_start(v: &Vec<char>, from: usize, c: char) -> (n: usize)
    requires
        from <= v.len(),
    ensures
        from <= n <= v.len(),
        n - from == v@.skip(from as int).len() - trailing_run(v@.skip(from as int), c),
{
    let mut i: usize = v.len();
    while i > from && v[i - 1] == c
        invariant
            from <= i <= v.len(),
            forall|j: int| i <= j < v.len() ==> v@[j] == c,
        decreases i,
    {
        i -= 1;
    }
    proof {
        let tail = v@.skip(from as int);
        assert forall|j: int| i - from <= j < tail.len() implies tail[j] == c by {
            assert(tail[j] == v@[j + from]);
        }
        if i > from {
            assert(tail[i - from - 1] == v@[i - 1]);
        }
        lemma_trailing_run_is(tail, c, i - from);
    }
    i
}

/// Appends the characters `v[from..to]`.
pub(crate) fn push_chars(out: &mut String, v: &Vec<char>, from: usize, to: usize)
    requires
        from <= to <= v.len(),
    ensures
        final(out)@ == old(out)@ + v@.subrange(from as int, to as int),
{
    let mut i: usize = from;
    while i < to
        invariant
            from <= i <= to <= v.len(),
            out@ == old(out)@ + v@.subrange(from as int, i as int),
        decreases to - i,
    {
        push_char(out, v[i]);
        assert(v@.subrange(from as int, i + 1) == v@.subrange(from as int, i as int).push(
            v@[i as int],
        ));
        i += 1;
    }
}

/// Appends `v[from..to]` with every occurrence of `c` written twice.
pub(crate) fn push_doubling(out: &mut String, v: &Vec<char>, from: usize, to: usize, c: char)
    requires
        from <= to <= v.len(),
    ensures
        final(out)@ == old(out)@ + double_char(v@.subrange(from as int, to as int), c),
{
    let mut i: usize = from;
    while i < to
        invariant
            from <= i <= to <= v.len(),
            out@ == old(out)@ + double_char(v@.subrange(from as int, i as int), c),
        decreases to - i,
    {
        let ch = v[i];
        proof {
            let next = v@.subrange(from as int, i + 1);
            assert(next.drop_last() == v@.subrange(from as int, i as int));
            assert(next.last() == ch);
        }
        push_char(out, ch);
        if ch == c {
            push_char(out, ch);
        }
        i += 1;
    }
}

/// Appends the text of `s` with every occurrence of `c` written twice.
pub fn push_text_doubling(out: &mut String, s: &str, c: char)
    ensures
        final(out)@ == old(out)@ + double_char(s@, c),
{
    let v = chars_of(s);
    assert(v@.subrange(0, v@.len() as int) == v@);
    push_doubling(out, &v, 0, v.len(), c);
}

/// The upper-case hexadecimal digit for a value below sixteen.
pub(crate) fn hex_digit(n: u8) -> (c: char)
    requires
        n < 16,
    ensures
        c == hex_digit_upper(n as nat),
{
    if n < 10 {
        (48u8 + n) as char
    } else {
        (55u8 + n) as char
    }
}

/// Appends two upper-case hexadecimal digits for each byte.
pub fn push_hex_upper(out: &mut String, bytes: &Vec<u8>)
    ensures
        final(out)@ == old(out)@ + hex_upper(bytes@),
{
    let mut i: usize = 0;
    while i < bytes.len()
        invariant
            i <= bytes.len(),
            out@ == old(out)@ + hex_upper(bytes@.take(i as int)),
        decreases bytes.len() - i,
    {
        let b = bytes[i];
        proof {
            let next = bytes@.take(i + 1);
            assert(next.drop_last() == bytes@.take(i as int));
            assert(next.last() == b);
        }
        push_char(out, hex_digit(b / 16));
        push_char(out, hex_digit(b % 16));
        i += 1;
    }
    assert(bytes@.take(bytes@.len() as int) == bytes@);
}

} // verus!
