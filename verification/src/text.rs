//! Character classes and conversions between text and numbers.
//!
//! Strings are specified through their view, a `Seq<char>`. The functions here
//! are the only place where the library reads or builds a `String` character
//! by character.

use vstd::prelude::*;
use vstd::std_specs::iter::IteratorSpec;

verus! {

/// Whether `c` is alphabetic in the sense of `char::is_alphabetic`.
pub uninterp spec fn unicode_alphabetic(c: char) -> bool;

/// Whether `c` is numeric in the sense of `char::is_numeric`.
pub uninterp spec fn unicode_numeric(c: char) -> bool;

/// Whether `c` is white space in the sense of `char::is_whitespace`.
pub uninterp spec fn unicode_whitespace(c: char) -> bool;

/// Calls `char::is_alphabetic`. Nothing is claimed about which characters
/// are alphabetic; the result is only given the name
/// [`unicode_alphabetic`].
#[verifier::external_body]
fn unicode_is_alphabetic(c: char) -> (r: bool)
    ensures
        r == unicode_alphabetic(c),
{
    c.is_alphabetic()
}

/// Calls `char::is_numeric`. Nothing is claimed about which characters are
/// numeric; the result is only given the name [`unicode_numeric`].
#[verifier::external_body]
fn unicode_is_numeric(c: char) -> (r: bool)
    ensures
        r == unicode_numeric(c),
{
    c.is_numeric()
}

/// Calls `char::is_whitespace`. Nothing is claimed about which characters
/// are white space; the result is only given the name
/// [`unicode_whitespace`].
#[verifier::external_body]
fn unicode_is_whitespace(c: char) -> (r: bool)
    ensures
        r == unicode_whitespace(c),
{
    c.is_whitespace()
}

/// One of the 128 ASCII characters.
pub open spec fn is_ascii(c: char) -> bool {
    (c as u32) < 128
}

/// An alphabetic character: among the ASCII characters the letters, among
/// the others those that Unicode calls alphabetic.
pub open spec fn is_alphabetic(c: char) -> bool {
    if is_ascii(c) {
        ('a' <= c <= 'z') || ('A' <= c <= 'Z')
    } else {
        unicode_alphabetic(c)
    }
}

/// A numeric character: among the ASCII characters the digits, among the
/// others those that Unicode calls numeric.
pub open spec fn is_numeric(c: char) -> bool {
    if is_ascii(c) {
        is_digit(c)
    } else {
        unicode_numeric(c)
    }
}

/// White space: among the ASCII characters the space, the tabs, the line
/// feed, the form feed and the carriage return, among the others what
/// Unicode calls white space.
pub open spec fn is_whitespace(c: char) -> bool {
    if is_ascii(c) {
        c == ' ' || ('\t' <= c <= '\r')
    } else {
        unicode_whitespace(c)
    }
}

/// Whether `c` is alphabetic.
pub fn char_is_alphabetic(c: char) -> (r: bool)
    ensures
        r == is_alphabetic(c),
{
    if (c as u32) < 128 {
        (c >= 'a' && c <= 'z') || (c >= 'A' && c <= 'Z')
    } else {
        unicode_is_alphabetic(c)
    }
}

/// Whether `c` is numeric.
pub fn char_is_numeric(c: char) -> (r: bool)
    ensures
        r == is_numeric(c),
{
    if (c as u32) < 128 {
        c >= '0' && c <= '9'
    } else {
        unicode_is_numeric(c)
    }
}

/// Whether `c` is white space.
pub fn char_is_whitespace(c: char) -> (r: bool)
    ensures
        r == is_whitespace(c),
{
    if (c as u32) < 128 {
        c == ' ' || (c >= '\t' && c <= '\r')
    } else {
        unicode_is_whitespace(c)
    }
}

/// Calls `String::push`, which appends one character to the end of the string.
#[verifier::external_body]
pub(crate) fn push_char(s: &mut String, c: char)
    ensures
        final(s)@ == old(s)@.push(c),
{
    s.push(c)
}

/// A character that may continue an identifier: alphabetic or an underscore.
pub open spec fn is_word_char(c: char) -> bool {
    is_alphabetic(c) || c == '_'
}

/// A character that may continue a numeric literal: numeric or a dot.
pub open spec fn is_number_char(c: char) -> bool {
    is_numeric(c) || c == '.'
}

/// One of the ten ASCII digits.
pub open spec fn is_digit(c: char) -> bool {
    '0' <= c <= '9'
}

/// The value of an ASCII digit.
pub open spec fn digit_value(c: char) -> nat
    recommends
        is_digit(c),
{
    (c as u32 - '0' as u32) as nat
}

/// The ASCII digit for a value below ten.
pub open spec fn digit_char(d: nat) -> char
    recommends
        d < 10,
{
    seq!['0', '1', '2', '3', '4', '5', '6', '7', '8', '9'][d as int]
}

/// Every character of `s` is an ASCII digit.
pub open spec fn all_digits(s: Seq<char>) -> bool {
    forall|i: int| 0 <= i < s.len() ==> is_digit(#[trigger] s[i])
}

/// The number that a run of ASCII digits denotes in base ten.
pub open spec fn decimal_value(s: Seq<char>) -> nat
    decreases s.len(),
{
    if s.len() == 0 {
        0
    } else {
        decimal_value(s.drop_last()) * 10 + digit_value(s.last())
    }
}

/// The base-ten digits of `n`, most significant first, without leading zeros.
pub open spec fn decimal_text(n: nat) -> Seq<char>
    decreases n,
{
    if n < 10 {
        seq![digit_char(n)]
    } else {
        decimal_text(n / 10).push(digit_char(n % 10))
    }
}

/// The base-ten text of an integer, with a leading minus sign when negative.
pub open spec fn int_text(i: int) -> Seq<char> {
    if i < 0 {
        seq!['-'] + decimal_text((-i) as nat)
    } else {
        decimal_text(i as nat)
    }
}

/// `s` joined by `sep`: the parts in order with `sep` between neighbours.
pub open spec fn join(parts: Seq<Seq<char>>, sep: Seq<char>) -> Seq<char>
    decreases parts.len(),
{
    if parts.len() == 0 {
        Seq::empty()
    } else if parts.len() == 1 {
        parts[0]
    } else {
        join(parts.drop_last(), sep) + sep + parts.last()
    }
}

/// A digit run read to the left of position `j` is worth no more than the
/// run read to the left of a later position.
pub proof fn lemma_decimal_value_prefix(s: Seq<char>, i: int, j: int)
    requires
        0 <= i <= j <= s.len(),
    ensures
        decimal_value(s.take(i)) <= decimal_value(s.take(j)),
    decreases j - i,
{
    if i < j {
        lemma_decimal_value_prefix(s, i, j - 1);
        assert(s.take(j).drop_last() =~= s.take(j - 1));
    }
}

/// The characters of `s`, in order.
pub fn to_chars(s: &str) -> (v: Vec<char>)
    ensures
        v@ == s@,
{
    broadcast use vstd::string::axiom_spec_iter, vstd::string::next_postcondition;

    let mut v: Vec<char> = Vec::new();
    let mut rest = s.chars();
    assert(v@ + rest.remaining() =~= s@);
    loop
        invariant
            v@ + rest.remaining() == s@,
            rest.decrease() is Some,
        decreases rest.decrease()->0,
    {
        let ghost before = rest.remaining();
        let ghost so_far = v@;
        match rest.next() {
            Some(c) => {
                v.push(c);
                assert(v@ + rest.remaining() =~= so_far + before);
            },
            None => {
                assert(so_far + before =~= so_far);
                return v;
            },
        }
    }
}

/// The string made of the characters `v[from..to]`.
pub fn from_chars(v: &Vec<char>, from: usize, to: usize) -> (s: String)
    requires
        from <= to <= v.len(),
    ensures
        s@ == v@.subrange(from as int, to as int),
{
    let mut s = String::new();
    let mut i: usize = from;
    while i < to
        invariant
            from <= i <= to <= v.len(),
            s@ == v@.subrange(from as int, i as int),
        decreases to - i,
    {
        push_char(&mut s, v[i]);
        assert(v@.subrange(from as int, i as int).push(v@[i as int]) =~= v@.subrange(
            from as int,
            i + 1,
        ));
        i += 1;
    }
    s
}

/// Whether the two texts are the same.
pub fn str_equal(a: &str, b: &str) -> (r: bool)
    ensures
        r == (a@ == b@),
{
    let x = to_chars(a);
    let y = to_chars(b);
    if x.len() != y.len() {
        return false;
    }
    let mut i: usize = 0;
    while i < x.len()
        invariant
            x@ == a@,
            y@ == b@,
            x.len() == y.len(),
            i <= x.len(),
            forall|j: int| 0 <= j < i ==> x@[j] == y@[j],
        decreases x.len() - i,
    {
        if x[i] != y[i] {
            return false;
        }
        i += 1;
    }
    assert(x@ =~= y@);
    true
}

fn digit_of(d: u64) -> (c: char)
    requires
        d < 10,
    ensures
        c == digit_char(d as nat),
{
    if d == 0 {
        '0'
    } else if d == 1 {
        '1'
    } else if d == 2 {
        '2'
    } else if d == 3 {
        '3'
    } else if d == 4 {
        '4'
    } else if d == 5 {
        '5'
    } else if d == 6 {
        '6'
    } else if d == 7 {
        '7'
    } else if d == 8 {
        '8'
    } else {
        '9'
    }
}

fn push_decimal(s: &mut String, n: u64)
    ensures
        final(s)@ == old(s)@ + decimal_text(n as nat),
    decreases n,
{
    if n < 10 {
        push_char(s, digit_of(n));
        assert(old(s)@.push(digit_char(n as nat)) =~= old(s)@ + decimal_text(n as nat));
    } else {
        push_decimal(s, n / 10);
        push_char(s, digit_of(n % 10));
        assert((old(s)@ + decimal_text((n / 10) as nat)).push(digit_char((n % 10) as nat))
            =~= old(s)@ + decimal_text(n as nat));
    }
}

/// The base-ten text of `i`, with a leading minus sign when negative.
pub fn i64_to_string(i: i64) -> (s: String)
    ensures
        s@ == int_text(i as int),
{
    let mut s = String::new();
    if i < 0 {
        push_char(&mut s, '-');
        let magnitude: u64 = if i == i64::MIN {
            0x8000_0000_0000_0000u64
        } else {
            (-i) as u64
        };
        push_decimal(&mut s, magnitude);
        assert(Seq::<char>::empty().push('-') =~= seq!['-']);
    } else {
        push_decimal(&mut s, i as u64);
        assert(Seq::<char>::empty() + decimal_text(i as nat) =~= decimal_text(i as nat));
    }
    s
}

/// Reads `v[from..to]` as a base-ten number. The result is `Some` exactly when
/// the range is a non-empty run of ASCII digits whose value fits an `i64`.
pub fn parse_i64(v: &Vec<char>, from: usize, to: usize) -> (r: Option<i64>)
    requires
        from <= to <= v.len(),
    ensures
        r == integer_literal(v@.subrange(from as int, to as int)),
{
    let ghost run = v@.subrange(from as int, to as int);
    if from == to {
        return None;
    }
    let mut acc: i64 = 0;
    let mut i: usize = from;
    while i < to
        invariant
            from <= i <= to <= v.len(),
            run == v@.subrange(from as int, to as int),
            all_digits(run.take(i - from)),
            acc == decimal_value(run.take(i - from)),
        decreases to - i,
    {
        let c = v[i];
        assert(run[i - from] == c);
        if !(c >= '0' && c <= '9') {
            return None;
        }
        let d: i64 = (c as u32 - '0' as u32) as i64;
        assert(run.take(i - from + 1).drop_last() =~= run.take(i - from));
        assert(run.take(i - from + 1).last() == c);
        if acc > (i64::MAX - d) / 10 {
            proof {
                lemma_decimal_value_prefix(run, i - from + 1, run.len() as int);
                assert(run.take(run.len() as int) =~= run);
            }
            return None;
        }
        acc = acc * 10 + d;
        i += 1;
    }
    assert(run.take(to - from) =~= run);
    Some(acc)
}

/// What a run of characters denotes as an integer literal: its base-ten value
/// when it is a non-empty run of ASCII digits that fits an `i64`.
pub open spec fn integer_literal(run: Seq<char>) -> Option<i64> {
    if run.len() > 0 && all_digits(run) && decimal_value(run) <= i64::MAX {
        Some(decimal_value(run) as i64)
    } else {
        None
    }
}

} // verus!
