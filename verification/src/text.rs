//! Text: what the library needs of strings and of numbers written out.

use vstd::prelude::*;

verus! {

/// Whether a character outside ASCII has the Unicode property `White_Space`, as
/// `char::is_whitespace` and `str::trim` see it.
pub uninterp spec fn wide_white_space(c: char) -> bool;

/// The Unicode property `White_Space`: within ASCII, the five controls from tab to carriage return
/// and the space.
pub open spec fn white_space(c: char) -> bool {
    if c <= '\u{7f}' {
        c == ' ' || ('\u{9}' <= c && c <= '\u{d}')
    } else {
        wide_white_space(c)
    }
}

/// `s` without the white space that it starts with.
pub open spec fn trimmed_start(s: Seq<char>) -> Seq<char>
    decreases s.len(),
{
    if s.len() > 0 && white_space(s[0]) {
        trimmed_start(s.drop_first())
    } else {
        s
    }
}

/// `s` without the white space that it ends with.
pub open spec fn trimmed_end(s: Seq<char>) -> Seq<char>
    decreases s.len(),
{
    if s.len() > 0 && white_space(s.last()) {
        trimmed_end(s.drop_last())
    } else {
        s
    }
}

/// `s` without the white space at its two ends.
pub open spec fn trimmed(s: Seq<char>) -> Seq<char> {
    trimmed_end(trimmed_start(s))
}

/// `str::trim` takes off the white space at both ends, white space being the Unicode property
/// `White_Space`. Which characters outside ASCII have it is left to the name
/// [`wide_white_space`]: neither end of the result has it.
pub assume_specification[ str::trim ](s: &str) -> (r: &str)
    ensures
        r@ == trimmed(s@),
        r@.len() > 0 && r@[0] > '\u{7f}' ==> !wide_white_space(r@[0]),
        r@.len() > 0 && r@.last() > '\u{7f}' ==> !wide_white_space(r@.last()),
;

pub open spec fn ascii_lower_letter(c: char) -> bool {
    'a' <= c && c <= 'z'
}

pub open spec fn ascii_upper_letter(c: char) -> bool {
    'A' <= c && c <= 'Z'
}

pub open spec fn ascii_letter(c: char) -> bool {
    ascii_lower_letter(c) || ascii_upper_letter(c)
}

pub open spec fn ascii_digit(c: char) -> bool {
    '0' <= c && c <= '9'
}

/// The upper case form of an ASCII letter; any other character is its own.
pub open spec fn upper_char(c: char) -> char {
    if ascii_lower_letter(c) {
        ((c as u32 - 32) as u32) as char
    } else {
        c
    }
}

/// The lower case form of an ASCII letter; any other character is its own.
pub open spec fn lower_char(c: char) -> char {
    if ascii_upper_letter(c) {
        ((c as u32 + 32) as u32) as char
    } else {
        c
    }
}

pub open spec fn upper(s: Seq<char>) -> Seq<char> {
    s.map_values(|c: char| upper_char(c))
}

pub open spec fn lower(s: Seq<char>) -> Seq<char> {
    s.map_values(|c: char| lower_char(c))
}

/// `str::to_ascii_uppercase` maps the ASCII letters from a to z to those from A to Z and leaves
/// every other character.
pub assume_specification[ str::to_ascii_uppercase ](s: &str) -> (r: String)
    ensures
        r@ == upper(s@),
;

/// `str::to_lowercase` maps, in a text of ASCII characters alone, the letters from A to Z to those
/// from a to z. What it does with other texts is not claimed.
pub assume_specification[ str::to_lowercase ](s: &str) -> (r: String)
    ensures
        vstd::utf8::is_ascii_chars(s@) ==> r@ == lower(s@),
;

/// `String::push` appends the character.
pub assume_specification[ String::push ](s: &mut String, c: char)
    ensures
        final(s)@ == old(s)@.push(c),
;

/// The number that a text of ASCII digits writes.
pub open spec fn decimal_value(s: Seq<char>) -> nat
    decreases s.len(),
{
    if s.len() == 0 {
        0
    } else {
        10 * decimal_value(s.drop_last()) + (s.last() as u32 - '0' as u32) as nat
    }
}

/// Whether a text is at least one ASCII digit, and writes a value of at most 64 bits.
pub open spec fn unsigned_digits(s: Seq<char>) -> bool {
    &&& s.len() > 0
    &&& forall|i: int| 0 <= i < s.len() ==> ascii_digit(#[trigger] s[i])
    &&& decimal_value(s) <= u64::MAX
}

/// Whether a text is a number in the sense of `u64`'s `FromStr`: digits, with or without a plus
/// sign before them.
pub open spec fn unsigned_literal(s: Seq<char>) -> bool {
    if s.len() > 0 && s[0] == '+' {
        unsigned_digits(s.drop_first())
    } else {
        unsigned_digits(s)
    }
}

/// `str::parse::<u64>` succeeds on a text of decimal digits, with an optional plus sign before
/// them, whose value fits; it fails on any other text.
#[verifier::external_body]
pub(crate) fn parses_as_u64(s: &str) -> (r: bool)
    ensures
        r == unsigned_literal(s@),
{
    s.parse::<u64>().is_ok()
}

/// The decimal digit of a number below ten.
pub open spec fn digit_char(n: int) -> char {
    (('0' as u32 + n) as u32) as char
}

/// A number in decimal, without leading zeros.
pub open spec fn decimal_digits(n: nat) -> Seq<char>
    decreases n,
{
    if n < 10 {
        seq![digit_char(n as int)]
    } else {
        decimal_digits(n / 10).push(digit_char((n % 10) as int))
    }
}

/// An integer in decimal, with a minus sign before a negative one.
pub open spec fn decimal(n: int) -> Seq<char> {
    if n < 0 {
        seq!['-'] + decimal_digits((-n) as nat)
    } else {
        decimal_digits(n as nat)
    }
}

fn push_digits(out: &mut String, n: u64)
    ensures
        final(out)@ == old(out)@ + decimal_digits(n as nat),
    decreases n,
{
    if n >= 10 {
        push_digits(out, n / 10);
    }
    let digit: u8 = (n % 10) as u8;
    out.push((48 + digit) as char);
    proof {
        if n < 10 {
            assert(old(out)@.push(digit_char(n as int)) =~= old(out)@ + decimal_digits(n as nat));
        } else {
            assert((old(out)@ + decimal_digits((n / 10) as nat)).push(digit_char((n % 10) as int))
                =~= old(out)@ + decimal_digits(n as nat));
        }
    }
}

/// Writes an integer out in decimal.
pub fn decimal_string(n: i64) -> (r: String)
    ensures
        r@ == decimal(n as int),
{
    let mut out = String::new();
    if n < 0 {
        out.push('-');
        let magnitude: u64 = ((-(n + 1)) as u64) + 1;
        push_digits(&mut out, magnitude);
        assert(Seq::<char>::empty().push('-') =~= seq!['-']);
    } else {
        push_digits(&mut out, n as u64);
        assert(Seq::<char>::empty() + decimal_digits(n as nat) =~= decimal(n as int));
    }
    out
}

/// Writes a count out in decimal.
pub fn count_string(n: usize) -> (r: String)
    ensures
        r@ == decimal(n as int),
{
    let mut out = String::new();
    push_digits(&mut out, n as u64);
    assert(Seq::<char>::empty() + decimal_digits(n as nat) =~= decimal(n as int));
    out
}

proof fn lemma_digits_write_the_number(n: nat)
    ensures
        decimal_value(decimal_digits(n)) == n,
        decimal_digits(n).len() > 0,
        forall|i: int|
            0 <= i < decimal_digits(n).len() ==> ascii_digit(#[trigger] decimal_digits(n)[i]),
    decreases n,
{
    let digits = decimal_digits(n);
    if n < 10 {
        assert(digits.drop_last() =~= Seq::<char>::empty());
        assert(decimal_value(Seq::<char>::empty()) == 0);
    } else {
        lemma_digits_write_the_number(n / 10);
        assert(digits.drop_last() =~= decimal_digits(n / 10));
    }
}

/// An integer in decimal is written with digits alone, but for the sign of a negative one, and the
/// digits write its absolute value. So no two integers are written alike.
pub proof fn law_decimal_writes_the_number(n: int)
    ensures
        n >= 0 ==> decimal_value(decimal(n)) == n && decimal(n)[0] != '-',
        n < 0 ==> decimal(n)[0] == '-' && decimal_value(decimal(n).drop_first()) == -n,
        forall|m: int| #[trigger] decimal(m) == decimal(n) ==> m == n,
{
    assert forall|m: int| true implies {
        &&& m >= 0 ==> decimal_value(#[trigger] decimal(m)) == m && decimal(m)[0] != '-'
        &&& m < 0 ==> decimal(m)[0] == '-' && decimal_value(decimal(m).drop_first()) == -m
    } by {
        if m >= 0 {
            lemma_digits_write_the_number(m as nat);
            assert(ascii_digit(decimal(m)[0]));
        } else {
            lemma_digits_write_the_number((-m) as nat);
            assert(decimal(m).drop_first() =~= decimal_digits((-m) as nat));
        }
    }
}

/// A text that may be missing.
pub open spec fn optional_text(s: Option<String>) -> Option<Seq<char>> {
    match s {
        Some(s) => Some(s@),
        None => None,
    }
}

/// `a` followed by `b`.
pub fn concat(a: &str, b: &str) -> (r: String)
    ensures
        r@ == a@ + b@,
{
    let mut out = a.to_owned();
    out.append(b);
    out
}

/// `a`, `b` and `c` one after the other.
pub fn concat3(a: &str, b: &str, c: &str) -> (r: String)
    ensures
        r@ == a@ + b@ + c@,
{
    let mut out = concat(a, b);
    out.append(c);
    out
}

} // verus!
