//! What holds of object identifiers, whatever a user writes.

use crate::object_id::{
    all_digits, all_letters, decimal_digit, infer_survey_from_objectid, inferred,
    lemma_lsst_prefixed_unique, lemma_ztf_bare_unique, lemma_ztf_prefixed_unique, lsst_prefixed,
    ztf_bad_formatting, ztf_bad_formatting_message, ztf_bare, ztf_prefixed,
};
use crate::survey::Survey;
use crate::text::{
    ascii_digit, ascii_letter, decimal_value, lower, lower_char, trimmed, trimmed_end,
    trimmed_start, unsigned_literal, upper, upper_char, white_space,
};
use vstd::prelude::*;

verus! {

/// The survey and the normal form of an identifier that is accepted.
pub open spec fn accepted(value: Seq<char>) -> Option<(Survey, Seq<char>)> {
    match inferred(value) {
        Ok(pair) => Some(pair),
        Err(_) => None,
    }
}

/// The survey of an identifier that is accepted.
pub open spec fn survey_of(value: Seq<char>) -> Option<Survey> {
    match inferred(value) {
        Ok((survey, _)) => Some(survey),
        Err(_) => None,
    }
}

/// The normal form of an identifier that is accepted.
pub open spec fn normal_form(value: Seq<char>) -> Seq<char> {
    match inferred(value) {
        Ok((_, id)) => id,
        Err(_) => Seq::empty(),
    }
}

pub open spec fn all_white_space(s: Seq<char>) -> bool {
    forall|i: int| 0 <= i < s.len() ==> white_space(#[trigger] s[i])
}

proof fn lemma_trimmed_start_skips(a: Seq<char>, s: Seq<char>)
    requires
        all_white_space(a),
    ensures
        trimmed_start(a + s) == trimmed_start(s),
    decreases a.len(),
{
    if a.len() == 0 {
        assert(a + s =~= s);
    } else {
        assert(white_space(a[0]));
        assert((a + s)[0] == a[0]);
        assert((a + s).drop_first() =~= a.drop_first() + s);
        assert forall|i: int| 0 <= i < a.drop_first().len() implies white_space(
            #[trigger] a.drop_first()[i],
        ) by {
            assert(white_space(a[i + 1]));
        }
        lemma_trimmed_start_skips(a.drop_first(), s);
    }
}

proof fn lemma_trimmed_end_skips(s: Seq<char>, b: Seq<char>)
    requires
        all_white_space(b),
    ensures
        trimmed_end(s + b) == trimmed_end(s),
    decreases b.len(),
{
    if b.len() == 0 {
        assert(s + b =~= s);
    } else {
        assert(white_space(b[b.len() - 1]));
        assert((s + b).last() == b.last());
        assert((s + b).drop_last() =~= s + b.drop_last());
        assert forall|i: int| 0 <= i < b.drop_last().len() implies white_space(
            #[trigger] b.drop_last()[i],
        ) by {
            assert(white_space(b[i]));
        }
        lemma_trimmed_end_skips(s, b.drop_last());
    }
}

proof fn lemma_trimmed_start_keeps_end(s: Seq<char>, b: Seq<char>)
    requires
        all_white_space(b),
    ensures
        trimmed_start(s).len() > 0 ==> trimmed_start(s + b) == trimmed_start(s) + b,
        trimmed_start(s).len() == 0 ==> trimmed_start(s + b).len() == 0,
    decreases s.len(),
{
    if s.len() == 0 {
        assert(s + b =~= b);
        assert(b + Seq::<char>::empty() =~= b);
        lemma_trimmed_start_skips(b, Seq::<char>::empty());
    } else if white_space(s[0]) {
        assert((s + b)[0] == s[0]);
        assert((s + b).drop_first() =~= s.drop_first() + b);
        lemma_trimmed_start_keeps_end(s.drop_first(), b);
    } else {
        assert((s + b)[0] == s[0]);
    }
}

/// White space around an identifier changes nothing.
pub proof fn law_white_space_around_is_ignored(
    before: Seq<char>,
    value: Seq<char>,
    after: Seq<char>,
)
    requires
        all_white_space(before),
        all_white_space(after),
    ensures
        accepted(before + value + after) == accepted(value),
{
    assert(before + value + after =~= before + (value + after));
    lemma_trimmed_start_skips(before, value + after);
    lemma_trimmed_start_keeps_end(value, after);
    if trimmed_start(value).len() > 0 {
        lemma_trimmed_end_skips(trimmed_start(value), after);
    } else {
        assert(trimmed_start(value + after) =~= trimmed_start(value));
    }
    assert(trimmed(before + value + after) == trimmed(value));
}

proof fn lemma_upper_trimmed_start(s: Seq<char>)
    ensures
        trimmed_start(upper(s)) == upper(trimmed_start(s)),
    decreases s.len(),
{
    if s.len() > 0 {
        assert(white_space(upper_char(s[0])) == white_space(s[0]));
        assert(upper(s).drop_first() =~= upper(s.drop_first()));
        lemma_upper_trimmed_start(s.drop_first());
    }
}

proof fn lemma_upper_trimmed_end(s: Seq<char>)
    ensures
        trimmed_end(upper(s)) == upper(trimmed_end(s)),
    decreases s.len(),
{
    if s.len() > 0 {
        assert(white_space(upper_char(s.last())) == white_space(s.last()));
        assert(upper(s).drop_last() =~= upper(s.drop_last()));
        lemma_upper_trimmed_end(s.drop_last());
    }
}

proof fn lemma_upper_at(p: Seq<char>, q: Seq<char>, i: int)
    requires
        upper(p) == upper(q),
        0 <= i < p.len(),
    ensures
        p.len() == q.len(),
        upper_char(p[i]) == upper_char(q[i]),
{
    assert(upper(p).len() == p.len());
    assert(upper(q).len() == q.len());
    assert(upper(p)[i] == upper_char(p[i]));
    assert(upper(q)[i] == upper_char(q[i]));
}

/// Characters that differ in case alone have the same lower case form.
proof fn lemma_case_chars(a: char, b: char)
    requires
        upper_char(a) == upper_char(b),
    ensures
        lower_char(a) == lower_char(b),
        ascii_letter(a) == ascii_letter(b),
        !ascii_letter(a) ==> a == b,
{
}

proof fn lemma_bare_ignores_case(p: Seq<char>, q: Seq<char>, digits: Seq<char>, letters: Seq<char>)
    requires
        upper(p) == upper(q),
        ztf_bare(p, digits, letters),
    ensures
        ztf_bare(q, digits, q.subrange(2, q.len() as int)),
        lower(q.subrange(2, q.len() as int)) == lower(letters),
{
    lemma_upper_at(p, q, 0);
    let rest = q.subrange(2, q.len() as int);
    assert forall|i: int| 0 <= i < 2 implies q[i] == digits[i] by {
        assert(p[i] == digits[i]);
        assert(decimal_digit(digits[i]));
        lemma_upper_at(p, q, i);
        lemma_case_chars(p[i], q[i]);
    }
    assert forall|i: int| 0 <= i < rest.len() implies ascii_letter(#[trigger] rest[i]) && lower_char(
        rest[i],
    ) == lower_char(letters[i]) by {
        assert(p[i + 2] == letters[i]);
        assert(ascii_letter(letters[i]));
        lemma_upper_at(p, q, i + 2);
        lemma_case_chars(p[i + 2], q[i + 2]);
    }
    assert(q =~= digits + rest);
    assert(lower(rest) =~= lower(letters));
}

proof fn lemma_literal_ignores_case(p: Seq<char>, q: Seq<char>)
    requires
        upper(p) == upper(q),
        unsigned_literal(p),
    ensures
        p == q,
{
    assert(p.len() > 0);
    lemma_upper_at(p, q, 0);
    let digits = if p[0] == '+' {
        p.drop_first()
    } else {
        p
    };
    assert forall|i: int| 0 <= i < p.len() implies p[i] == q[i] by {
        lemma_upper_at(p, q, i);
        if p[0] == '+' {
            if i > 0 {
                assert(ascii_digit(digits[i - 1]));
            }
        } else {
            assert(ascii_digit(digits[i]));
        }
        lemma_case_chars(p[i], q[i]);
    }
    assert(p =~= q);
}

/// The case of the letters of an identifier changes nothing.
pub proof fn law_case_is_ignored(a: Seq<char>, b: Seq<char>)
    requires
        upper(a) == upper(b),
    ensures
        accepted(a) == accepted(b),
{
    let p = trimmed(a);
    let q = trimmed(b);
    lemma_upper_trimmed_start(a);
    lemma_upper_trimmed_start(b);
    lemma_upper_trimmed_end(trimmed_start(a));
    lemma_upper_trimmed_end(trimmed_start(b));
    assert(upper(p) == upper(q));
    if exists|d: Seq<char>, l: Seq<char>| ztf_bare(p, d, l) {
        let (d, l) = choose|d: Seq<char>, l: Seq<char>| ztf_bare(p, d, l);
        lemma_bare_ignores_case(p, q, d, l);
        let (d2, l2) = choose|d: Seq<char>, l: Seq<char>| ztf_bare(q, d, l);
        lemma_ztf_bare_unique(q, d, q.subrange(2, q.len() as int), d2, l2);
    } else if exists|d: Seq<char>, l: Seq<char>| ztf_bare(q, d, l) {
        let (d, l) = choose|d: Seq<char>, l: Seq<char>| ztf_bare(q, d, l);
        lemma_bare_ignores_case(q, p, d, l);
    }
    if unsigned_literal(p) {
        lemma_literal_ignores_case(p, q);
    }
    if unsigned_literal(q) {
        lemma_literal_ignores_case(q, p);
    }
}

/// A text that neither starts nor ends with white space is not trimmed.
proof fn lemma_trimmed_of_plain(s: Seq<char>)
    requires
        s.len() > 0,
        !white_space(s[0]),
        !white_space(s.last()),
    ensures
        trimmed(s) == s,
{
}

proof fn lemma_digit_facts(c: char)
    requires
        decimal_digit(c),
    ensures
        !white_space(c),
        !ascii_letter(c),
        upper_char(c) == c,
{
}

proof fn lemma_letter_facts(c: char)
    requires
        ascii_letter(c),
    ensures
        !white_space(c),
        ascii_letter(upper_char(c)),
        ascii_letter(lower_char(c)),
        lower_char(upper_char(c)) == lower_char(c),
        lower_char(lower_char(c)) == lower_char(c),
        upper_char(lower_char(c)) == upper_char(c),
{
}

/// `ZTF` with digits and letters is accepted in any case, where its digits are two or no letters
/// follow them.
proof fn lemma_prefixed_is_accepted(digits: Seq<char>, letters: Seq<char>)
    requires
        1 <= digits.len() <= 2,
        all_digits(digits),
        letters.len() <= 7,
        all_letters(letters),
    ensures
        accepted("ZTF"@ + digits + letters) == (if letters.len() > 0 && digits.len() != 2 {
            None::<(Survey, Seq<char>)>
        } else {
            Some((Survey::Ztf, "ZTF"@ + digits + lower(letters)))
        }),
{
    reveal_strlit("ZTF");
    reveal_strlit("ZT");
    reveal_strlit("Z");
    let s = "ZTF"@ + digits + letters;
    assert("ZTF"@[0] == 'Z' && "ZTF"@[1] == 'T' && "ZTF"@[2] == 'F');
    assert(s[0] == 'Z');
    if letters.len() > 0 {
        assert(s.last() == letters.last());
        lemma_letter_facts(letters.last());
    } else {
        assert(s.last() == digits.last());
        lemma_digit_facts(digits.last());
    }
    lemma_trimmed_of_plain(s);
    let capital = upper(s);
    let big = upper(letters);
    assert forall|i: int| 0 <= i < digits.len() implies upper_char(digits[i]) == digits[i] by {
        lemma_digit_facts(digits[i]);
    }
    assert forall|i: int| 0 <= i < big.len() implies ascii_letter(#[trigger] big[i]) && lower_char(
        big[i],
    ) == lower_char(letters[i]) by {
        lemma_letter_facts(letters[i]);
    }
    assert(upper_char('Z') == 'Z' && upper_char('T') == 'T' && upper_char('F') == 'F');
    assert(capital =~= "ZTF"@ + digits + big);
    assert(lower(big) =~= lower(letters));
    assert(ztf_prefixed(capital, digits, big));
    let (d, l) = choose|d: Seq<char>, l: Seq<char>| ztf_prefixed(capital, d, l);
    lemma_ztf_prefixed_unique(capital, digits, big, d, l);
}

/// The digits and the letters that an accepted identifier of ZTF is made of, where it is more than
/// a beginning of the prefix.
proof fn ztf_parts(value: Seq<char>) -> (parts: (Seq<char>, Seq<char>))
    requires
        survey_of(value) == Some(Survey::Ztf),
        normal_form(value) != "ZTF"@,
    ensures
        normal_form(value) == "ZTF"@ + parts.0 + lower(parts.1),
        1 <= parts.0.len() <= 2,
        all_digits(parts.0),
        parts.1.len() <= 7,
        all_letters(parts.1),
        parts.1.len() == 0 || parts.0.len() == 2,
{
    let plain = trimmed(value);
    let capital = upper(plain);
    if exists|d: Seq<char>, l: Seq<char>| ztf_prefixed(capital, d, l) {
        let (d, l) = choose|d: Seq<char>, l: Seq<char>| ztf_prefixed(capital, d, l);
        (d, l)
    } else {
        let (d, l) = choose|d: Seq<char>, l: Seq<char>| ztf_bare(plain, d, l);
        (d, l)
    }
}

/// The normal form of an identifier of ZTF is its own normal form.
pub proof fn law_ztf_normal_form_is_stable(value: Seq<char>)
    requires
        survey_of(value) == Some(Survey::Ztf),
    ensures
        accepted(normal_form(value)) == accepted(value),
{
    reveal_strlit("ZTF");
    reveal_strlit("ZT");
    reveal_strlit("Z");
    let id = normal_form(value);
    if id == "ZTF"@ {
        assert("ZTF"@[0] == 'Z' && "ZTF"@[1] == 'T' && "ZTF"@[2] == 'F');
        lemma_trimmed_of_plain(id);
        assert(upper(id) =~= id);
    } else {
        let (digits, letters) = ztf_parts(value);
        let small = lower(letters);
        assert forall|i: int| 0 <= i < small.len() implies ascii_letter(#[trigger] small[i]) && lower_char(
            small[i],
        ) == small[i] by {
            lemma_letter_facts(letters[i]);
        }
        assert(lower(small) =~= small);
        lemma_prefixed_is_accepted(digits, small);
    }
}

/// The prefix of an identifier of ZTF may be left out, where two digits and a letter follow it.
pub proof fn law_ztf_prefix_is_optional(digits: Seq<char>, letters: Seq<char>)
    requires
        digits.len() == 2,
        all_digits(digits),
        1 <= letters.len() <= 7,
        all_letters(letters),
    ensures
        accepted(digits + letters) == Some((Survey::Ztf, "ZTF"@ + digits + lower(letters))),
        accepted("ZTF"@ + digits + letters) == accepted(digits + letters),
{
    reveal_strlit("ZTF");
    reveal_strlit("ZT");
    reveal_strlit("Z");
    lemma_prefixed_is_accepted(digits, letters);
    let s = digits + letters;
    assert(decimal_digit(digits[0]));
    assert(s[0] == digits[0]);
    lemma_digit_facts(digits[0]);
    assert(s.last() == letters.last());
    lemma_letter_facts(letters.last());
    lemma_trimmed_of_plain(s);
    let capital = upper(s);
    assert(capital[0] == digits[0]);
    assert("ZTF"@[0] == 'Z' && "ZT"@[0] == 'Z' && "Z"@[0] == 'Z');
    assert forall|d: Seq<char>, l: Seq<char>| !ztf_prefixed(capital, d, l) by {
        if ztf_prefixed(capital, d, l) {
            assert(capital[0] == "ZTF"@[0]);
        }
    }
    assert(ztf_bare(s, digits, letters));
    let (d, l) = choose|d: Seq<char>, l: Seq<char>| ztf_bare(s, d, l);
    lemma_ztf_bare_unique(s, digits, letters, d, l);
}

/// The prefix of an identifier of LSST may be left out, where what follows it is a number of at
/// most 64 bits in ASCII digits.
pub proof fn law_lsst_prefix_is_optional(digits: Seq<char>)
    requires
        digits.len() > 0,
        forall|i: int| 0 <= i < digits.len() ==> ascii_digit(#[trigger] digits[i]),
        decimal_value(digits) <= u64::MAX,
    ensures
        accepted(digits) == Some((Survey::Lsst, digits)),
        accepted("LSST"@ + digits) == accepted(digits),
{
    reveal_strlit("ZTF");
    reveal_strlit("ZT");
    reveal_strlit("Z");
    reveal_strlit("L");
    reveal_strlit("LS");
    reveal_strlit("LSS");
    reveal_strlit("LSST");
    assert("ZTF"@[0] == 'Z' && "ZT"@[0] == 'Z' && "Z"@[0] == 'Z');
    assert("L"@[0] == 'L' && "LS"@[0] == 'L' && "LSS"@[0] == 'L' && "LSST"@[0] == 'L');
    assert("LSST"@[1] == 'S' && "LSST"@[2] == 'S' && "LSST"@[3] == 'T');
    assert(all_digits(digits));
    assert(ascii_digit(digits[0]));
    assert(ascii_digit(digits[digits.len() - 1]));
    // Without the prefix.
    lemma_trimmed_of_plain(digits);
    assert(upper(digits) =~= digits) by {
        assert forall|i: int| 0 <= i < digits.len() implies upper_char(digits[i]) == digits[i] by {
            assert(ascii_digit(digits[i]));
        }
    }
    assert forall|d: Seq<char>, l: Seq<char>| !ztf_prefixed(digits, d, l) by {
        if ztf_prefixed(digits, d, l) {
            assert(digits[0] == "ZTF"@[0]);
        }
    }
    assert forall|d: Seq<char>, l: Seq<char>| !ztf_bare(digits, d, l) by {
        if ztf_bare(digits, d, l) {
            assert(digits[2] == l[0]);
            assert(ascii_letter(l[0]));
            assert(ascii_digit(digits[2]));
        }
    }
    assert forall|d: Seq<char>| !lsst_prefixed(digits, d) by {
        if lsst_prefixed(digits, d) {
            assert(digits[0] == "LSST"@[0]);
        }
    }
    assert(unsigned_literal(digits));
    // With it.
    let s = "LSST"@ + digits;
    assert(s[0] == 'L');
    assert(s.last() == digits.last());
    lemma_trimmed_of_plain(s);
    assert(upper(s) =~= s) by {
        assert forall|i: int| 0 <= i < s.len() implies upper_char(s[i]) == s[i] by {
            if i >= 4 {
                assert(s[i] == digits[i - 4]);
                assert(ascii_digit(digits[i - 4]));
            }
        }
    }
    assert forall|d: Seq<char>, l: Seq<char>| !ztf_prefixed(s, d, l) by {
        if ztf_prefixed(s, d, l) {
            assert(s[0] == "ZTF"@[0]);
        }
    }
    assert forall|d: Seq<char>, l: Seq<char>| !ztf_bare(s, d, l) by {
        if ztf_bare(s, d, l) {
            assert(s[0] == d[0]);
            assert(decimal_digit(d[0]));
        }
    }
    assert(lsst_prefixed(s, digits));
    let d = choose|d: Seq<char>| lsst_prefixed(s, d);
    lemma_lsst_prefixed_unique(s, digits, d);
}

/// A normal form starts with `ZTF` and holds letters and digits alone, or is one of LSST and holds
/// digits alone, but for a plus sign that may stand before them.
pub proof fn law_normal_form_is_plain(value: Seq<char>)
    requires
        accepted(value) is Some,
    ensures
        survey_of(value) == Some(Survey::Ztf) ==> "ZTF"@.is_prefix_of(normal_form(value)) && (
        forall|i: int|
            0 <= i < normal_form(value).len() ==> ascii_letter(#[trigger] normal_form(value)[i])
                || decimal_digit(normal_form(value)[i])),
        survey_of(value) != Some(Survey::Ztf) ==> survey_of(value) == Some(Survey::Lsst) && (forall|
            i: int,
        |
            0 <= i < normal_form(value).len() ==> decimal_digit(#[trigger] normal_form(value)[i])
                || (i == 0 && normal_form(value)[i] == '+')),
{
    reveal_strlit("ZTF");
    reveal_strlit("");
    let survey = survey_of(value)->0;
    let id = normal_form(value);
    let plain = trimmed(value);
    let capital = upper(plain);
    assert("ZTF"@[0] == 'Z' && "ZTF"@[1] == 'T' && "ZTF"@[2] == 'F');
    if survey == Survey::Ztf {
        if id != "ZTF"@ {
            let (digits, letters) = ztf_parts(value);
            assert("ZTF"@ =~= id.subrange(0, 3));
            assert forall|i: int| 0 <= i < id.len() implies ascii_letter(#[trigger] id[i])
                || decimal_digit(id[i]) by {
                if 3 <= i < 3 + digits.len() {
                    assert(id[i] == digits[i - 3]);
                } else if i >= 3 + digits.len() {
                    assert(id[i] == lower_char(letters[i - 3 - digits.len()]));
                    lemma_letter_facts(letters[i - 3 - digits.len()]);
                }
            }
        } else {
            assert("ZTF"@ =~= id.subrange(0, 3));
        }
    } else if !(capital == "L"@ || capital == "LS"@ || capital == "LSS"@ || capital == "LSST"@) && !(
    exists|d: Seq<char>| lsst_prefixed(capital, d)) {
        assert(unsigned_literal(id));
        assert(id.len() > 0);
        assert forall|i: int| 0 <= i < id.len() implies decimal_digit(#[trigger] id[i]) || (i == 0
            && id[i] == '+') by {
            if id[0] == '+' {
                if i > 0 {
                    assert(ascii_digit(id.drop_first()[i - 1]));
                }
            } else {
                assert(ascii_digit(id[i]));
            }
        }
    }
}

/// What is returned of an identifier is its survey and its normal form, or a refusal that quotes
/// it.
pub proof fn law_a_refusal_quotes_the_identifier(
    value: &str,
    r: Result<(Survey, String), String>,
) -> (reason: Seq<char>)
    requires
        call_ensures(infer_survey_from_objectid, (value,), r),
    ensures
        r is Ok <==> accepted(value@) is Some,
        r is Ok ==> accepted(value@) == Some((r->Ok_0.0, r->Ok_0.1@)),
        r is Err ==> r->Err_0@ == "Invalid objectId format: "@ + value@ + reason,
{
    if let Err(message) = r {
        let n = "Invalid objectId format: "@.len() + value@.len();
        let reason = message@.skip(n as int);
        assert(message@ =~= "Invalid objectId format: "@ + value@ + reason);
        reason
    } else {
        seq![]
    }
}

/// What a user is told of a name of ZTF that is badly formed quotes the whole name, between a
/// beginning and an end that do not follow it.
pub proof fn law_the_message_on_ztf_quotes_the_name(
    a: &str,
    b: &str,
    message_a: String,
    message_b: String,
)
    requires
        call_ensures(ztf_bad_formatting_message, (a,), message_a),
        call_ensures(ztf_bad_formatting_message, (b,), message_b),
    ensures
        message_a@.len() >= 25int + a@.len(),
        message_a@.take(25) == "Invalid objectId format: "@,
        message_a@.subrange(25, 25int + a@.len()) == a@,
        message_a@.skip(25int + a@.len()) == message_b@.skip(25int + b@.len()),
        message_a@ == message_b@ ==> a@ == b@,
{
    reveal_strlit("Invalid objectId format: ");
    assert(message_a@.take(25) =~= "Invalid objectId format: "@);
    assert(message_a@.subrange(25, 25int + a@.len()) =~= a@);
    assert(message_b@.subrange(25, 25int + b@.len()) =~= b@);
    let end = message_a@.skip(25int + a@.len());
    assert(end =~= message_b@.skip(25int + b@.len()));
}

/// `ZTF` with one or two digits, and with up to seven letters behind two of them, is an identifier
/// of ZTF, with its letters in lower case. Letters behind one digit are refused.
pub proof fn law_names_of_ztf_are_recognised(
    value: &str,
    digits: Seq<char>,
    letters: Seq<char>,
    r: Result<(Survey, String), String>,
)
    requires
        call_ensures(infer_survey_from_objectid, (value,), r),
        value@ == "ZTF"@ + digits + letters,
        1 <= digits.len() <= 2,
        all_digits(digits),
        letters.len() <= 7,
        all_letters(letters),
    ensures
        r is Ok <==> letters.len() == 0 || digits.len() == 2,
        r is Ok ==> r->Ok_0.0 == Survey::Ztf && r->Ok_0.1@ == "ZTF"@ + digits + lower(letters),
        r is Err ==> r->Err_0@ == "Invalid objectId format: "@ + value@
            + ". ZTF names must look like ZTF + YY + 7 letters (partial is accepted, can omit the ZTF prefix)"@,
{
    lemma_prefixed_is_accepted(digits, letters);
    if r is Err {
        lemma_refused_names_of_ztf(value@, digits, letters);
    }
}

proof fn lemma_refused_names_of_ztf(value: Seq<char>, digits: Seq<char>, letters: Seq<char>)
    requires
        value == "ZTF"@ + digits + letters,
        digits.len() == 1,
        all_digits(digits),
        1 <= letters.len() <= 7,
        all_letters(letters),
    ensures
        inferred(value) == Err::<(Survey, Seq<char>), Seq<char>>(ztf_bad_formatting(value)),
{
    reveal_strlit("ZTF");
    reveal_strlit("ZT");
    reveal_strlit("Z");
    assert("ZTF"@.len() == 3 && "ZT"@.len() == 2 && "Z"@.len() == 1);
    assert("ZTF"@[0] == 'Z' && "ZTF"@[1] == 'T' && "ZTF"@[2] == 'F');
    assert(value[0] == 'Z');
    assert(value.last() == letters.last());
    assert(ascii_letter(letters[letters.len() - 1]));
    lemma_trimmed_of_plain(value);
    let capital = upper(value);
    assert(capital =~= "ZTF"@ + upper(digits) + upper(letters));
    assert(decimal_digit(digits[0]));
    assert(upper(digits) =~= digits);
    assert forall|i: int| 0 <= i < letters.len() implies ascii_letter(
        #[trigger] upper(letters)[i],
    ) by {
        assert(ascii_letter(letters[i]));
    }
    assert(ztf_prefixed(capital, digits, upper(letters)));
    let (d, l) = choose|d: Seq<char>, l: Seq<char>| ztf_prefixed(capital, d, l);
    lemma_ztf_prefixed_unique(capital, digits, upper(letters), d, l);
}

/// A beginning of `ZTF` or `LSST` alone, whatever its case and the white space around it, is a name
/// of the survey: in ZTF its prefix, in LSST nothing. Any refusal says that the name is badly
/// formed, as one of ZTF where it begins with `ZTF`, or that it belongs to no survey.
pub proof fn law_beginnings_of_the_prefixes_are_names(
    value: &str,
    r: Result<(Survey, String), String>,
)
    requires
        call_ensures(infer_survey_from_objectid, (value,), r),
    ensures
        ({
            let capital = upper(trimmed(value@));
            let of_ztf = "Invalid objectId format: "@ + value@
                + ". ZTF names must look like ZTF + YY + 7 letters (partial is accepted, can omit the ZTF prefix)"@;
            let of_none = "Invalid objectId format: "@ + value@
                + ". Could not infer survey from given value"@;
            &&& capital == "Z"@ || capital == "ZT"@ || capital == "ZTF"@ ==> r is Ok && r->Ok_0.0
                == Survey::Ztf && r->Ok_0.1@ == "ZTF"@
            &&& capital == "L"@ || capital == "LS"@ || capital == "LSS"@ || capital == "LSST"@
                ==> r is Ok && r->Ok_0.0 == Survey::Lsst && r->Ok_0.1@.len() == 0
            &&& r is Err ==> r->Err_0@ == of_ztf || r->Err_0@ == of_none
            &&& r is Err && !("ZTF"@.is_prefix_of(capital)) ==> r->Err_0@ == of_none
        }),
{
    let plain = trimmed(value@);
    let capital = upper(plain);
    reveal_strlit("");
    reveal_strlit("ZTF");
    reveal_strlit("ZT");
    reveal_strlit("Z");
    reveal_strlit("L");
    reveal_strlit("LS");
    reveal_strlit("LSS");
    reveal_strlit("LSST");
    assert(capital.len() == plain.len());
    if capital == "L"@ || capital == "LS"@ || capital == "LSS"@ || capital == "LSST"@ {
        assert(capital[0] == 'L');
        assert(upper_char(plain[0]) == 'L');
        assert forall|d: Seq<char>, l: Seq<char>| !ztf_prefixed(capital, d, l) by {
            if ztf_prefixed(capital, d, l) {
                assert(capital[0] == "ZTF"@[0]);
            }
        }
        assert forall|d: Seq<char>, l: Seq<char>| !ztf_bare(plain, d, l) by {
            if ztf_bare(plain, d, l) {
                assert(plain[0] == d[0]);
                assert(decimal_digit(d[0]));
            }
        }
    }
    if exists|d: Seq<char>, l: Seq<char>| ztf_prefixed(capital, d, l) {
        let (d, l) = choose|d: Seq<char>, l: Seq<char>| ztf_prefixed(capital, d, l);
        assert("ZTF"@.is_prefix_of(capital)) by {
            assert(capital.subrange(0, 3) =~= "ZTF"@);
        }
    }
}

/// Two digits and from one to seven letters are an identifier of ZTF without its prefix.
pub proof fn law_names_of_ztf_are_recognised_without_the_prefix(
    value: &str,
    digits: Seq<char>,
    letters: Seq<char>,
    r: Result<(Survey, String), String>,
)
    requires
        call_ensures(infer_survey_from_objectid, (value,), r),
        value@ == digits + letters,
        digits.len() == 2,
        all_digits(digits),
        1 <= letters.len() <= 7,
        all_letters(letters),
    ensures
        r is Ok,
        r->Ok_0.0 == Survey::Ztf,
        r->Ok_0.1@ == "ZTF"@ + digits + lower(letters),
{
    law_ztf_prefix_is_optional(digits, letters);
}

/// Digits that write a number of at most 64 bits are an identifier of LSST as they stand, also
/// behind a plus sign.
pub proof fn law_numbers_are_names_of_lsst(
    value: &str,
    digits: Seq<char>,
    r: Result<(Survey, String), String>,
)
    requires
        call_ensures(infer_survey_from_objectid, (value,), r),
        value@ == digits || value@ == seq!['+'] + digits,
        digits.len() > 0,
        forall|i: int| 0 <= i < digits.len() ==> ascii_digit(#[trigger] digits[i]),
        decimal_value(digits) <= u64::MAX,
    ensures
        r is Ok,
        r->Ok_0.0 == Survey::Lsst,
        r->Ok_0.1@ == value@,
{
    if value@ == digits {
        law_lsst_prefix_is_optional(digits);
    } else {
        let s = value@;
        reveal_strlit("ZTF");
        reveal_strlit("ZT");
        reveal_strlit("Z");
        reveal_strlit("L");
        reveal_strlit("LS");
        reveal_strlit("LSS");
        reveal_strlit("LSST");
        assert("ZTF"@[0] == 'Z' && "ZT"@[0] == 'Z' && "Z"@[0] == 'Z');
        assert("L"@[0] == 'L' && "LS"@[0] == 'L' && "LSS"@[0] == 'L' && "LSST"@[0] == 'L');
        assert(s[0] == '+');
        assert(s.last() == digits.last());
        assert(ascii_digit(digits[digits.len() - 1]));
        lemma_trimmed_of_plain(s);
        assert(upper(s)[0] == '+');
        assert forall|d: Seq<char>, l: Seq<char>| !ztf_prefixed(upper(s), d, l) by {
            if ztf_prefixed(upper(s), d, l) {
                assert(upper(s)[0] == "ZTF"@[0]);
            }
        }
        assert forall|d: Seq<char>, l: Seq<char>| !ztf_bare(s, d, l) by {
            if ztf_bare(s, d, l) {
                assert(s[0] == d[0]);
                assert(decimal_digit(d[0]));
            }
        }
        assert forall|d: Seq<char>| !lsst_prefixed(upper(s), d) by {
            if lsst_prefixed(upper(s), d) {
                assert(upper(s)[0] == "LSST"@[0]);
            }
        }
        assert(s.drop_first() =~= digits);
        assert(unsigned_literal(s));
    }
}

/// `LSST` with digits, however many, is an identifier of LSST: the digits.
pub proof fn law_names_of_lsst_are_recognised(
    value: &str,
    digits: Seq<char>,
    r: Result<(Survey, String), String>,
)
    requires
        call_ensures(infer_survey_from_objectid, (value,), r),
        value@ == "LSST"@ + digits,
        digits.len() > 0,
        forall|i: int| 0 <= i < digits.len() ==> ascii_digit(#[trigger] digits[i]),
    ensures
        r is Ok,
        r->Ok_0.0 == Survey::Lsst,
        r->Ok_0.1@ == digits,
{
    reveal_strlit("ZTF");
    reveal_strlit("ZT");
    reveal_strlit("Z");
    reveal_strlit("L");
    reveal_strlit("LS");
    reveal_strlit("LSS");
    reveal_strlit("LSST");
    assert("ZTF"@[0] == 'Z' && "ZT"@[0] == 'Z' && "Z"@[0] == 'Z');
    assert("L"@.len() == 1 && "LS"@.len() == 2 && "LSS"@.len() == 3 && "LSST"@.len() == 4);
    assert("LSST"@[0] == 'L' && "LSST"@[1] == 'S' && "LSST"@[2] == 'S' && "LSST"@[3] == 'T');
    let s = value@;
    assert(s[0] == 'L');
    assert(s.last() == digits.last());
    assert(ascii_digit(digits[digits.len() - 1]));
    lemma_trimmed_of_plain(s);
    assert(upper(s) =~= s) by {
        assert forall|i: int| 0 <= i < s.len() implies upper_char(s[i]) == s[i] by {
            if i >= 4 {
                assert(s[i] == digits[i - 4]);
                assert(ascii_digit(digits[i - 4]));
            }
        }
    }
    assert forall|d: Seq<char>, l: Seq<char>| !ztf_prefixed(s, d, l) by {
        if ztf_prefixed(s, d, l) {
            assert(s[0] == "ZTF"@[0]);
        }
    }
    assert forall|d: Seq<char>, l: Seq<char>| !ztf_bare(s, d, l) by {
        if ztf_bare(s, d, l) {
            assert(s[0] == d[0]);
            assert(decimal_digit(d[0]));
        }
    }
    assert(lsst_prefixed(s, digits));
    let d = choose|d: Seq<char>| lsst_prefixed(s, d);
    lemma_lsst_prefixed_unique(s, digits, d);
}

/// Whether this is the normal form of a name of ZTF: `ZTF`, one or two digits, and up to seven
/// small letters, none behind a single digit.
pub open spec fn is_ztf_name(id: Seq<char>, digits: Seq<char>, letters: Seq<char>) -> bool {
    &&& id == "ZTF"@ + digits + letters
    &&& 1 <= digits.len() <= 2
    &&& all_digits(digits)
    &&& letters.len() <= 7
    &&& letters.len() > 0 ==> digits.len() == 2
    &&& forall|i: int| 0 <= i < letters.len() ==> 'a' <= #[trigger] letters[i] <= 'z'
}

/// What is returned says what was written: of ZTF the name that was written, with or without its
/// prefix, or the prefix alone for a beginning of it; of LSST the digits behind the prefix, the
/// number that was written, or nothing for a beginning of the prefix.
pub proof fn law_the_normal_form_says_what_was_written(
    value: &str,
    r: Result<(Survey, String), String>,
)
    requires
        call_ensures(infer_survey_from_objectid, (value,), r),
        r is Ok,
    ensures
        ({
            let id = r->Ok_0.1@;
            let capital = upper(trimmed(value@));
            match r->Ok_0.0 {
                Survey::Ztf => {
                    ||| id == "ZTF"@ && (capital == "Z"@ || capital == "ZT"@ || capital == "ZTF"@)
                    ||| (exists|digits: Seq<char>, letters: Seq<char>| #[trigger]
                        is_ztf_name(id, digits, letters)) && (capital == upper(id) || "ZTF"@
                        + capital == upper(id))
                },
                Survey::Lsst => {
                    ||| id.len() == 0 && (capital == "L"@ || capital == "LS"@ || capital == "LSS"@
                        || capital == "LSST"@)
                    ||| id.len() > 0 && all_digits(id) && capital == "LSST"@ + id
                    ||| id == trimmed(value@) && unsigned_literal(id)
                },
                Survey::Decam => false,
            }
        }),
{
    reveal_strlit("ZTF");
    reveal_strlit("");
    assert("ZTF"@[0] == 'Z' && "ZTF"@[1] == 'T' && "ZTF"@[2] == 'F');
    assert(upper_char('Z') == 'Z' && upper_char('T') == 'T' && upper_char('F') == 'F');
    let id = r->Ok_0.1@;
    let plain = trimmed(value@);
    let capital = upper(plain);
    if r->Ok_0.0 == Survey::Ztf && !(capital == "Z"@ || capital == "ZT"@ || capital == "ZTF"@) {
        if exists|d: Seq<char>, l: Seq<char>| ztf_prefixed(capital, d, l) {
            let (d, l) = choose|d: Seq<char>, l: Seq<char>| ztf_prefixed(capital, d, l);
            lemma_written(d, l);
            assert(is_ztf_name(id, d, lower(l)));
            assert(capital =~= upper(id)) by {
                assert(upper(id) =~= "ZTF"@ + d + upper(l));
                assert forall|i: int| 0 <= i < l.len() implies upper_char(l[i]) == l[i] by {
                    let k = 3 + d.len() + i;
                    assert(capital.len() == 3 + d.len() + l.len() && capital.len() == plain.len());
                    assert(capital[k] == l[i]);
                    assert(capital[k] == upper_char(plain[k]));
                }
                assert(upper(l) =~= l);
            }
        } else {
            let (d, l) = choose|d: Seq<char>, l: Seq<char>| ztf_bare(plain, d, l);
            lemma_written(d, l);
            assert(is_ztf_name(id, d, lower(l)));
            assert(upper(id) =~= "ZTF"@ + d + upper(l));
            assert forall|i: int| 0 <= i < d.len() implies upper_char(d[i]) == d[i] by {
                lemma_digit_facts(d[i]);
            }
            assert(capital =~= d + upper(l));
            assert("ZTF"@ + capital =~= upper(id));
        }
    }
}

proof fn lemma_written(digits: Seq<char>, letters: Seq<char>)
    requires
        all_digits(digits),
        all_letters(letters),
    ensures
        forall|i: int| 0 <= i < letters.len() ==> 'a' <= #[trigger] lower(letters)[i] <= 'z',
        upper("ZTF"@ + digits + lower(letters)) == "ZTF"@ + digits + upper(letters),
{
    reveal_strlit("ZTF");
    assert("ZTF"@[0] == 'Z' && "ZTF"@[1] == 'T' && "ZTF"@[2] == 'F');
    assert(upper_char('Z') == 'Z' && upper_char('T') == 'T' && upper_char('F') == 'F');
    assert forall|i: int| 0 <= i < letters.len() implies 'a' <= #[trigger] lower(letters)[i]
        <= 'z' by {
        assert(ascii_letter(letters[i]));
    }
    assert forall|i: int| 0 <= i < digits.len() implies upper_char(digits[i]) == digits[i] by {
        lemma_digit_facts(digits[i]);
    }
    assert forall|i: int| 0 <= i < letters.len() implies upper_char(lower_char(letters[i]))
        == upper_char(letters[i]) by {
        lemma_letter_facts(letters[i]);
    }
    assert(upper("ZTF"@ + digits + lower(letters)) =~= "ZTF"@ + digits + upper(letters));
}

} // verus!
