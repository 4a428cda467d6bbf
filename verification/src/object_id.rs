//! Object identifiers as users write them: which survey they belong to, and their normal form.

use crate::survey::Survey;
use crate::text::{
    ascii_digit, ascii_letter, concat3, lower, parses_as_u64, trimmed, unsigned_literal, upper,
    white_space,
};
use regex::Regex;
use vstd::prelude::*;

verus! {

/// Whether a character outside ASCII is a decimal digit to the class `\d` of the `regex` crate,
/// which is the Unicode general category Nd.
pub uninterp spec fn wide_decimal_digit(c: char) -> bool;

/// A decimal digit in the sense of the class `\d` of the `regex` crate. No character is both a
/// digit and white space.
pub open spec fn decimal_digit(c: char) -> bool {
    if c <= '\u{7f}' {
        ascii_digit(c)
    } else {
        wide_decimal_digit(c) && !white_space(c)
    }
}

pub open spec fn all_digits(s: Seq<char>) -> bool {
    forall|i: int| 0 <= i < s.len() ==> decimal_digit(#[trigger] s[i])
}

pub open spec fn all_letters(s: Seq<char>) -> bool {
    forall|i: int| 0 <= i < s.len() ==> ascii_letter(#[trigger] s[i])
}

/// `ZTF`, one or two digits, and up to seven letters.
pub open spec fn ztf_prefixed(s: Seq<char>, digits: Seq<char>, letters: Seq<char>) -> bool {
    &&& s == "ZTF"@ + digits + letters
    &&& 1 <= digits.len() <= 2
    &&& all_digits(digits)
    &&& letters.len() <= 7
    &&& all_letters(letters)
}

/// Two digits and from one to seven letters.
pub open spec fn ztf_bare(s: Seq<char>, digits: Seq<char>, letters: Seq<char>) -> bool {
    &&& s == digits + letters
    &&& digits.len() == 2
    &&& all_digits(digits)
    &&& 1 <= letters.len() <= 7
    &&& all_letters(letters)
}

/// `LSST` and at least one digit.
pub open spec fn lsst_prefixed(s: Seq<char>, digits: Seq<char>) -> bool {
    &&& s == "LSST"@ + digits
    &&& digits.len() >= 1
    &&& all_digits(digits)
}

/// `Regex::new` compiles the pattern and `Regex::captures` gives the text of its groups, or nothing
/// where the text does not match. For the three patterns admitted here the contract says which
/// texts match and what the groups then are; where a digit is not ASCII, the class `\d` decides.
#[verifier::external_body]
fn captures(pattern: &str, text: &str) -> (r: Option<(String, Option<String>)>)
    requires
        pattern@ == r"^ZTF(\d{1,2})([a-zA-Z]{0,7})$"@ || pattern@
            == r"^(\d{2})([a-zA-Z]{1,7})$"@ || pattern@ == r"^LSST(\d+)$"@,
    ensures
        pattern@ == r"^ZTF(\d{1,2})([a-zA-Z]{0,7})$"@ ==> match r {
            Some((digits, Some(letters))) => ztf_prefixed(text@, digits@, letters@),
            Some((_, None)) => false,
            None => forall|digits: Seq<char>, letters: Seq<char>|
                !ztf_prefixed(text@, digits, letters),
        },
        pattern@ == r"^(\d{2})([a-zA-Z]{1,7})$"@ ==> match r {
            Some((digits, Some(letters))) => ztf_bare(text@, digits@, letters@),
            Some((_, None)) => false,
            None => forall|digits: Seq<char>, letters: Seq<char>| !ztf_bare(text@, digits, letters),
        },
        pattern@ == r"^LSST(\d+)$"@ ==> match r {
            Some((digits, letters)) => lsst_prefixed(text@, digits@) && letters is None,
            None => forall|digits: Seq<char>| !lsst_prefixed(text@, digits),
        },
        r matches Some((digits, _)) ==> forall|i: int|
            0 <= i < digits@.len() && digits@[i] > '\u{7f}' ==> wide_decimal_digit(
                #[trigger] digits@[i],
            ),
{
    let groups = Regex::new(pattern).unwrap().captures(text)?;
    Some((
        groups.get(1).unwrap().as_str().to_owned(),
        groups.get(2).map(|m| m.as_str().to_owned()),
    ))
}

/// What a user is told whose identifier looks like one of ZTF but is none.
pub open spec fn ztf_bad_formatting(value: Seq<char>) -> Seq<char> {
    "Invalid objectId format: "@ + value
        + ". ZTF names must look like ZTF + YY + 7 letters (partial is accepted, can omit the ZTF prefix)"@
}

/// What a user is told whose identifier looks like none of the surveys'.
pub open spec fn unknown_formatting(value: Seq<char>) -> Seq<char> {
    "Invalid objectId format: "@ + value + ". Could not infer survey from given value"@
}

/// The survey that an identifier belongs to and its normal form there, or what is wrong with it.
///
/// White space around it and the case of its letters do not matter. In turn: a beginning of `ZTF`
/// alone; `ZTF` with digits and letters, where letters need two digits before them; the
/// same without the prefix; a beginning of `LSST` alone; `LSST` with digits; a number.
pub open spec fn inferred(value: Seq<char>) -> Result<(Survey, Seq<char>), Seq<char>> {
    let plain = trimmed(value);
    let capital = upper(plain);
    if capital == "Z"@ || capital == "ZT"@ || capital == "ZTF"@ {
        Ok((Survey::Ztf, "ZTF"@))
    } else if exists|digits: Seq<char>, letters: Seq<char>| ztf_prefixed(capital, digits, letters) {
        let (digits, letters) = choose|digits: Seq<char>, letters: Seq<char>|
            ztf_prefixed(capital, digits, letters);
        if letters.len() > 0 && digits.len() != 2 {
            Err(ztf_bad_formatting(value))
        } else {
            Ok((Survey::Ztf, "ZTF"@ + digits + lower(letters)))
        }
    } else if exists|digits: Seq<char>, letters: Seq<char>| ztf_bare(plain, digits, letters) {
        let (digits, letters) = choose|digits: Seq<char>, letters: Seq<char>|
            ztf_bare(plain, digits, letters);
        Ok((Survey::Ztf, "ZTF"@ + digits + lower(letters)))
    } else if capital == "L"@ || capital == "LS"@ || capital == "LSS"@ || capital == "LSST"@ {
        Ok((Survey::Lsst, ""@))
    } else if exists|digits: Seq<char>| lsst_prefixed(capital, digits) {
        Ok((Survey::Lsst, choose|digits: Seq<char>| lsst_prefixed(capital, digits)))
    } else if unsigned_literal(plain) {
        Ok((Survey::Lsst, plain))
    } else {
        Err(unknown_formatting(value))
    }
}

pub(crate) proof fn lemma_ztf_prefixed_unique(
    s: Seq<char>,
    d1: Seq<char>,
    l1: Seq<char>,
    d2: Seq<char>,
    l2: Seq<char>,
)
    requires
        ztf_prefixed(s, d1, l1),
        ztf_prefixed(s, d2, l2),
    ensures
        d1 == d2,
        l1 == l2,
{
    let n = "ZTF"@.len();
    if d1.len() < d2.len() {
        assert(s[(n + d1.len()) as int] == d2[d1.len() as int]);
        assert(l1.len() > 0);
        assert(s[(n + d1.len()) as int] == l1[0]);
    } else if d2.len() < d1.len() {
        assert(s[(n + d2.len()) as int] == d1[d2.len() as int]);
        assert(l2.len() > 0);
        assert(s[(n + d2.len()) as int] == l2[0]);
    }
    assert forall|i: int| 0 <= i < d1.len() implies d1[i] == d2[i] by {
        assert(s[n + i] == d1[i]);
        assert(s[n + i] == d2[i]);
    }
    assert(d1 =~= d2);
    assert(s.len() == n + d1.len() + l1.len());
    assert(s.len() == n + d2.len() + l2.len());
    assert forall|i: int| 0 <= i < l1.len() implies l1[i] == l2[i] by {
        assert(s[n + d1.len() + i] == l1[i]);
        assert(s[n + d1.len() + i] == l2[i]);
    }
    assert(l1 =~= l2);
}

pub(crate) proof fn lemma_ztf_bare_unique(
    s: Seq<char>,
    d1: Seq<char>,
    l1: Seq<char>,
    d2: Seq<char>,
    l2: Seq<char>,
)
    requires
        ztf_bare(s, d1, l1),
        ztf_bare(s, d2, l2),
    ensures
        d1 == d2,
        l1 == l2,
{
    assert(d1 =~= s.subrange(0, 2));
    assert(d2 =~= s.subrange(0, 2));
    assert(l1 =~= s.subrange(2, s.len() as int));
    assert(l2 =~= s.subrange(2, s.len() as int));
}

pub(crate) proof fn lemma_lsst_prefixed_unique(s: Seq<char>, d1: Seq<char>, d2: Seq<char>)
    requires
        lsst_prefixed(s, d1),
        lsst_prefixed(s, d2),
    ensures
        d1 == d2,
{
    let n = "LSST"@.len() as int;
    assert(d1 =~= s.subrange(n, s.len() as int));
    assert(d2 =~= s.subrange(n, s.len() as int));
}

proof fn lemma_letters_are_ascii(s: Seq<char>)
    requires
        all_letters(s),
    ensures
        vstd::utf8::is_ascii_chars(s),
{
    assert forall|i: int| 0 <= i < s.len() implies 0 <= #[trigger] s[i] as u32 <= 0x7f by {
        assert(ascii_letter(s[i]));
    }
}

/// Tells a user that an identifier looks like one of ZTF but is none.
pub fn ztf_bad_formatting_message(value: &str) -> (r: String)
    ensures
        r@ == ztf_bad_formatting(value@),
{
    concat3(
        "Invalid objectId format: ",
        value,
        ". ZTF names must look like ZTF + YY + 7 letters (partial is accepted, can omit the ZTF prefix)",
    )
}

/// Infers the survey from an identifier and normalises the identifier.
pub fn infer_survey_from_objectid(value: &str) -> (r: Result<(Survey, String), String>)
    ensures
        match r {
            Ok((survey, id)) => inferred(value@) == Ok::<(Survey, Seq<char>), Seq<char>>(
                (survey, id@),
            ),
            Err(message) => inferred(value@) == Err::<(Survey, Seq<char>), Seq<char>>(message@),
        },
{
    let plain = value.trim();
    let capital = plain.to_ascii_uppercase();

    if capital == "Z".to_owned() || capital == "ZT".to_owned() || capital == "ZTF".to_owned() {
        return Ok((Survey::Ztf, "ZTF".to_owned()));
    }
    match captures(r"^ZTF(\d{1,2})([a-zA-Z]{0,7})$", capital.as_str()) {
        Some((digits, Some(letters))) => {
            proof {
                let (d, l) = choose|d: Seq<char>, l: Seq<char>| ztf_prefixed(capital@, d, l);
                lemma_ztf_prefixed_unique(capital@, digits@, letters@, d, l);
                lemma_letters_are_ascii(letters@);
            }
            if !letters.as_str().is_empty() && digits.as_str().unicode_len() != 2 {
                return Err(ztf_bad_formatting_message(value));
            }
            let small = letters.as_str().to_lowercase();
            return Ok((Survey::Ztf, concat3("ZTF", digits.as_str(), small.as_str())));
        },
        _ => {},
    }
    match captures(r"^(\d{2})([a-zA-Z]{1,7})$", plain) {
        Some((digits, Some(letters))) => {
            proof {
                let (d, l) = choose|d: Seq<char>, l: Seq<char>| ztf_bare(plain@, d, l);
                lemma_ztf_bare_unique(plain@, digits@, letters@, d, l);
                lemma_letters_are_ascii(letters@);
            }
            let small = letters.as_str().to_lowercase();
            return Ok((Survey::Ztf, concat3("ZTF", digits.as_str(), small.as_str())));
        },
        _ => {},
    }
    if capital == "L".to_owned() || capital == "LS".to_owned() || capital == "LSS".to_owned()
        || capital == "LSST".to_owned() {
        return Ok((Survey::Lsst, "".to_owned()));
    }
    if let Some((digits, _)) = captures(r"^LSST(\d+)$", capital.as_str()) {
        proof {
            let d = choose|d: Seq<char>| lsst_prefixed(capital@, d);
            lemma_lsst_prefixed_unique(capital@, digits@, d);
        }
        return Ok((Survey::Lsst, digits));
    }
    if parses_as_u64(plain) {
        return Ok((Survey::Lsst, plain.to_owned()));
    }
    Err(concat3("Invalid objectId format: ", value, ". Could not infer survey from given value"))
}

} // verus!
