use babamul_objects::object_id::{infer_survey_from_objectid, ztf_bad_formatting_message};
use babamul_objects::survey::Survey;

fn ztf(value: &str) -> String {
    let (survey, id) = infer_survey_from_objectid(value).unwrap();
    assert_eq!(survey, Survey::Ztf);
    id
}

fn lsst(value: &str) -> String {
    let (survey, id) = infer_survey_from_objectid(value).unwrap();
    assert_eq!(survey, Survey::Lsst);
    id
}

fn unknown(value: &str) {
    assert_eq!(
        infer_survey_from_objectid(value).unwrap_err(),
        format!("Invalid objectId format: {}. Could not infer survey from given value", value)
    );
}

#[test]
fn beginnings_of_ztf_are_the_prefix() {
    for value in ["Z", "zt", "ZTF", " ztf\t"] {
        assert_eq!(ztf(value), "ZTF");
    }
}

#[test]
fn prefixed_ztf_names_are_normalised() {
    assert_eq!(ztf("ZTF2"), "ZTF2");
    assert_eq!(ztf("ztf21"), "ZTF21");
    assert_eq!(ztf("ztf21AbC"), "ZTF21abc");
    assert_eq!(ztf("  ZTF21AAAAAAA\n"), "ZTF21aaaaaaa");
}

#[test]
fn bare_ztf_names_get_the_prefix() {
    assert_eq!(ztf("21a"), "ZTF21a");
    assert_eq!(ztf("21ABCDEFG"), "ZTF21abcdefg");
    assert_eq!(ztf("21abc"), ztf("ZTF21abc"));
}

#[test]
fn letters_need_two_digits() {
    let message = infer_survey_from_objectid(" ZTF2a").unwrap_err();
    assert_eq!(message, ztf_bad_formatting_message(" ZTF2a"));
    assert_eq!(
        message,
        "Invalid objectId format:  ZTF2a. ZTF names must look like ZTF + YY + 7 letters (partial is accepted, can omit the ZTF prefix)"
    );
}

#[test]
fn beginnings_of_lsst_are_empty() {
    for value in ["l", "Ls", "LSS", "lsst "] {
        assert_eq!(lsst(value), "");
    }
}

#[test]
fn lsst_names_are_their_digits() {
    assert_eq!(lsst("LSST123"), "123");
    assert_eq!(lsst("lsst00123456789012345678901234567890"), "00123456789012345678901234567890");
    assert_eq!(lsst(" 42 "), "42");
    assert_eq!(lsst("LSST42"), lsst("42"));
    assert_eq!(lsst("+7"), "+7");
    assert_eq!(lsst("18446744073709551615"), "18446744073709551615");
}

#[test]
fn other_names_are_refused() {
    unknown("");
    unknown("   ");
    unknown("XYZ");
    unknown("ZTF21abcdefgh");
    unknown("ZTF213");
    unknown("ZTF21ab1");
    unknown("21abcdefgh");
    unknown("LSSTx");
    unknown("18446744073709551616");
    unknown("-7");
    unknown("+");
    unknown("1 2");
}

#[test]
fn digits_outside_ascii_count_as_digits() {
    assert_eq!(ztf("ZTF\u{662}\u{661}"), "ZTF\u{662}\u{661}");
    assert_eq!(ztf("ZTF\u{662}\u{661}Abc"), "ZTF\u{662}\u{661}abc");
    assert_eq!(
        infer_survey_from_objectid("ZTF\u{662}abc").unwrap_err(),
        ztf_bad_formatting_message("ZTF\u{662}abc")
    );
    assert_eq!(ztf("\u{662}\u{661}abc"), "ZTF\u{662}\u{661}abc");
    assert_eq!(lsst("LSST\u{665}"), "\u{665}");
    unknown("\u{665}");
}

#[test]
fn white_space_outside_ascii_is_trimmed() {
    assert_eq!(ztf("\u{a0}\u{3000}ZTF21abc\u{2003}"), "ZTF21abc");
    assert_eq!(lsst("\u{2028}17\u{85}"), "17");
}

#[test]
fn case_does_not_matter() {
    for (a, b) in [("ztf21abc", "ZTF21ABC"), ("21abc", "21aBC"), ("lsst5", "LSST5"), ("zt", "ZT")] {
        assert_eq!(infer_survey_from_objectid(a), infer_survey_from_objectid(b));
    }
}

#[test]
fn a_normal_form_of_ztf_is_its_own() {
    for value in ["z", "ZTF2", "21abc", "ztf21AAAAAAA"] {
        let id = ztf(value);
        assert_eq!(ztf(&id), id);
    }
}
