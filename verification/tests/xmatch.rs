use babamul_objects::json::{get_number, json_of_document, or_null};
use babamul_objects::query::Rows;
use babamul_objects::reply::Refusal;
use babamul_objects::survey::Survey;
use babamul_objects::xmatch::{
    cross_matches_of, get_object_xmatches, get_objects_xmatches, BatchXmatch, BatchXmatchQuery,
    XmatchLookup,
};
use mongodb::bson::{Bson, Document};
use serde_json::Value;

fn value(text: &str) -> Value {
    serde_json::from_str(text).unwrap()
}

fn json(text: &str) -> Document {
    match Bson::try_from(value(text)).unwrap() {
        Bson::Document(doc) => doc,
        other => panic!("no document: {:?}", other),
    }
}

fn refusal<T>(result: Result<T, Refusal>) -> (u16, String) {
    match result {
        Ok(_) => panic!("not refused"),
        Err(refusal) => (refusal.status_code(), refusal.message().to_string()),
    }
}

fn lookup() -> XmatchLookup {
    get_object_xmatches(true, Survey::Ztf, "ZTF21a".to_string()).unwrap()
}

fn ids(names: &[&str]) -> BatchXmatchQuery {
    BatchXmatchQuery { object_ids: names.iter().map(|n| n.to_string()).collect() }
}

fn batch() -> BatchXmatch {
    get_objects_xmatches(true, Survey::Lsst, ids(&["1", "2"])).unwrap()
}

#[test]
fn matches_are_kept_for_ztf_and_lsst() {
    let id = || "x".to_string();
    assert_eq!(refusal(get_object_xmatches(false, Survey::Decam, id())).0, 401);
    let unsupported =
        (400, "Unsupported survey: DECAM. Supported surveys are: ztf, lsst".to_string());
    assert_eq!(refusal(get_object_xmatches(true, Survey::Decam, id())), unsupported);
    assert_eq!(refusal(get_objects_xmatches(false, Survey::Decam, ids(&[]))).0, 401);
    assert_eq!(refusal(get_objects_xmatches(true, Survey::Decam, ids(&[]))), unsupported);
    assert!(get_object_xmatches(true, Survey::Lsst, id()).is_ok());
}

#[test]
fn only_the_matches_are_asked_for() {
    let asked = lookup().query();
    assert_eq!(asked.collection, "ZTF_alerts_aux");
    assert_eq!(asked.filter, json(r#"{"_id": "ZTF21a"}"#));
    assert_eq!(asked.projection, Some(json(r#"{"_id": 1, "cross_matches": 1}"#)));
    let asked = batch().query();
    assert_eq!(asked.collection, "LSST_alerts_aux");
    assert_eq!(asked.filter, json(r#"{"_id": {"$in": ["1", "2"]}}"#));
    assert_eq!(asked.projection, Some(json(r#"{"_id": 1, "cross_matches": 1}"#)));
    assert_eq!((asked.sort, asked.limit), (None, None));
}

#[test]
fn the_matches_of_an_object_are_its_documents() {
    let object = json(
        r#"{"_id": "ZTF21a", "cross_matches":
            {"Gaia": [{"a": 1}, 5, {"b": 2}], "NED": "none", "PS1": []}}"#,
    );
    let response = lookup().found(Ok(Some(object))).unwrap();
    assert_eq!(response.status, "success");
    assert_eq!(response.message, "Found cross-matches for object ZTF21a");
    let names: Vec<&str> = response.data.iter().map(|c| c.catalog.as_str()).collect();
    assert_eq!(names, ["Gaia", "NED", "PS1"]);
    assert_eq!(response.data[0].matches, [json(r#"{"a": 1}"#), json(r#"{"b": 2}"#)]);
    assert!(response.data[1].matches.is_empty());
    assert!(response.data[2].matches.is_empty());
}

#[test]
fn the_matches_of_an_object_are_shown_in_json() {
    let object = json(
        r#"{"_id": "ZTF21a", "cross_matches":
            {"Gaia": [{"a": 1, "b": [true, null]}, 5], "NED": "none"}}"#,
    );
    let alone = lookup().found(Ok(Some(object.clone()))).unwrap().in_json().unwrap();
    assert_eq!(alone.len(), 2);
    assert_eq!(alone[0].catalog, "Gaia");
    assert_eq!(alone[0].matches, [value(r#"{"a": 1, "b": [true, null]}"#)]);
    assert_eq!(alone[1].catalog, "NED");
    assert!(alone[1].matches.is_empty());
    let rows = Rows::Read { rows: vec![object], failure: None };
    let among = batch().found(rows).unwrap().data.pop().unwrap().cross_matches;
    assert_eq!(among.len(), alone.len());
    for (a, b) in alone.iter().zip(among.iter()) {
        assert_eq!((&a.catalog, &a.matches), (&b.catalog, &b.matches));
    }
}

#[test]
fn an_object_may_have_no_matches() {
    assert!(cross_matches_of(&json(r#"{"_id": "x"}"#)).is_empty());
    assert!(cross_matches_of(&json(r#"{"cross_matches": [1, 2]}"#)).is_empty());
    assert!(cross_matches_of(&json(r#"{"cross_matches": {}}"#)).is_empty());
}

#[test]
fn a_lookup_of_matches_fails_where_the_database_fails() {
    assert_eq!(
        refusal(lookup().found(Err("down".to_string()))),
        (500, "error getting documents: down".to_string())
    );
    assert_eq!(
        refusal(lookup().found(Ok(None))),
        (404, "no aux entry found for object id ZTF21a".to_string())
    );
    assert_eq!(
        refusal(batch().found(Rows::NotOpened { error: "down".to_string() })),
        (500, "error querying database: down".to_string())
    );
}

#[test]
fn one_to_a_thousand_objects_are_looked_up() {
    let wrong_count = (400, "Must provide between 1 and 1000 object IDs".to_string());
    let many = |n: usize| BatchXmatchQuery { object_ids: vec!["x".to_string(); n] };
    assert_eq!(refusal(get_objects_xmatches(true, Survey::Ztf, many(0))), wrong_count);
    assert_eq!(refusal(get_objects_xmatches(true, Survey::Ztf, many(1001))), wrong_count);
    assert!(get_objects_xmatches(true, Survey::Ztf, many(1000)).is_ok());
}

#[test]
fn each_object_is_answered_once_with_its_last_reading() {
    let rows = vec![
        json(r#"{"_id": "1", "cross_matches": {"Gaia": [{"a": 1}]}}"#),
        json(r#"{"_id": 7, "cross_matches": {"Gaia": [{"a": 2}]}}"#),
        json(r#"{"_id": "2"}"#),
        json(r#"{"_id": "1", "cross_matches": {"Gaia": [{"a": 3, "b": "c"}, 4]}}"#),
    ];
    let failure = Some("lost".to_string());
    let response = batch().found(Rows::Read { rows, failure }).unwrap();
    assert_eq!(response.status, "success");
    assert_eq!(response.message, "Found cross-matches for 2 objects");
    assert_eq!(response.data[0].object_id, "1");
    assert_eq!(response.data[0].cross_matches[0].catalog, "Gaia");
    assert_eq!(response.data[0].cross_matches[0].matches, [value(r#"{"a": 3, "b": "c"}"#)]);
    assert_eq!(response.data[1].object_id, "2");
    assert!(response.data[1].cross_matches.is_empty());
}

#[test]
fn documents_have_json_forms() {
    let mut doc = Document::new();
    doc.insert("x", Bson::Double(1.5));
    doc.insert("y", Bson::Null);
    assert_eq!(json_of_document(&doc), value(r#"{"x": 1.5, "y": null}"#));
    assert_eq!(or_null(None), Value::Null);
    assert_eq!(or_null(Some(value("5"))), value("5"));
}

#[test]
fn integers_stay_what_they_are_in_json() {
    let form = |number: Bson| {
        let mut doc = Document::new();
        doc.insert("x", number);
        json_of_document(&doc)
    };
    assert_eq!(form(Bson::Int32(1)), value(r#"{"x": 1}"#));
    assert_eq!(form(Bson::Double(1.0)), value(r#"{"x": 1.0}"#));
    assert_ne!(form(Bson::Int32(1)), form(Bson::Double(1.0)));
    assert_eq!(form(Bson::Int64(9007199254740993)), value(r#"{"x": 9007199254740993}"#));
    assert_ne!(form(Bson::Int64(9007199254740993)), form(Bson::Int64(9007199254740992)));
}

#[test]
fn numbers_are_read_from_objects() {
    let object = value(r#"{"a": 1.5, "b": 3, "c": "4", "d": -2}"#);
    let bits = |x: f64| Some(x.to_bits());
    assert_eq!(get_number(&object, "a").map(|x| x.bits), bits(1.5));
    assert_eq!(get_number(&object, "b").map(|x| x.bits), bits(3.0));
    assert_eq!(get_number(&object, "c").map(|x| x.bits), None);
    assert_eq!(get_number(&object, "d").map(|x| x.bits), bits(-2.0));
    assert_eq!(get_number(&object, "e").map(|x| x.bits), None);
    assert_eq!(get_number(&value("[1]"), "a").map(|x| x.bits), None);
}
