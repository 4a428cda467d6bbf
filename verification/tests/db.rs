use babamul_objects::db::{
    count_alerts_for_night, cutout2bsonbinary, fetch_timeseries_op, get_array_dict_element,
    get_array_element, initialize_survey_indexes, update_timeseries_op,
};
use babamul_objects::survey::Survey;
use mongodb::bson::spec::BinarySubtype;
use mongodb::bson::{Bson, Document};

fn json(text: &str) -> Document {
    let value: serde_json::Value = serde_json::from_str(text).unwrap();
    match Bson::try_from(value).unwrap() {
        Bson::Document(doc) => doc,
        other => panic!("no document: {:?}", other),
    }
}

#[test]
fn the_first_element_has_a_fallback() {
    assert_eq!(
        get_array_element("aux.fp_hists"),
        json(r#"{"$ifNull": [{"$arrayElemAt": ["$aux.fp_hists", 0]}, []]}"#)
    );
    assert_eq!(
        get_array_dict_element("aux.fp_hists"),
        json(r#"{"$ifNull": [{"$arrayElemAt": ["$aux.fp_hists", 0]}, {}]}"#)
    );
}

#[test]
fn a_time_series_is_updated() {
    let points = vec![json(r#"{"jd": 2460000.5, "mag": 19}"#), json(r#"{"jd": 2460001.5}"#)];
    let op = update_timeseries_op("prv_candidates", "jd", &points);
    let expected = json(
        r#"{"$sortArray": {
            "input": {"$filter": {
                "input": {"$reduce": {
                    "input": {"$concatArrays": [
                        {"$ifNull": ["$prv_candidates", []]},
                        [{"jd": 2460000.5, "mag": 19}, {"jd": 2460001.5}]
                    ]},
                    "initialValue": [],
                    "in": {"$cond": {
                        "if": {"$in": ["$$this.jd", "$$value.jd"]},
                        "then": "$$value",
                        "else": {"$concatArrays": ["$$value", ["$$this"]]}
                    }}
                }},
                "as": "point",
                "cond": {"$and": [
                    {"$isNumber": "$$point.jd"},
                    {"$eq": ["$$point.jd", "$$point.jd"]},
                    {"$lt": ["$$point.jd", {"$numberDouble": "Infinity"}]},
                    {"$gt": ["$$point.jd", {"$numberDouble": "-Infinity"}]}
                ]}
            }},
            "sortBy": {"jd": 1}
        }}"#,
    );
    assert_eq!(op, expected);
    let bounds = op
        .get_document("$sortArray")
        .and_then(|d| d.get_document("input"))
        .and_then(|d| d.get_document("$filter"))
        .and_then(|d| d.get_document("cond"))
        .and_then(|d| d.get_array("$and"))
        .unwrap();
    let bound = |i: usize, key: &str| {
        bounds[i].as_document().unwrap().get_array(key).unwrap()[1].as_f64().unwrap()
    };
    assert_eq!(bound(2, "$lt"), f64::INFINITY);
    assert_eq!(bound(3, "$gt"), f64::NEG_INFINITY);
}

#[test]
fn a_time_series_is_fetched() {
    let window = r#"{"$lt": [{"$subtract": ["$candidate.jd", "$$x.jd"]}, 365]},
        {"$lte": ["$$x.jd", "$candidate.jd"]}"#;
    let expected = |conditions: &str| {
        json(&format!(
            r#"{{"$filter": {{
                "input": {{"$ifNull": [{{"$arrayElemAt": ["$aux.prv_candidates", 0]}}, []]}},
                "as": "x",
                "cond": {{"$and": [{}]}}
            }}}}"#,
            conditions
        ))
    };
    assert_eq!(
        fetch_timeseries_op("aux.prv_candidates", "candidate.jd", 365, None),
        expected(window)
    );
    let public = json(r#"{"$eq": ["$$x.programid", 1]}"#);
    assert_eq!(
        fetch_timeseries_op("aux.prv_candidates", "candidate.jd", 365, Some(vec![public])),
        expected(&format!(r#"{}, {{"$eq": ["$$x.programid", 1]}}"#, window))
    );
}

fn indexes(survey: Survey) -> Vec<(String, Document)> {
    let requests = initialize_survey_indexes(&survey);
    assert!(requests.iter().all(|r| !r.unique));
    requests.into_iter().map(|r| (r.collection, r.keys)).collect()
}

fn keys(collection: &str, keys: &str) -> (String, Document) {
    (collection.to_string(), json(keys))
}

#[test]
fn surveys_have_their_indexes() {
    let place = r#"{"coordinates.radec_geojson": "2dsphere", "_id": 1}"#;
    assert_eq!(
        indexes(Survey::Decam),
        [
            keys("DECAM_alerts", place),
            keys("DECAM_alerts_aux", place),
            keys("DECAM_alerts", r#"{"objectId": 1}"#),
        ]
    );
    assert_eq!(
        indexes(Survey::Lsst),
        [
            keys("LSST_alerts", place),
            keys("LSST_alerts_aux", place),
            keys("LSST_alerts", r#"{"objectId": 1}"#),
            keys("LSST_alerts", r#"{"ss_object_id": 1}"#),
            keys("LSST_alerts_aux", r#"{"designation": 1}"#),
        ]
    );
    let found = r#"{"prv_candidates.ssnamenr": 1, "prv_candidates.ssdistnr": 1}"#;
    let missed = r#"{"prv_nondetections.ssnamenr": 1, "prv_nondetections.ssdistnr": 1}"#;
    assert_eq!(
        indexes(Survey::Ztf)[2..],
        [
            keys("ZTF_alerts", r#"{"objectId": 1}"#),
            keys("ZTF_alerts_aux", found),
            keys("ZTF_alerts_aux", missed),
        ]
    );
}

#[test]
fn alerts_of_a_night_are_counted() {
    let count = |survey: Survey, programids: Option<&[i32]>| {
        count_alerts_for_night(
            &survey,
            Bson::Double(2460000.5),
            Bson::Double(2460001.5),
            programids,
        )
    };
    let night = json(r#"{"candidate.jd": {"$gte": 2460000.5, "$lt": 2460001.5}}"#);
    let restricted = json(
        r#"{"candidate.jd": {"$gte": 2460000.5, "$lt": 2460001.5},
            "candidate.programid": {"$in": [1, 2]}}"#,
    );
    assert_eq!(count(Survey::Ztf, None).filter, night);
    assert_eq!(count(Survey::Ztf, Some(&[1, 2])).filter, restricted);
    assert_eq!(count(Survey::Lsst, Some(&[1, 2])).filter, restricted);
    assert_eq!(count(Survey::Lsst, None).filter, night);
    assert_eq!(count(Survey::Ztf, None).collection, "ZTF_alerts");
    assert_eq!(count(Survey::Lsst, None).collection, "LSST_alerts");
}

#[test]
fn a_cutout_is_a_generic_binary() {
    let binary = cutout2bsonbinary(vec![1, 2, 255]);
    assert_eq!(binary.subtype, BinarySubtype::Generic);
    assert_eq!(binary.bytes, [1, 2, 255]);
}
