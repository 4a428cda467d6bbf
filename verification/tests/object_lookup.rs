use babamul_objects::ieee::Float64;
use babamul_objects::object_lookup::{
    get_object, Counterpart, LsstAlert, LsstLookup, LsstObject, ObjectLookup, ZtfAlert, ZtfLookup,
    ZtfObject, ZtfPoint,
};
use babamul_objects::query::Rows;
use babamul_objects::reply::Refusal;
use babamul_objects::survey::Survey;
use mongodb::bson::{Bson, Document};

fn double(x: f64) -> Float64 {
    Float64::from_bits(x.to_bits())
}

fn json(text: &str) -> Document {
    let value: serde_json::Value = serde_json::from_str(text).unwrap();
    match Bson::try_from(value).unwrap() {
        Bson::Document(doc) => doc,
        other => panic!("no document: {:?}", other),
    }
}

fn refusal<T>(result: Result<T, Refusal>) -> (u16, String) {
    match result {
        Ok(_) => panic!("not refused"),
        Err(refusal) => (refusal.status_code(), refusal.message().to_string()),
    }
}

fn ztf_alert(candid: i64, classifications: Option<&'static str>) -> ZtfAlert<&'static str> {
    ZtfAlert { candid, candidate: "candidate", properties: None, classifications }
}

fn ztf_lookup() -> ZtfLookup {
    match get_object(true, Survey::Ztf, "ZTF21a".to_string()).unwrap() {
        ObjectLookup::Ztf(lookup) => lookup,
        _ => panic!("another lookup"),
    }
}

fn lsst_lookup() -> LsstLookup {
    match get_object(true, Survey::Lsst, "17".to_string()).unwrap() {
        ObjectLookup::Lsst(lookup) => lookup,
        _ => panic!("another lookup"),
    }
}

fn points() -> Vec<ZtfPoint<&'static str>> {
    vec![
        ZtfPoint { programid: 1, data: "public" },
        ZtfPoint { programid: 2, data: "private" },
        ZtfPoint { programid: 1, data: "also public" },
        ZtfPoint { programid: 3, data: "secret" },
    ]
}

fn ztf_object() -> ZtfObject<&'static str> {
    ZtfObject {
        object_id: "ZTF21a".to_string(),
        ra: double(10.0),
        dec: double(20.0),
        prv_candidates: points(),
        prv_nondetections: points(),
        fp_hists: points(),
        cross_matches: "matches",
    }
}

fn lsst_object() -> LsstObject<&'static str> {
    LsstObject {
        object_id: "17".to_string(),
        ra: double(11.0),
        dec: double(21.0),
        prv_candidates: vec!["p"],
        fp_hists: vec!["f", "g"],
        cross_matches: "matches",
    }
}

fn data(points: &[ZtfPoint<&'static str>]) -> Vec<&'static str> {
    points.iter().map(|p| p.data).collect()
}

#[test]
fn only_ztf_and_lsst_are_looked_up() {
    assert_eq!(refusal(get_object(false, Survey::Decam, "x".to_string())).0, 401);
    assert_eq!(
        refusal(get_object(true, Survey::Decam, "x".to_string())),
        (400, "Invalid survey specified, only ZTF and LSST are supported".to_string())
    );
}

#[test]
fn the_public_alerts_of_ztf_are_asked_for_newest_first() {
    let asked = ztf_lookup().alerts_query();
    assert_eq!(asked.collection, "ZTF_alerts");
    assert_eq!(asked.filter, json(r#"{"objectId": "ZTF21a", "candidate.programid": 1}"#));
    assert_eq!(asked.sort, Some(json(r#"{"candidate.jd": -1}"#)));
    assert_eq!((asked.projection, asked.limit), (None, None));
    let asked = lsst_lookup().alerts_query();
    assert_eq!(asked.collection, "LSST_alerts");
    assert_eq!(asked.filter, json(r#"{"objectId": "17"}"#));
    assert_eq!(asked.sort, Some(json(r#"{"candidate.jd": -1}"#)));
}

#[test]
fn an_object_of_ztf_is_put_together() {
    let rows = vec![
        ztf_alert(3, Some("newest")),
        ztf_alert(2, None),
        ztf_alert(1, Some("oldest")),
    ];
    let lookup = ztf_lookup().alerts_found(Rows::Read { rows, failure: None }).unwrap();
    let asked = lookup.aux_query();
    assert_eq!(asked.collection, "ZTF_alerts_aux");
    assert_eq!(asked.filter, json(r#"{"_id": "ZTF21a"}"#));
    let lookup = lookup.aux_found(Ok(Some(ztf_object()))).unwrap();
    let asked =
        lookup.nearest_query(Bson::Double(-170.0), Bson::Double(20.0), Bson::Double(0.5));
    assert_eq!(asked.collection, "LSST_alerts_aux");
    assert_eq!(
        asked.filter,
        json(
            r#"{"coordinates.radec_geojson":
                {"$nearSphere": [-170.0, 20.0], "$maxDistance": 0.5}}"#
        )
    );
    assert_eq!(asked.projection, None);
    let nearest = Counterpart { object: lsst_object(), distance_arcsec: double(0.75) };
    let reply = lookup.nearest_found(Ok(Some(nearest))).unwrap();
    assert_eq!(reply.message, "object found with object_id: ZTF21a");
    let shown = reply.data;
    assert_eq!((shown.candid, shown.object_id.as_str()), (3, "ZTF21a"));
    assert_eq!((shown.candidate, shown.properties), ("candidate", None));
    assert_eq!(data(&shown.prv_candidates), ["public", "also public"]);
    assert_eq!(data(&shown.prv_nondetections), ["public", "also public"]);
    assert_eq!(data(&shown.fp_hists), ["public", "also public"]);
    assert_eq!(shown.classifications, Some("newest"));
    assert_eq!(shown.classifications_history, ["oldest", "newest"]);
    assert_eq!(shown.cross_matches, "matches");
    let lsst = shown.survey_matches.lsst.unwrap();
    assert_eq!(lsst.object_id, "17");
    assert_eq!((lsst.ra, lsst.dec), (double(11.0), double(21.0)));
    assert_eq!(lsst.prv_candidates, ["p"]);
    assert_eq!(lsst.fp_hists, ["f", "g"]);
    assert_eq!(lsst.distance_arcsec, double(0.75));
}

#[test]
fn a_lookup_in_ztf_fails_where_a_step_fails() {
    let not_opened = Rows::<ZtfAlert<&'static str>>::NotOpened { error: "down".to_string() };
    assert_eq!(
        refusal(ztf_lookup().alerts_found(not_opened)),
        (500, "error retrieving latest alert for object ZTF21a: down".to_string())
    );
    let rows = vec![ztf_alert(3, None)];
    let broken = Rows::Read { rows, failure: Some("lost".to_string()) };
    assert_eq!(
        refusal(ztf_lookup().alerts_found(broken)),
        (500, "error getting documents: lost".to_string())
    );
    let empty = Rows::Read { rows: Vec::<ZtfAlert<&'static str>>::new(), failure: None };
    assert_eq!(
        refusal(ztf_lookup().alerts_found(empty)),
        (404, "no object found with id ZTF21a".to_string())
    );
    let aux = || {
        let rows = vec![ztf_alert(3, None)];
        ztf_lookup().alerts_found(Rows::Read { rows, failure: None }).unwrap()
    };
    assert_eq!(
        refusal(aux().aux_found(Err("down".to_string()))),
        (500, "error getting documents: down".to_string())
    );
    assert_eq!(
        refusal(aux().aux_found(Ok(None))),
        (404, "no aux entry found for object id ZTF21a".to_string())
    );
    let lookup = aux().aux_found(Ok(Some(ztf_object()))).unwrap();
    assert_eq!(
        refusal(lookup.nearest_found(Err("down".to_string()))),
        (500, "error getting nearest lsst object: down".to_string())
    );
    let lookup = aux().aux_found(Ok(Some(ztf_object()))).unwrap();
    let shown = lookup.nearest_found(Ok(None)).unwrap().data;
    assert!(shown.survey_matches.lsst.is_none());
    assert!(shown.classifications_history.is_empty());
}

fn lsst_alert(candid: i64) -> LsstAlert<&'static str> {
    LsstAlert { candid, candidate: "candidate", properties: Some("properties") }
}

#[test]
fn an_object_of_lsst_is_put_together() {
    let rows = vec![lsst_alert(5)];
    let failure = Some("lost".to_string());
    let lookup = lsst_lookup().alerts_found(Rows::Read { rows, failure }).unwrap();
    let asked = lookup.aux_query();
    assert_eq!(asked.collection, "LSST_alerts_aux");
    assert_eq!(asked.filter, json(r#"{"_id": "17"}"#));
    let lookup = lookup.aux_found(Ok(Some(lsst_object()))).unwrap();
    let asked = lookup.nearest_query(Bson::Double(-169.0), Bson::Double(21.0), Bson::Double(0.5));
    assert_eq!(asked.collection, "ZTF_alerts_aux");
    let nearest = Counterpart { object: ztf_object(), distance_arcsec: double(1.5) };
    let reply = lookup.nearest_found(Ok(Some(nearest))).unwrap();
    assert_eq!(reply.message, "object found with object_id: 17");
    let shown = reply.data;
    assert_eq!((shown.candid, shown.object_id.as_str()), (5, "17"));
    assert_eq!(shown.properties, Some("properties"));
    assert_eq!(shown.prv_candidates, ["p"]);
    assert_eq!(shown.fp_hists, ["f", "g"]);
    let ztf = shown.survey_matches.ztf.unwrap();
    assert_eq!(ztf.object_id, "ZTF21a");
    assert_eq!(data(&ztf.prv_candidates), ["public", "also public"]);
    assert_eq!(data(&ztf.prv_nondetections), ["public", "also public"]);
    assert_eq!(data(&ztf.fp_hists), ["public", "also public"]);
    assert_eq!(ztf.distance_arcsec, double(1.5));
}

#[test]
fn a_lookup_in_lsst_fails_where_a_step_fails() {
    let not_opened = Rows::<LsstAlert<&'static str>>::NotOpened { error: "down".to_string() };
    assert_eq!(
        refusal(lsst_lookup().alerts_found(not_opened)),
        (500, "error retrieving latest alert for object 17: down".to_string())
    );
    let none = || Vec::<LsstAlert<&'static str>>::new();
    let broken = Rows::Read { rows: none(), failure: Some("lost".to_string()) };
    assert_eq!(
        refusal(lsst_lookup().alerts_found(broken)),
        (500, "error getting documents: lost".to_string())
    );
    assert_eq!(
        refusal(lsst_lookup().alerts_found(Rows::Read { rows: none(), failure: None })),
        (404, "no object found with id 17".to_string())
    );
    let aux = || {
        let rows = vec![lsst_alert(5)];
        lsst_lookup().alerts_found(Rows::Read { rows, failure: None }).unwrap()
    };
    assert_eq!(
        refusal(aux().aux_found(Err("down".to_string()))),
        (500, "error getting documents: down".to_string())
    );
    assert_eq!(
        refusal(aux().aux_found(Ok(None))),
        (404, "no aux entry found for object id 17".to_string())
    );
    let lookup = aux().aux_found(Ok(Some(lsst_object()))).unwrap();
    assert_eq!(
        refusal(lookup.nearest_found(Err("down".to_string()))),
        (500, "error getting nearest ztf object: down".to_string())
    );
}

#[test]
fn other_programmes_never_change_an_answer_of_ztf() {
    let public = |points: Vec<ZtfPoint<&'static str>>| -> Vec<ZtfPoint<&'static str>> {
        points.into_iter().filter(|point| point.programid == 1).collect()
    };
    let mut bare = ztf_object();
    bare.prv_candidates = public(bare.prv_candidates);
    bare.prv_nondetections = public(bare.prv_nondetections);
    bare.fp_hists = public(bare.fp_hists);
    let alerts = || vec![ztf_alert(3, Some("newest"))];
    let full = ztf_lookup().answer(alerts(), Some(ztf_object()), None).unwrap();
    let less = ztf_lookup().answer(alerts(), Some(bare), None).unwrap();
    assert_eq!(full.message, less.message);
    assert_eq!(data(&full.data.prv_candidates), data(&less.data.prv_candidates));
    assert_eq!(data(&full.data.prv_nondetections), data(&less.data.prv_nondetections));
    assert_eq!(data(&full.data.fp_hists), data(&less.data.fp_hists));
    assert_eq!(full.data.classifications_history, less.data.classifications_history);
    assert_eq!(
        refusal(ztf_lookup().answer(vec![], Some(ztf_object()), None)),
        (404, "no object found with id ZTF21a".to_string())
    );
    assert_eq!(
        refusal(ztf_lookup().answer(alerts(), None, None)),
        (404, "no aux entry found for object id ZTF21a".to_string())
    );
}

#[test]
fn other_programmes_never_change_an_answer_of_lsst() {
    let private = |data| ZtfPoint { programid: 2, data };
    let near = |points| Counterpart {
        object: ZtfObject { fp_hists: points, ..ztf_object() },
        distance_arcsec: double(1.5),
    };
    let answer = |points| {
        let rows = vec![lsst_alert(5)];
        let reply = lsst_lookup().answer(rows, Some(lsst_object()), Some(near(points))).unwrap();
        reply.data.survey_matches.ztf.unwrap().fp_hists.len()
    };
    assert_eq!(answer(vec![]), 0);
    assert_eq!(answer(vec![private("a"), private("b")]), 0);
    assert_eq!(
        refusal(lsst_lookup().answer(vec![], Some(lsst_object()), None)),
        (404, "no object found with id 17".to_string())
    );
    assert_eq!(
        refusal(lsst_lookup().answer(vec![lsst_alert(5)], None, None)),
        (404, "no aux entry found for object id 17".to_string())
    );
}
