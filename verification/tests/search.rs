use babamul_objects::ieee::Float64;
use babamul_objects::query::Rows;
use babamul_objects::reply::Refusal;
use babamul_objects::search::{
    default_limit, get_objects, DesignationSearch, NearObject, ObjectIdSearch, ObjectMini,
    PositionSearch, SearchObjectsQuery, SearchPlan,
};
use babamul_objects::survey::Survey;
use mongodb::bson::{Bson, Document};

fn double(x: f64) -> Float64 {
    Float64::from_bits(x.to_bits())
}

fn json(text: &str) -> Document {
    let value: serde_json::Value = serde_json::from_str(text).unwrap();
    match Bson::try_from(value).unwrap() {
        Bson::Document(doc) => doc,
        other => panic!("no document: {:?}", other),
    }
}

fn query() -> SearchObjectsQuery {
    SearchObjectsQuery {
        object_id: None,
        designation: None,
        ra: None,
        dec: None,
        radius: None,
        limit: default_limit(),
    }
}

fn position(ra: f64, dec: f64, radius: f64) -> SearchObjectsQuery {
    let mut q = query();
    q.ra = Some(double(ra));
    q.dec = Some(double(dec));
    q.radius = Some(double(radius));
    q
}

fn object(id: &str) -> ObjectMini {
    ObjectMini { object_id: id.to_string(), ra: double(10.0), dec: double(-5.0) }
}

fn near(id: &str, distance: f64) -> NearObject {
    NearObject { object: object(id), distance_arcsec: double(distance) }
}

fn read<T>(rows: Vec<T>) -> Rows<T> {
    Rows::Read { rows, failure: None }
}

fn cut_short<T>(rows: Vec<T>) -> Rows<T> {
    Rows::Read { rows, failure: Some("lost".to_string()) }
}

fn not_opened<T>() -> Rows<T> {
    Rows::NotOpened { error: "down".to_string() }
}

fn refused(q: SearchObjectsQuery) -> Refusal {
    match get_objects(true, &q) {
        Ok(_) => panic!("not refused"),
        Err(refusal) => refusal,
    }
}

fn bad_request(q: SearchObjectsQuery, message: &str) {
    let refusal = refused(q);
    assert_eq!(refusal.status_code(), 400);
    assert_eq!(refusal.message(), message);
}

fn ids(reply: &babamul_objects::search::SearchReply) -> Vec<&str> {
    reply.results.iter().map(|r| r.object_id.as_str()).collect()
}

fn designation_search(limit: u32) -> DesignationSearch {
    DesignationSearch { designation: "2026 XX1".to_string(), limit }
}

fn internal_error<T>(result: Result<T, Refusal>, message: &str) {
    match result {
        Ok(_) => panic!("no error"),
        Err(refusal) => {
            assert_eq!(refusal.status_code(), 500);
            assert_eq!(refusal.message(), message);
        }
    }
}

#[test]
fn a_query_asks_for_ten_results() {
    assert_eq!(default_limit(), 10);
}

#[test]
fn nobody_searches_without_logging_in() {
    let refusal = get_objects(false, &query()).err().unwrap();
    assert_eq!(refusal.status_code(), 401);
    assert_eq!(refusal.message(), "Unauthorized");
}

#[test]
fn limits_are_from_one_to_a_hundred() {
    for (limit, accepted) in [(0, false), (1, true), (100, true), (101, false)] {
        let mut q = query();
        q.designation = Some("x".to_string());
        q.limit = limit;
        if accepted {
            assert!(get_objects(true, &q).is_ok());
        } else {
            bad_request(q, "Limit must be between 1 and 100");
        }
    }
}

#[test]
fn exactly_one_way_to_search_is_given() {
    bad_request(query(), "Must provide one of: object_id, designation, ra/dec/radius");
    let only_one = "Provide only one of: object_id, designation, or ra/dec/radius";
    let mut q = query();
    q.object_id = Some("ZTF21".to_string());
    q.designation = Some("x".to_string());
    bad_request(q, only_one);
    let mut q = position(1.0, 2.0, 3.0);
    q.object_id = Some("ZTF21".to_string());
    bad_request(q, only_one);
    let mut q = query();
    q.designation = Some("x".to_string());
    q.dec = Some(double(1.0));
    bad_request(q, only_one);
}

#[test]
fn a_position_is_complete_and_within_bounds() {
    let mut q = position(1.0, 2.0, 3.0);
    q.radius = None;
    bad_request(q, "Must provide ra, dec, and radius together for position search");
    bad_request(position(360.0, 0.0, 1.0), "ra must be in [0, 360)");
    bad_request(position(-0.1, 100.0, 1.0), "ra must be in [0, 360)");
    bad_request(position(f64::NAN, 0.0, 10.0), "ra must be in [0, 360)");
    bad_request(position(0.0, f64::NAN, 10.0), "dec must be in [-90, 90]");
    bad_request(
        position(0.0, 0.0, f64::NAN),
        "radius must be greater than 0 and at most 600 arcseconds",
    );
    bad_request(position(0.0, 90.5, 1.0), "dec must be in [-90, 90]");
    bad_request(
        position(0.0, 90.0, 0.0),
        "radius must be greater than 0 and at most 600 arcseconds",
    );
    bad_request(
        position(0.0, -90.0, 601.0),
        "radius must be greater than 0 and at most 600 arcseconds",
    );
    match get_objects(true, &position(359.5, -90.0, 600.0)).unwrap() {
        SearchPlan::Position(search) => {
            assert_eq!(search.ra, double(359.5));
            assert_eq!(search.dec, double(-90.0));
            assert_eq!(search.radius, double(600.0));
            assert_eq!(search.limit, 10);
        }
        _ => panic!("another search"),
    }
}

#[test]
fn an_identifier_is_normalised_or_refused() {
    let mut q = query();
    q.object_id = Some(" 21ABC ".to_string());
    match get_objects(true, &q).unwrap() {
        SearchPlan::ObjectId(search) => {
            assert_eq!(search.survey, Survey::Ztf);
            assert_eq!(search.beginning, "ZTF21abc");
            assert_eq!(search.limit, 10);
        }
        _ => panic!("another search"),
    }
    let mut q = query();
    q.object_id = Some("?".to_string());
    bad_request(q, "Invalid objectId format: ?. Could not infer survey from given value");
}

#[test]
fn the_object_id_search_asks_for_a_beginning() {
    let search =
        ObjectIdSearch { survey: Survey::Lsst, beginning: "123".to_string(), limit: 7 };
    let asked = search.query();
    assert_eq!(asked.collection, "LSST_alerts_aux");
    assert_eq!(asked.filter, json(r#"{"_id": {"$regex": "^123"}}"#));
    assert_eq!(asked.sort, Some(json(r#"{"_id": 1}"#)));
    assert_eq!(asked.projection, None);
    assert_eq!(asked.limit, Some(7));
    let reply = search.found(read(vec![object("1231"), object("1239")])).unwrap();
    assert_eq!(reply.message, "Found 2 objects");
    assert_eq!(ids(&reply), ["1231", "1239"]);
    assert!(reply.results.iter().all(|r| r.survey == Survey::Lsst));
    assert!(reply.results.iter().all(|r| r.distance_arcsec.is_none()));
    assert_eq!(reply.results[0].ra, double(10.0));
    assert_eq!(reply.results[0].dec, double(-5.0));
}

#[test]
fn the_object_id_search_reports_every_failure() {
    let search =
        || ObjectIdSearch { survey: Survey::Ztf, beginning: "ZTF".to_string(), limit: 1 };
    internal_error(search().found(not_opened()), "error searching objects: down");
    internal_error(search().found(cut_short(vec![object("a")])), "error searching objects: lost");
}

#[test]
fn the_designation_search_asks_both_surveys() {
    let search = designation_search(3);
    let asked = search.lsst_query();
    assert_eq!(asked.collection, "LSST_alerts_aux");
    assert_eq!(asked.filter, json(r#"{"designation": "2026 XX1"}"#));
    assert_eq!((asked.sort, asked.projection, asked.limit), (None, None, Some(3)));
    let search = search.lsst_found(cut_short(vec![object("l1"), object("l2")])).unwrap();
    let asked = search.ztf_query(Bson::Double(2.5));
    assert_eq!(asked.collection, "ZTF_alerts_aux");
    assert_eq!(
        asked.filter,
        json(
            r#"{"$or": [
                {"prv_candidates": {"$elemMatch":
                    {"ssnamenr": "2026 XX1", "ssdistnr": {"$lte": 2.5}}}},
                {"prv_nondetections": {"$elemMatch":
                    {"ssnamenr": "2026 XX1", "ssdistnr": {"$lte": 2.5}}}}
            ]}"#
        )
    );
    assert_eq!(asked.limit, Some(3));
    let reply = search.ztf_found(read(vec![object("z1"), object("z2")])).unwrap();
    assert_eq!(ids(&reply), ["l1", "l2", "z1"]);
    assert_eq!(reply.results[1].survey, Survey::Lsst);
    assert_eq!(reply.results[2].survey, Survey::Ztf);
    assert_eq!(reply.message, "Found 3 objects");
}

#[test]
fn the_designation_search_reports_a_survey_that_is_down() {
    internal_error(
        designation_search(3).lsst_found(not_opened()),
        "error searching LSST objects by designation: down",
    );
    let search = designation_search(3).lsst_found(read(vec![])).unwrap();
    internal_error(
        search.ztf_found(not_opened()),
        "error searching ZTF objects by designation: down",
    );
    let search = designation_search(3).lsst_found(read(vec![])).unwrap();
    let reply = search.ztf_found(read(vec![])).unwrap();
    assert_eq!(reply.message, "Found 0 objects");
}

fn aimed(limit: u32) -> babamul_objects::position_search::AimedSearch {
    let search =
        PositionSearch { ra: double(10.0), dec: double(20.0), radius: double(5.0), limit };
    search.aim(Bson::Double(-170.0), Bson::Double(20.0), Bson::Double(0.25))
}

#[test]
fn the_position_search_asks_both_surveys() {
    let near_point = json(
        r#"{"coordinates.radec_geojson":
            {"$nearSphere": [-170.0, 20.0], "$maxDistance": 0.25}}"#,
    );
    let search = aimed(4);
    let asked = search.ztf_query();
    assert_eq!(asked.collection, "ZTF_alerts_aux");
    assert_eq!(asked.filter, near_point);
    assert_eq!((asked.sort, asked.limit), (None, Some(4)));
    let search = search.ztf_found(read(vec![])).unwrap();
    let asked = search.lsst_query();
    assert_eq!(asked.collection, "LSST_alerts_aux");
    assert_eq!(asked.filter, near_point);
    assert_eq!(asked.limit, Some(4));
}

#[test]
fn the_position_search_shows_the_nearest_first() {
    let search = aimed(4)
        .ztf_found(cut_short(vec![near("z1", 1.0), near("z3", 3.0), near("z2", 2.0)]))
        .unwrap();
    let reply = search.lsst_found(read(vec![near("l2", 2.0), near("l0", 0.5)])).unwrap();
    assert_eq!(ids(&reply), ["l0", "z1", "z2", "l2"]);
    assert_eq!(reply.results[0].survey, Survey::Lsst);
    assert_eq!(reply.results[0].distance_arcsec, Some(double(0.5)));
    assert_eq!(reply.message, "Found 4 objects");
}

#[test]
fn a_result_without_a_distance_comes_last() {
    let mut search = aimed(9).ztf_found(read(vec![near("z", 7.0), near("y", 8.0)])).unwrap();
    search.ztf_results[0].distance_arcsec = None;
    let reply = search.lsst_found(read(vec![near("l", 9.0)])).unwrap();
    assert_eq!(ids(&reply), ["y", "l", "z"]);
}

#[test]
fn a_distance_that_is_no_number_loses_nothing() {
    let search = aimed(9).ztf_found(read(vec![near("z", f64::NAN), near("y", 8.0)])).unwrap();
    let reply = search.lsst_found(read(vec![near("l", 1.0)])).unwrap();
    let mut shown = ids(&reply);
    shown.sort();
    assert_eq!(shown, ["l", "y", "z"]);
}

#[test]
fn the_position_search_reports_a_survey_that_is_down() {
    internal_error(aimed(4).ztf_found(not_opened()), "error searching ZTF objects: down");
    let search = aimed(4).ztf_found(read(vec![])).unwrap();
    internal_error(search.lsst_found(not_opened()), "error searching LSST objects: down");
}
