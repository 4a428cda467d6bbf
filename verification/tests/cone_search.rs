use babamul_objects::cone_search::{
    cone_search_objects, ConeMatches, ConeSearch, ConeStep, ConeTarget, ObjectsConeSearchQuery,
};
use babamul_objects::ieee::Float64;
use babamul_objects::query::Rows;
use babamul_objects::search::{ObjectMini, SearchObjectResult};
use babamul_objects::survey::Survey;
use mongodb::bson::{Bson, Document};

fn double(x: f64) -> Float64 {
    Float64::from_bits(x.to_bits())
}

fn json(text: &str) -> Document {
    let value: serde_json::Value = serde_json::from_str(text).unwrap();
    match Bson::try_from(value).unwrap() {
        Bson::Document(doc) => doc,
        other => panic!("no document: {:?}", other),
    }
}

fn target(name: &str, ra: f64, dec: f64) -> ConeTarget {
    ConeTarget { name: name.to_string(), ra: double(ra), dec: double(dec) }
}

fn begin(targets: Vec<ConeTarget>, radius: f64) -> Result<ConeSearch, String> {
    let query =
        ObjectsConeSearchQuery { coordinates: targets, radius_arcsec: double(radius) };
    cone_search_objects(true, Survey::Decam, query).map_err(|r| r.message().to_string())
}

fn object(id: &str) -> ObjectMini {
    ObjectMini { object_id: id.to_string(), ra: double(1.0), dec: double(2.0) }
}

#[test]
fn a_cone_search_needs_a_user_a_radius_and_targets() {
    let query = ObjectsConeSearchQuery { coordinates: vec![], radius_arcsec: double(0.0) };
    let refusal = cone_search_objects(false, Survey::Ztf, query).err().unwrap();
    assert_eq!(refusal.status_code(), 401);
    let one = || vec![target("a", 1.0, 2.0)];
    for radius in [0.0, -1.0, 600.5, f64::NAN] {
        assert_eq!(
            begin(one(), radius).err().unwrap(),
            "radius_arcsec must be between 0 and 600"
        );
    }
    let wrong_count = "Must provide between 1 and 1000 coordinate pairs for cone search";
    assert_eq!(begin(vec![], 1.0).err().unwrap(), wrong_count);
    let many = |n: usize| (0..n).map(|i| target(&format!("t{}", i), 0.0, 0.0)).collect();
    assert_eq!(begin(many(1001), 1.0).err().unwrap(), wrong_count);
    assert_eq!(begin(many(1000), 600.0).unwrap().waiting.len(), 1000);
}

#[test]
fn every_target_is_searched_and_answered() {
    let mut search = begin(vec![target("a", 1.0, 2.0), target("b", 3.0, 4.0)], 1.0).unwrap();
    let mut asked = 0;
    let reply = loop {
        match search.step() {
            ConeStep::Ask(question) => {
                asked += 1;
                let filter = question
                    .query(Bson::Double(-179.0), Bson::Double(2.0), Bson::Double(0.5));
                assert_eq!(filter.collection, "DECAM_alerts_aux");
                assert_eq!(
                    filter.filter,
                    json(
                        r#"{"coordinates.radec_geojson": {"$geoWithin":
                            {"$centerSphere": [[-179.0, 2.0], 0.5]}}}"#
                    )
                );
                assert_eq!((filter.sort, filter.projection, filter.limit), (None, None, None));
                let rows = if asked == 1 { vec![object("x"), object("y")] } else { vec![] };
                let failure = Some("lost".to_string());
                search = question.found(Rows::Read { rows, failure }).unwrap();
            }
            ConeStep::Answer(reply) => break reply,
            ConeStep::Refuse(refusal) => panic!("refused: {:?}", refusal),
        }
    };
    assert_eq!(asked, 2);
    assert_eq!(reply.message, "Cone search completed");
    assert_eq!(reply.results.len(), 2);
    assert_eq!(reply.results[0].name, "a");
    assert_eq!(reply.results[0].matches[1].object_id, "y");
    assert_eq!(reply.results[0].matches[1].survey, Survey::Decam);
    assert_eq!(reply.results[0].matches[1].distance_arcsec, None);
    assert_eq!(reply.results[1].name, "b");
    assert!(reply.results[1].matches.is_empty());
}

fn refusal_of(search: ConeSearch) -> (u16, String) {
    match search.step() {
        ConeStep::Refuse(refusal) => (refusal.status_code(), refusal.message().to_string()),
        _ => panic!("not refused"),
    }
}

#[test]
fn a_target_out_of_bounds_is_refused_when_its_turn_comes() {
    let search = begin(vec![target("m31", 360.0, 99.0)], 1.0).unwrap();
    assert_eq!(
        refusal_of(search),
        (400, "Invalid RA for object m31: must be in [0, 360)".to_string())
    );
    let search = begin(vec![target("a", 1.0, 2.0), target("m32", 0.0, -91.0)], 1.0).unwrap();
    let question = match search.step() {
        ConeStep::Ask(question) => question,
        _ => panic!("no question"),
    };
    let search = question.found(Rows::Read { rows: vec![], failure: None }).unwrap();
    assert_eq!(
        refusal_of(search),
        (400, "Invalid Dec for object m32: must be in [-90, 90]".to_string())
    );
}

#[test]
fn a_search_that_cannot_be_made_is_reported() {
    let search = begin(vec![target("a", 1.0, 2.0)], 1.0).unwrap();
    let question = match search.step() {
        ConeStep::Ask(question) => question,
        _ => panic!("no question"),
    };
    let refusal = question.found(Rows::NotOpened { error: "down".to_string() }).err().unwrap();
    assert_eq!(refusal.status_code(), 500);
    assert_eq!(refusal.message(), "error performing cone search for a: down");
}

fn answers(targets: Vec<ConeTarget>) -> Vec<(String, Vec<String>)> {
    let mut search = begin(targets, 1.0).unwrap();
    loop {
        match search.step() {
            ConeStep::Ask(question) => {
                let rows = vec![object(&format!("near {}", question.target.name))];
                search = question.found(Rows::Read { rows, failure: None }).unwrap();
            }
            ConeStep::Answer(reply) => {
                let ids = |matches: &[SearchObjectResult]| {
                    matches.iter().map(|found| found.object_id.clone()).collect()
                };
                let entry = |entry: &ConeMatches| (entry.name.clone(), ids(&entry.matches));
                return reply.results.iter().map(entry).collect();
            }
            ConeStep::Refuse(refusal) => panic!("refused: {:?}", refusal),
        }
    }
}

#[test]
fn a_name_is_answered_for_itself() {
    let alone = answers(vec![target("b", 3.0, 4.0)]);
    assert_eq!(alone, [("b".to_string(), vec!["near b".to_string()])]);
    let first = answers(vec![target("b", 3.0, 4.0), target("a", 1.0, 2.0)]);
    let last = answers(vec![target("a", 1.0, 2.0), target("c", 5.0, 6.0), target("b", 3.0, 4.0)]);
    assert_eq!(first[0], alone[0]);
    assert_eq!(last[2], alone[0]);
    assert_eq!(first[1], last[0]);
}
