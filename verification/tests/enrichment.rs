use babamul_objects::enrichment::{
    multisurvey_lightcurve, AfterWrite, AlertBatch, Analysis, DiaSource, EnrichedAlert, EnrichmentConfig,
    EnrichmentWorkerError, LsstAlertForEnrichment, LsstAlertProperties, LsstCandidate,
    LsstEnrichmentWorker, LsstMatch, LsstSurveyMatches, WorkerStart, ZtfMatch,
    FORCED_MIN_SNR, IS_HOSTED_SCORE_THRESH, IS_NEAR_BRIGHTSTAR_DISTANCE_THRESH_ARCSEC,
    IS_NEAR_BRIGHTSTAR_MAG_THRESH, IS_STELLAR_DISTANCE_THRESH_ARCSEC,
};
use babamul_objects::ieee::{Float32, Float64};
use babamul_objects::photometry::{Band, LsstPhotometry, PhotometryMag, Sighting};
use babamul_objects::pipeline::create_lsst_alert_pipeline;
use babamul_objects::sso::SsSource;
use babamul_objects::survey::Survey;
use babamul_objects::xmatch::CatalogJson;
use mongodb::bson::{Bson, Document};
use serde_json::Value;

fn double(x: f64) -> Float64 {
    Float64::from_bits(x.to_bits())
}

fn single(x: f32) -> Float32 {
    Float32::from_bits(x.to_bits())
}

fn value(text: &str) -> Value {
    serde_json::from_str(text).unwrap()
}

fn json(text: &str) -> Document {
    match Bson::try_from(value(text)).unwrap() {
        Bson::Document(doc) => doc,
        other => panic!("no document: {:?}", other),
    }
}

fn point(jd: f64, snr: Option<f64>, mag: Option<f32>) -> LsstPhotometry {
    LsstPhotometry {
        jd: double(jd),
        magpsf: mag.map(single),
        sigmapsf: Some(single(0.1)),
        diffmaglim: single(20.5),
        flux: Some(double(1000.0)),
        flux_err: double(10.0),
        band: Band::R,
        ra: Some(double(150.0)),
        dec: Some(double(30.0)),
        snr_psf: snr.map(double),
    }
}

fn mag(jd: f64, mag: f32) -> PhotometryMag {
    PhotometryMag { time: double(jd), mag: single(mag), mag_err: single(0.1), band: Band::R }
}

fn sighting(
    jd: f64,
    photometry: Option<PhotometryMag>,
    forced_photometry: Option<PhotometryMag>,
) -> Sighting {
    Sighting { jd: double(jd), photometry, forced_photometry }
}

fn alert() -> LsstAlertForEnrichment {
    LsstAlertForEnrichment {
        candid: 9876543210,
        object_id: "LSST24aaaaaaa".to_string(),
        ss_object_id: None,
        ss_source: None,
        candidate: LsstCandidate {
            dia_source: DiaSource {
                ra: double(150.0),
                dec: double(30.0),
                psf_flux: Some(single(1000.0)),
                ap_flux: Some(single(1100.0)),
            },
            jd: double(2460000.5),
        },
        prv_candidates: vec![point(2460000.0, Some(100.0), Some(18.5))],
        fp_hists: vec![],
        cross_matches: None,
        survey_matches: None,
    }
}

fn with_sources(sources: &str) -> LsstAlertForEnrichment {
    let mut a = alert();
    let matches = value(sources).as_array().unwrap().clone();
    a.cross_matches = Some(vec![
        CatalogJson { catalog: "Gaia".to_string(), matches: vec![value("{}")] },
        CatalogJson { catalog: "LSPSC".to_string(), matches },
    ]);
    a
}

fn worker() -> LsstEnrichmentWorker {
    let config = EnrichmentConfig { babamul_enabled: false, lsst_crossmatch: None };
    match LsstEnrichmentWorker::new(&config).unwrap() {
        WorkerStart::Ready(worker) => worker,
        WorkerStart::NeedsCatalogs(_) => panic!("catalogues needed"),
    }
}

fn properties(
    alert: &LsstAlertForEnrichment,
    in_footprint: bool,
) -> LsstAlertProperties<&'static str, &'static str> {
    let analysis = Analysis {
        activity: "activity",
        in_footprint,
        photstats: "own",
        stationary: true,
        multisurvey_photstats: Some("both"),
    };
    worker().get_alert_properties(alert, analysis)
}

fn stars(sources: &str, in_footprint: bool) -> (Option<bool>, Option<bool>) {
    let p = properties(&with_sources(sources), in_footprint);
    (p.star, p.near_brightstar)
}

#[test]
fn thresholds_are_their_numbers() {
    assert_eq!(IS_STELLAR_DISTANCE_THRESH_ARCSEC, 1.0f64.to_bits());
    assert_eq!(IS_NEAR_BRIGHTSTAR_DISTANCE_THRESH_ARCSEC, 20.0f64.to_bits());
    assert_eq!(IS_NEAR_BRIGHTSTAR_MAG_THRESH, 15.0f64.to_bits());
    assert_eq!(IS_HOSTED_SCORE_THRESH, 0.5f64.to_bits());
    assert_eq!(FORCED_MIN_SNR, 3.0f64.to_bits());
}

#[test]
fn without_matches_the_footprint_decides() {
    assert_eq!(stars("[]", true), (Some(false), Some(false)));
    assert_eq!(stars("[]", false), (None, None));
    assert!(with_sources("[]").needs_footprint());
    assert!(alert().needs_footprint());
    let p = properties(&alert(), false);
    assert_eq!((p.star, p.near_brightstar), (None, None));
    let mut other = with_sources("[{}]");
    assert!(!other.needs_footprint());
    other.cross_matches.as_mut().unwrap().pop();
    assert!(other.needs_footprint());
}

#[test]
fn a_near_star_makes_the_detection_one() {
    let star = |text| stars(text, false).0;
    assert_eq!(star(r#"[{"distance_arcsec": 0.5, "score": 0.95}]"#), Some(true));
    assert_eq!(star(r#"[{"distance_arcsec": 1.0, "score": 0.51}]"#), Some(true));
    assert_eq!(star(r#"[{"distance_arcsec": 1, "score": 1}]"#), Some(true));
    assert_eq!(star(r#"[{"distance_arcsec": 1.01, "score": 0.95}]"#), Some(false));
    assert_eq!(star(r#"[{"distance_arcsec": 0.5, "score": 0.5}]"#), Some(false));
    assert_eq!(star(r#"[{"distance_arcsec": 2.0, "score": 0.3}]"#), Some(false));
    assert_eq!(star(r#"[{"score": 0.95}, {"distance_arcsec": 0.1}]"#), Some(false));
    assert_eq!(star(r#"[{"distance_arcsec": "0.5", "score": 0.95}]"#), Some(false));
    assert_eq!(
        star(r#"[{"distance_arcsec": 9.0, "score": 0.9}, {"distance_arcsec": 0.2, "score": 0.9}]"#),
        Some(true)
    );
}

#[test]
fn a_bright_star_may_be_farther_away() {
    let bright = |text| stars(text, false).1;
    assert_eq!(
        bright(r#"[{"distance_arcsec": 20.0, "score": 0.6, "mag_white": 15.0}]"#),
        Some(true)
    );
    assert_eq!(
        bright(r#"[{"distance_arcsec": 20.1, "score": 0.6, "mag_white": 15.0}]"#),
        Some(false)
    );
    assert_eq!(
        bright(r#"[{"distance_arcsec": 3.0, "score": 0.6, "mag_white": 15.1}]"#),
        Some(false)
    );
    assert_eq!(
        bright(r#"[{"distance_arcsec": 3.0, "score": 0.5, "mag_white": 12.0}]"#),
        Some(false)
    );
    assert_eq!(bright(r#"[{"distance_arcsec": 3.0, "score": 0.9}]"#), Some(false));
    assert_eq!(
        stars(
            r#"[{"distance_arcsec": 0.4, "score": 0.9},
                {"distance_arcsec": 8.0, "score": 0.9, "mag_white": 11.0}]"#,
            true
        ),
        (Some(true), Some(true))
    );
}

#[test]
fn a_rock_is_an_association() {
    let mut a = alert();
    let p = properties(&a, true);
    assert!(!p.rock && !p.sso.unwrap().is_sso);
    a.ss_source = Some(SsSource { eph_vmag: Some(single(19.5)), ..SsSource::default() });
    let p = properties(&a, true);
    assert!(!p.rock && p.sso.unwrap().predicted_mag.is_none());
    a.ss_object_id = Some("555555".to_string());
    let p = properties(&a, true);
    assert!(p.rock);
    let sso = p.sso.unwrap();
    assert!(sso.is_sso);
    assert_eq!(sso.predicted_mag, Some(single(19.5)));
    assert_eq!(p.activity, Some("activity"));
    assert!(p.stationary);
}

#[test]
fn the_statistics_are_of_both_surveys_where_ztf_has_the_object() {
    let mut a = alert();
    let p = properties(&a, true);
    assert_eq!((p.photstats, p.multisurvey_photstats), ("own", "own"));
    a.survey_matches = Some(LsstSurveyMatches { ztf: None });
    assert_eq!(properties(&a, true).multisurvey_photstats, "own");
    a.survey_matches = Some(LsstSurveyMatches { ztf: Some(ztf_match()) });
    let p = properties(&a, true);
    assert_eq!((p.photstats, p.multisurvey_photstats), ("own", "both"));
}

fn ztf_match() -> ZtfMatch {
    ZtfMatch {
        object_id: "ZTF24aaaaaaa".to_string(),
        ra: double(180.0),
        dec: double(0.0),
        prv_candidates: vec![
            sighting(2459999.5, Some(mag(2459999.5, 19.0)), None),
            sighting(2460000.5, None, Some(mag(2460000.5, 22.0))),
            sighting(2460001.5, Some(mag(2460001.5, 19.5)), Some(mag(2460001.5, 19.5))),
        ],
        fp_hists: vec![
            sighting(2460000.0, Some(mag(2460000.0, 21.0)), None),
            sighting(2460000.5, Some(mag(2460000.5, 20.5)), Some(mag(2460000.5, 20.0))),
            sighting(2460000.25, None, None),
            sighting(2460000.75, Some(mag(2460000.75, 18.0)), Some(mag(2460000.75, 18.0))),
        ],
    }
}

#[test]
fn measurements_become_points() {
    let p = point(2459999.5, Some(-2.5), Some(19.0));
    assert_eq!(p.to_photometry_mag(None), Some(mag(2459999.5, 19.0)));
    assert_eq!(p.to_photometry_mag(Some(double(2.5))), Some(mag(2459999.5, 19.0)));
    assert_eq!(p.to_photometry_mag(Some(double(2.6))), None);
    assert_eq!(point(1.0, None, Some(19.0)).to_photometry_mag(None), None);
    assert_eq!(point(1.0, Some(5.0), None).to_photometry_mag(None), None);
    let mut p = point(1.0, Some(5.0), Some(19.0));
    p.sigmapsf = None;
    assert_eq!(p.to_photometry_mag(None), None);
}

#[test]
fn the_light_curve_ends_at_the_alert() {
    let mut a = alert();
    a.prv_candidates = vec![
        point(2460000.5, Some(1.0), Some(18.0)),
        point(2460000.75, Some(50.0), Some(18.25)),
        point(2459990.0, None, Some(18.5)),
    ];
    a.fp_hists = vec![
        point(2459998.5, Some(3.0), Some(19.0)),
        point(2459999.5, Some(2.9), Some(19.25)),
        point(2460000.0, Some(-40.0), Some(19.5)),
        point(2460001.0, Some(40.0), Some(19.75)),
    ];
    assert_eq!(
        a.lightcurve(),
        [mag(2460000.5, 18.0), mag(2459998.5, 19.0), mag(2460000.0, 19.5)]
    );
}

#[test]
fn the_light_curve_of_ztf_follows_that_of_lsst() {
    let mut a = alert();
    assert_eq!(a.ztf_lightcurve(), None);
    assert_eq!(multisurvey_lightcurve(&a.lightcurve(), None), None);
    a.survey_matches = Some(LsstSurveyMatches { ztf: Some(ztf_match()) });
    let ztf = a.ztf_lightcurve();
    assert_eq!(ztf, Some(vec![mag(2459999.5, 19.0), mag(2460000.5, 20.0)]));
    assert_eq!(
        multisurvey_lightcurve(&a.lightcurve(), ztf),
        Some(vec![mag(2460000.0, 18.5), mag(2459999.5, 19.0), mag(2460000.5, 20.0)])
    );
}

#[test]
fn a_worker_without_babamul_starts_at_once() {
    let mut w = worker();
    assert_eq!(w.input_queue_name(), "LSST_alerts_enrichment_queue");
    assert_eq!(w.output_queue_name(), "LSST_alerts_filter_queue");
    assert_eq!(w.alert_pipeline, create_lsst_alert_pipeline());
    assert!(!w.babamul);
    w.disable_babamul();
    assert!(!w.babamul);
    assert_eq!(LsstEnrichmentWorker::survey(), Survey::Lsst);
}

fn names(texts: &[&str]) -> Vec<String> {
    texts.iter().map(|t| t.to_string()).collect()
}

fn configuration_error<T>(result: Result<T, EnrichmentWorkerError>) -> String {
    match result {
        Ok(_) => panic!("no error"),
        Err(EnrichmentWorkerError::ConfigurationError(message)) => message,
    }
}

#[test]
fn a_worker_with_babamul_needs_the_catalogue() {
    let config = |catalogs| EnrichmentConfig { babamul_enabled: true, lsst_crossmatch: catalogs };
    assert_eq!(
        configuration_error(LsstEnrichmentWorker::new(&config(None))),
        "Babamul is enabled but no LSST cross-match configuration is present"
    );
    assert_eq!(
        configuration_error(LsstEnrichmentWorker::new(&config(Some(names(&["Gaia"]))))),
        "Babamul is enabled but LSPSC cross-match is not configured for LSST alerts"
    );
    let start = || match LsstEnrichmentWorker::new(&config(Some(names(&["Gaia", "LSPSC"])))) {
        Ok(WorkerStart::NeedsCatalogs(pending)) => pending,
        _ => panic!("catalogues not needed"),
    };
    assert_eq!(
        configuration_error(start().catalogs_listed(&names(&["ZTF_alerts"]))),
        "Babamul is enabled but the LSPSC catalog does not exist in the database"
    );
    let mut w = start().catalogs_listed(&names(&["ZTF_alerts", "LSPSC"])).unwrap();
    assert!(w.babamul);
    w.disable_babamul();
    assert!(!w.babamul);
    assert_eq!(w.input_queue_name(), "LSST_alerts_enrichment_queue");
}

#[test]
fn enriched_alerts_are_written_back() {
    let now = Bson::Double(2460001.25);
    assert!(worker().process_alerts(&vec![], &now).is_none());
    let alerts = vec![
        EnrichedAlert { candid: 9876543210, properties: json(r#"{"rock": false}"#) },
        EnrichedAlert { candid: -7, properties: json(r#"{"rock": true}"#) },
        EnrichedAlert { candid: i64::MIN, properties: Document::new() },
    ];
    let mut w = worker();
    w.babamul = true;
    let batch = w.process_alerts(&alerts, &now).unwrap();
    assert!(batch.forward);
    assert_eq!(batch.processed, ["9876543210", "-7", "-9223372036854775808"]);
    assert_eq!(batch.updates.len(), 3);
    let mut filter = Document::new();
    filter.insert("_id", Bson::Int64(9876543210));
    assert_eq!(batch.updates[0].filter, filter);
    assert_eq!(
        batch.updates[1].update,
        json(r#"{"$set": {"properties": {"rock": true}, "updated_at": 2460001.25}}"#)
    );
    let mut filter = Document::new();
    filter.insert("_id", Bson::Int64(-7));
    assert_eq!(batch.updates[1].filter, filter);
}

fn batch(babamul: bool) -> AlertBatch {
    let mut w = worker();
    w.babamul = babamul;
    let alerts = vec![EnrichedAlert { candid: 7, properties: Document::new() }];
    w.process_alerts(&alerts, &Bson::Double(0.0)).unwrap()
}

#[test]
fn what_is_written_is_handed_on() {
    match batch(true).written::<String>(Ok(())) {
        Ok(AfterWrite::Publish(publication)) => {
            assert_eq!(publication.published::<String>(Ok(())), ["7"]);
        }
        _ => panic!("not handed on"),
    }
    match batch(true).written::<String>(Ok(())) {
        Ok(AfterWrite::Publish(publication)) => {
            assert_eq!(publication.published(Err("no broker")), ["7"]);
        }
        _ => panic!("not handed on"),
    }
    match batch(false).written::<String>(Ok(())) {
        Ok(AfterWrite::Done(processed)) => assert_eq!(processed, ["7"]),
        _ => panic!("handed on"),
    }
}

#[test]
fn what_is_not_written_is_not_handed_on() {
    for babamul in [false, true] {
        match batch(babamul).written(Err("down")) {
            Err(error) => assert_eq!(error, "down"),
            Ok(_) => panic!("written"),
        }
    }
}

#[test]
fn babamul_changes_nothing_that_is_written() {
    let (with, without) = (batch(true), batch(false));
    assert_eq!(with.processed, without.processed);
    assert_eq!(with.updates[0].filter, without.updates[0].filter);
    assert_eq!(with.updates[0].update, without.updates[0].update);
    assert!(with.forward && !without.forward);
}

#[test]
fn what_does_not_count_never_matters() {
    let mut a = with_sources(
        r#"[{"distance_arcsec": 0.4, "score": 0.9},
            {"distance_arcsec": 8.0, "score": 0.9, "mag_white": 11.0}]"#,
    );
    let (curve, shown) = (a.lightcurve(), properties(&a, false));
    a.prv_candidates.push(point(2460000.75, Some(50.0), Some(18.0)));
    a.fp_hists.push(point(2460000.0, Some(2.9), Some(19.0)));
    a.fp_hists.push(point(2460000.0, None, Some(19.0)));
    a.cross_matches.as_mut().unwrap()[1].matches.reverse();
    assert_eq!(a.lightcurve(), curve);
    let changed = properties(&a, false);
    assert_eq!((changed.star, changed.near_brightstar), (shown.star, shown.near_brightstar));
    assert_eq!((changed.star, changed.near_brightstar), (Some(true), Some(true)));
}

#[test]
fn the_pipeline_gathers_both_surveys() {
    let stages = create_lsst_alert_pipeline();
    assert_eq!(stages.len(), 5);
    assert_eq!(stages[0], json(r#"{"$match": {"_id": {"$in": []}}}"#));
    assert_eq!(
        stages[1],
        json(
            r#"{"$lookup": {"from": "LSST_alerts_aux", "localField": "objectId",
                "foreignField": "_id", "as": "aux"}}"#
        )
    );
    assert_eq!(
        stages[2],
        json(r#"{"$unwind": {"path": "$aux", "preserveNullAndEmptyArrays": false}}"#)
    );
    assert_eq!(
        stages[3],
        json(
            r#"{"$lookup": {"from": "ZTF_alerts_aux", "localField": "aux.aliases.ZTF.0",
                "foreignField": "_id", "as": "ztf_aux"}}"#
        )
    );
    let at = |path: &str| format!(r#"{{"$arrayElemAt": ["{}", 0]}}"#, path);
    let place = at("$ztf_aux.coordinates.radec_geojson.coordinates");
    let project = format!(
        r#"{{"$project": {{
            "objectId": 1, "ssObjectId": 1, "ss_source": 1, "candidate": 1,
            "prv_candidates": "$aux.prv_candidates",
            "fp_hists": "$aux.fp_hists",
            "cross_matches": "$aux.cross_matches",
            "survey_matches": {{"ztf": {{"$cond": {{
                "if": {{"$gt": [{{"$size": "$ztf_aux"}}, 0]}},
                "then": {{
                    "objectId": {},
                    "prv_candidates": {},
                    "prv_nondetections": {},
                    "fp_hists": {},
                    "ra": {{"$add": [{{"$arrayElemAt": [{}, 0]}}, 180]}},
                    "dec": {{"$arrayElemAt": [{}, 1]}}
                }},
                "else": null
            }}}}}}
        }}}}"#,
        at("$ztf_aux._id"),
        at("$ztf_aux.prv_candidates"),
        at("$ztf_aux.prv_nondetections"),
        at("$ztf_aux.fp_hists"),
        place,
        place
    );
    assert_eq!(stages[4], json(&project));
}

#[test]
fn a_match_in_lsst_carries_its_light_curve() {
    let m = LsstMatch {
        object_id: "17".to_string(),
        ra: double(1.0),
        dec: double(2.0),
        prv_candidates: vec![point(1.0, Some(5.0), Some(19.0))],
        fp_hists: vec![],
    };
    assert_eq!(m.prv_candidates[0].to_photometry_mag(None), Some(mag(1.0, 19.0)));
}
