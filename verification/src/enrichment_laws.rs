//! What enrichment comes to: laws on what the worker returns.

use crate::document::{all_fields, bson_value, document_fields, field_value, BsonValue};
use crate::enrichment::{
    is_bright_star, is_stellar, is_update, law_each_catalogue_has_one_value,
    law_thresholds_are_the_numbers, multisurvey_lightcurve, optional_ref, some_bright_star,
    some_stellar, value_under, AfterWrite, AlertBatch, Analysis, EnrichedAlert, EnrichmentConfig,
    EnrichmentWorkerError, LsstAlertForEnrichment, LsstAlertProperties, LsstEnrichmentWorker,
    PendingWorker, Publication, WorkerStart, IS_HOSTED_SCORE_THRESH,
    IS_NEAR_BRIGHTSTAR_DISTANCE_THRESH_ARCSEC, IS_NEAR_BRIGHTSTAR_MAG_THRESH,
    IS_STELLAR_DISTANCE_THRESH_ARCSEC,
};
use crate::ieee::Float64;
use crate::json::{get_number, json_value, json_values, number_field, JsonValue};
use crate::meaning::{at_path, lemma_one_condition, meets, with_set, Rules};
use crate::number_laws::{
    above_halves, at_most_halves, lemma_bound, lemma_no_leading_zero, writes,
};
use crate::photometry::PhotometryMag;
use crate::pipeline::create_lsst_alert_pipeline;
use crate::sso::{rubin_association, LsstSsoAssociation, SsSource};
use crate::text::{decimal, decimal_digits, law_decimal_writes_the_number};
use crate::xmatch::json_views;
use mongodb::bson::{Bson, Document};
use serde_json::Value;
use vstd::prelude::*;

verus! {

/// The number under a key of a JSON object, as a double.
pub open spec fn number_under(value: JsonValue, key: Seq<char>) -> Option<Float64> {
    match value {
        JsonValue::Fields(fields) => if fields.dom().contains(key) {
            match fields[key] {
                JsonValue::Number { double, .. } => Some(double),
                _ => None,
            }
        } else {
            None
        },
        _ => None,
    }
}

/// Whether a match is at most one arcsecond away and scored above a half.
pub open spec fn near_and_sure(source: JsonValue) -> bool {
    match (number_under(source, "distance_arcsec"@), number_under(source, "score"@)) {
        (Some(distance), Some(score)) => at_most_halves(distance, 2) && above_halves(score, 1),
        _ => false,
    }
}

/// Whether a match is at most 20 arcseconds away, scored above a half and of a white magnitude of
/// at most 15.
pub open spec fn near_sure_and_bright(source: JsonValue) -> bool {
    match (
        number_under(source, "distance_arcsec"@),
        number_under(source, "score"@),
        number_under(source, "mag_white"@),
    ) {
        (Some(distance), Some(score), Some(magnitude)) => {
            &&& at_most_halves(distance, 40)
            &&& above_halves(score, 1)
            &&& at_most_halves(magnitude, 30)
        },
        _ => false,
    }
}

/// Whether a value is the match at a place in the catalogue of point sources.
pub open spec fn is_source(
    alert: LsstAlertForEnrichment,
    catalog: int,
    place: int,
    source: JsonValue,
) -> bool {
    match alert.cross_matches {
        Some(catalogs) => {
            &&& 0 <= catalog < catalogs@.len()
            &&& catalogs@[catalog].catalog@ == "LSPSC"@
            &&& 0 <= place < catalogs@[catalog].matches@.len()
            &&& json_value(catalogs@[catalog].matches@[place]) == source
        },
        None => false,
    }
}

/// Whether no two catalogues of an alert have the same name.
pub open spec fn names_differ(alert: LsstAlertForEnrichment) -> bool {
    match alert.cross_matches {
        Some(catalogs) => forall|i: int, j: int|
            0 <= i < j < catalogs@.len() ==> (#[trigger] catalogs@[i]).catalog@ != (
            #[trigger] catalogs@[j]).catalog@,
        None => true,
    }
}

/// Whether an alert has a match in the catalogue of point sources for which the condition holds.
pub open spec fn has_source(
    alert: LsstAlertForEnrichment,
    condition: spec_fn(JsonValue) -> bool,
) -> bool {
    exists|catalog: int, place: int, source: JsonValue| #[trigger]
        is_source(alert, catalog, place, source) && condition(source)
}

proof fn lemma_thresholds(source: JsonValue)
    ensures
        is_stellar(source) == near_and_sure(source),
        is_bright_star(source) == near_sure_and_bright(source),
{
    law_thresholds_are_the_numbers();
    assert(number_field(source, "distance_arcsec"@) == number_under(source, "distance_arcsec"@));
    assert(number_field(source, "score"@) == number_under(source, "score"@));
    assert(number_field(source, "mag_white"@) == number_under(source, "mag_white"@));
    if let Some(distance) = number_under(source, "distance_arcsec"@) {
        lemma_bound(distance, IS_STELLAR_DISTANCE_THRESH_ARCSEC, 2);
        lemma_bound(distance, IS_NEAR_BRIGHTSTAR_DISTANCE_THRESH_ARCSEC, 40);
    }
    if let Some(score) = number_under(source, "score"@) {
        lemma_bound(score, IS_HOSTED_SCORE_THRESH, 1);
    }
    if let Some(magnitude) = number_under(source, "mag_white"@) {
        lemma_bound(magnitude, IS_NEAR_BRIGHTSTAR_MAG_THRESH, 30);
    }
}

proof fn lemma_value_under_is_some_entry<V>(entries: Seq<(Seq<char>, V)>, name: Seq<char>) -> (i:
    int)
    ensures
        value_under(entries, name) is Some ==> 0 <= i < entries.len() && entries[i].0 == name
            && value_under(entries, name) == Some(entries[i].1),
        value_under(entries, name) is None ==> forall|k: int|
            0 <= k < entries.len() ==> (#[trigger] entries[k]).0 != name,
    decreases entries.len(),
{
    if entries.len() == 0 {
        0
    } else if entries[0].0 == name {
        0
    } else {
        let less = entries.drop_first();
        let i = lemma_value_under_is_some_entry(less, name);
        if value_under(less, name) is None {
            assert forall|k: int| 0 <= k < entries.len() implies (#[trigger] entries[k]).0
                != name by {
                if k > 0 {
                    assert(less[k - 1] == entries[k]);
                }
            }
        } else {
            assert(less[i] == entries[i + 1]);
        }
        i + 1
    }
}

/// The matches in the catalogue of point sources are those that the alert holds under its name.
proof fn lemma_sources(alert: LsstAlertForEnrichment, source: JsonValue)
    requires
        names_differ(alert),
    ensures
        (exists|i: int|
            0 <= i < alert.point_sources().len() && #[trigger] alert.point_sources()[i] == source)
            <==> exists|catalog: int, place: int| #[trigger]
            is_source(alert, catalog, place, source),
{
    if let Some(catalogs) = alert.cross_matches {
        let views = json_views(catalogs@);
        let sources = alert.point_sources();
        assert forall|i: int, j: int| 0 <= i < j < views.len() implies (#[trigger] views[i]).0 != (
        #[trigger] views[j]).0 by {
            assert(catalogs@[i].catalog@ != catalogs@[j].catalog@);
        }
        let c = lemma_value_under_is_some_entry(views, "LSPSC"@);
        if exists|i: int| 0 <= i < sources.len() && #[trigger] sources[i] == source {
            let i = choose|i: int| 0 <= i < sources.len() && #[trigger] sources[i] == source;
            assert(views[c] == (catalogs@[c].catalog@, json_values(catalogs@[c].matches@)));
            assert(is_source(alert, c, i, source));
        }
        if exists|catalog: int, place: int| #[trigger] is_source(alert, catalog, place, source) {
            let (catalog, place) = choose|catalog: int, place: int| #[trigger]
                is_source(alert, catalog, place, source);
            assert(views[catalog].0 == "LSPSC"@);
            law_each_catalogue_has_one_value(views, catalog);
            assert(sources == json_values(catalogs@[catalog].matches@));
            assert(sources[place] == source);
        }
    }
}

/// A detection is a star just where some match in the catalogue of point sources is at most one
/// arcsecond away and scored above a half, and it is near a bright star just where some match is at
/// most 20 arcseconds away, scored above a half and of a white magnitude of at most 15. Nothing
/// else that a match holds plays a part. Both answers are missing just where there is no match and
/// the detection lies outside of the footprint.
pub proof fn law_stars_follow_the_matches<S: Clone, A>(
    worker: LsstEnrichmentWorker,
    alert: LsstAlertForEnrichment,
    analysis: Analysis<S, A>,
    properties: LsstAlertProperties<S, A>,
)
    requires
        call_ensures(
            LsstEnrichmentWorker::get_alert_properties::<S, A>,
            (&worker, &alert, analysis),
            properties,
        ),
        names_differ(alert),
    ensures
        properties.star == Some(true) <==> has_source(alert, |s: JsonValue| near_and_sure(s)),
        properties.near_brightstar == Some(true) <==> has_source(
            alert,
            |s: JsonValue| near_sure_and_bright(s),
        ),
        properties.star is None <==> !has_source(alert, |s: JsonValue| true)
            && !analysis.in_footprint,
        properties.near_brightstar is None <==> properties.star is None,
{
    let sources = alert.point_sources();
    let star = |s: JsonValue| near_and_sure(s);
    let bright = |s: JsonValue| near_sure_and_bright(s);
    let any = |s: JsonValue| true;
    assert forall|i: int| 0 <= i < sources.len() implies exists|c: int, k: int| #[trigger]
        is_source(alert, c, k, #[trigger] sources[i]) by {
        lemma_sources(alert, sources[i]);
    }
    assert forall|c: int, k: int, s: JsonValue| #[trigger] is_source(alert, c, k, s) implies exists|
        i: int,
    | 0 <= i < sources.len() && #[trigger] sources[i] == s by {
        lemma_sources(alert, s);
    }
    if some_stellar(sources) {
        let i = choose|i: int|
            0 <= i < sources.len() && is_stellar(#[trigger] sources[i]);
        let (c, k) = choose|c: int, k: int| #[trigger] is_source(alert, c, k, sources[i]);
        lemma_thresholds(sources[i]);
        assert(star(sources[i]));
    }
    if has_source(alert, star) {
        let (c, k, s) = choose|c: int, k: int, s: JsonValue| #[trigger]
            is_source(alert, c, k, s) && star(s);
        let i = choose|i: int| 0 <= i < sources.len() && #[trigger] sources[i] == s;
        lemma_thresholds(sources[i]);
        assert(is_stellar(sources[i]));
    }
    if some_bright_star(sources) {
        let i = choose|i: int|
            0 <= i < sources.len() && is_bright_star(#[trigger] sources[i]);
        let (c, k) = choose|c: int, k: int| #[trigger] is_source(alert, c, k, sources[i]);
        lemma_thresholds(sources[i]);
        assert(bright(sources[i]));
    }
    if has_source(alert, bright) {
        let (c, k, s) = choose|c: int, k: int, s: JsonValue| #[trigger]
            is_source(alert, c, k, s) && bright(s);
        let i = choose|i: int| 0 <= i < sources.len() && #[trigger] sources[i] == s;
        lemma_thresholds(sources[i]);
        assert(is_bright_star(sources[i]));
    }
    if sources.len() > 0 {
        let (c, k) = choose|c: int, k: int| #[trigger] is_source(alert, c, k, sources[0]);
        assert(any(sources[0]));
    }
    if has_source(alert, any) {
        let (c, k, s) = choose|c: int, k: int, s: JsonValue| #[trigger]
            is_source(alert, c, k, s) && any(s);
        let i = choose|i: int| 0 <= i < sources.len() && #[trigger] sources[i] == s;
    }
}

/// Whether two matches agree in what the answer on a star goes by.
pub open spec fn agree_on_the_star(a: JsonValue, b: JsonValue) -> bool {
    &&& number_under(a, "distance_arcsec"@) == number_under(b, "distance_arcsec"@)
    &&& number_under(a, "score"@) == number_under(b, "score"@)
}

/// Alerts whose matches agree, place by place, in distance and score are given the same answer on
/// the star.
pub proof fn law_distance_and_score_decide_on_the_star<S: Clone, A>(
    worker: LsstEnrichmentWorker,
    a: LsstAlertForEnrichment,
    analysis_a: Analysis<S, A>,
    properties_a: LsstAlertProperties<S, A>,
    b: LsstAlertForEnrichment,
    analysis_b: Analysis<S, A>,
    properties_b: LsstAlertProperties<S, A>,
)
    requires
        call_ensures(
            LsstEnrichmentWorker::get_alert_properties::<S, A>,
            (&worker, &a, analysis_a),
            properties_a,
        ),
        call_ensures(
            LsstEnrichmentWorker::get_alert_properties::<S, A>,
            (&worker, &b, analysis_b),
            properties_b,
        ),
        names_differ(a),
        names_differ(b),
        analysis_a.in_footprint == analysis_b.in_footprint,
        forall|c: int, k: int, s: JsonValue| #[trigger]
            is_source(a, c, k, s) ==> exists|t: JsonValue| #[trigger]
                is_source(b, c, k, t) && agree_on_the_star(s, t),
        forall|c: int, k: int, t: JsonValue| #[trigger]
            is_source(b, c, k, t) ==> exists|s: JsonValue| #[trigger]
                is_source(a, c, k, s) && agree_on_the_star(s, t),
    ensures
        properties_a.star == properties_b.star,
{
    law_stars_follow_the_matches(worker, a, analysis_a, properties_a);
    law_stars_follow_the_matches(worker, b, analysis_b, properties_b);
    let star = |s: JsonValue| near_and_sure(s);
    let any = |s: JsonValue| true;
    if has_source(a, star) {
        let (c, k, s) = choose|c: int, k: int, s: JsonValue| #[trigger]
            is_source(a, c, k, s) && star(s);
        let t = choose|t: JsonValue| #[trigger]
            is_source(b, c, k, t) && agree_on_the_star(s, t);
        assert(is_source(b, c, k, t) && star(t));
    }
    if has_source(b, star) {
        let (c, k, t) = choose|c: int, k: int, t: JsonValue| #[trigger]
            is_source(b, c, k, t) && star(t);
        let s = choose|s: JsonValue| #[trigger]
            is_source(a, c, k, s) && agree_on_the_star(s, t);
        assert(is_source(a, c, k, s) && star(s));
    }
    if has_source(a, any) {
        let (c, k, s) = choose|c: int, k: int, s: JsonValue| #[trigger]
            is_source(a, c, k, s) && any(s);
        let t = choose|t: JsonValue| #[trigger]
            is_source(b, c, k, t) && agree_on_the_star(s, t);
        assert(is_source(b, c, k, t) && any(t));
    }
    if has_source(b, any) {
        let (c, k, t) = choose|c: int, k: int, t: JsonValue| #[trigger]
            is_source(b, c, k, t) && any(t);
        let s = choose|s: JsonValue| #[trigger]
            is_source(a, c, k, s) && agree_on_the_star(s, t);
        assert(is_source(a, c, k, s) && any(s));
    }
}

/// Whether an association shows an ephemeris, each part of it under its own name.
pub open spec fn shows(sso: LsstSsoAssociation, ss: SsSource) -> bool {
    &&& sso.designation is Some == ss.designation is Some
    &&& ss.designation is Some ==> sso.designation->Some_0@ == ss.designation->Some_0@
    &&& sso.separation_arcsec == ss.eph_offset
    &&& sso.predicted_mag == ss.eph_vmag
    &&& sso.sky_motion == ss.eph_rate
    &&& sso.phase_angle == ss.phase_angle
    &&& sso.helio_dist == ss.helio_range
    &&& sso.topo_dist == ss.topo_range
}

/// Whether an association shows no ephemeris.
pub open spec fn shows_nothing(sso: LsstSsoAssociation) -> bool {
    &&& sso.designation is None
    &&& sso.separation_arcsec is None
    &&& sso.predicted_mag is None
    &&& sso.sky_motion is None
    &&& sso.phase_angle is None
    &&& sso.helio_dist is None
    &&& sso.topo_dist is None
}

/// An association is made of the identifier and the ephemeris: with an identifier it is one, of
/// Rubin, and shows the ephemeris that came along; without one it shows nothing.
pub proof fn law_an_association_shows_what_rubin_says(
    ss_object_id: Option<&str>,
    ss_source: Option<&SsSource>,
    sso: LsstSsoAssociation,
)
    requires
        call_ensures(LsstSsoAssociation::from_rubin, (ss_object_id, ss_source), sso),
    ensures
        sso.is_sso == ss_object_id is Some,
        sso.source is Some == ss_object_id is Some,
        ss_object_id is Some ==> sso.source->Some_0@ == "rubin"@,
        ss_object_id is Some && ss_source is Some ==> shows(sso, *ss_source->Some_0),
        ss_object_id is None || ss_source is None ==> shows_nothing(sso),
{
    assert(sso@ == rubin_association(ss_object_id is Some, ss_source));
}

/// The properties besides those on stars: whether the detection is of a known solar system object,
/// with its ephemeris; and the activity and the statistics as they were found, those over both
/// surveys where ZTF has the object.
pub proof fn law_properties_carry_the_analysis<S: Clone, A>(
    worker: LsstEnrichmentWorker,
    alert: LsstAlertForEnrichment,
    analysis: Analysis<S, A>,
    properties: LsstAlertProperties<S, A>,
)
    requires
        call_ensures(
            LsstEnrichmentWorker::get_alert_properties::<S, A>,
            (&worker, &alert, analysis),
            properties,
        ),
    ensures
        properties.rock == alert.ss_object_id is Some,
        properties.sso is Some,
        properties.sso->Some_0.is_sso == alert.ss_object_id is Some,
        properties.sso->Some_0.source is Some == alert.ss_object_id is Some,
        alert.ss_object_id is Some ==> properties.sso->Some_0.source->Some_0@ == "rubin"@,
        alert.ss_object_id is Some && alert.ss_source is Some ==> shows(
            properties.sso->Some_0,
            alert.ss_source->Some_0,
        ),
        alert.ss_object_id is None || alert.ss_source is None ==> shows_nothing(
            properties.sso->Some_0,
        ),
        properties.activity == Some(analysis.activity),
        properties.stationary == analysis.stationary,
        properties.photstats == analysis.photstats,
        alert.survey_matches is Some && alert.survey_matches->Some_0.ztf is Some ==> Some(
            properties.multisurvey_photstats,
        ) == analysis.multisurvey_photstats,
        alert.survey_matches is None || alert.survey_matches->Some_0.ztf is None ==> cloned(
            analysis.photstats,
            properties.multisurvey_photstats,
        ),
{
    assert(properties.sso->Some_0@ == rubin_association(
        alert.ss_object_id is Some,
        optional_ref(&alert.ss_source),
    ));
}

/// Only an alert without matches in the catalogue of point sources needs the footprint.
pub proof fn law_the_footprint_is_for_want_of_matches(alert: LsstAlertForEnrichment, r: bool)
    requires
        call_ensures(LsstAlertForEnrichment::needs_footprint, (&alert,), r),
        names_differ(alert),
    ensures
        r <==> !has_source(alert, |s: JsonValue| true),
{
    let sources = alert.point_sources();
    let any = |s: JsonValue| true;
    if sources.len() > 0 {
        lemma_sources(alert, sources[0]);
        let (c, k) = choose|c: int, k: int| #[trigger] is_source(alert, c, k, sources[0]);
        assert(is_source(alert, c, k, sources[0]) && any(sources[0]));
    }
    if has_source(alert, any) {
        let (c, k, s) = choose|c: int, k: int, s: JsonValue| #[trigger]
            is_source(alert, c, k, s) && any(s);
        lemma_sources(alert, s);
    }
}

/// Each alert of a batch is written back to the document of its own identifier, its properties and
/// the time are set there and nothing else is, and it is named by its identifier. Whether the batch
/// is handed on is up to the worker.
pub proof fn law_each_alert_is_written_back(
    worker: LsstEnrichmentWorker,
    alerts: Vec<EnrichedAlert>,
    now: Bson,
    r: Option<AlertBatch>,
    i: int,
    rules: Rules,
    doc: Seq<(Seq<char>, BsonValue)>,
    key: Seq<char>,
    depth: nat,
)
    requires
        call_ensures(LsstEnrichmentWorker::process_alerts, (&worker, &alerts, &now), r),
        0 <= i < alerts@.len(),
    ensures
        r is Some,
        r->Some_0.forward == worker.babamul,
        r->Some_0.updates@.len() == alerts@.len(),
        r->Some_0.processed@.len() == alerts@.len(),
        meets(
            rules,
            BsonValue::Fields(doc),
            document_fields(r->Some_0.updates@[i].filter),
            depth,
        ) <==> (rules.equal)(
            at_path(BsonValue::Fields(doc), "_id"@),
            Some(BsonValue::Int64(alerts@[i].candid)),
        ),
        with_set(doc, key, document_fields(r->Some_0.updates@[i].update)) == (if key
            == "properties"@ {
            Some(BsonValue::Fields(document_fields(alerts@[i].properties)))
        } else if key == "updated_at"@ {
            Some(bson_value(now))
        } else {
            field_value(doc, key)
        }),
        alerts@[i].candid >= 0 ==> writes(
            r->Some_0.processed@[i]@,
            alerts@[i].candid as int,
        ),
        alerts@[i].candid < 0 ==> r->Some_0.processed@[i]@.len() > 0
            && r->Some_0.processed@[i]@[0] == '-' && writes(
            r->Some_0.processed@[i]@.drop_first(),
            -alerts@[i].candid,
        ),
{
    let batch = r->Some_0;
    let update = batch.updates@[i];
    assert(is_update(update, alerts@[i], bson_value(now)));
    reveal_strlit("_id");
    reveal_strlit("$or");
    assert("_id"@[0] == '_' && "$or"@[0] == '$');
    lemma_one_condition(
        rules,
        BsonValue::Fields(doc),
        "_id"@,
        BsonValue::Int64(alerts@[i].candid),
        depth,
    );
    reveal_strlit("properties");
    reveal_strlit("updated_at");
    assert("properties"@[0] == 'p' && "updated_at"@[0] == 'u');
    let properties = BsonValue::Fields(document_fields(alerts@[i].properties));
    let fields = seq![("properties"@, properties), ("updated_at"@, bson_value(now))];
    let whole = document_fields(update.update);
    assert(whole == seq![("$set"@, BsonValue::Fields(fields))]);
    assert(whole[0].0 == "$set"@);
    assert(field_value(whole, "$set"@) == Some(BsonValue::Fields(fields)));
    assert(fields.drop_first() =~= seq![("updated_at"@, bson_value(now))]);
    assert(fields.drop_first()[0] == ("updated_at"@, bson_value(now)));
    assert(fields.drop_first().drop_first() =~= seq![]);
    reveal_with_fuel(field_value, 3);
    let candid = alerts@[i].candid as int;
    assert(batch.processed@[i]@ == decimal(candid));
    law_decimal_writes_the_number(candid);
    if candid < 0 {
        lemma_no_leading_zero((-candid) as nat);
        assert(batch.processed@[i]@.drop_first() =~= decimal_digits((-candid) as nat));
    } else {
        lemma_no_leading_zero(candid as nat);
    }
}

/// No alerts make no batch, and alerts always make one.
pub proof fn law_a_batch_is_made_of_alerts(
    worker: LsstEnrichmentWorker,
    alerts: Vec<EnrichedAlert>,
    now: Bson,
    r: Option<AlertBatch>,
)
    requires
        call_ensures(LsstEnrichmentWorker::process_alerts, (&worker, &alerts, &now), r),
    ensures
        r is Some <==> alerts@.len() > 0,
{
}

/// A batch that could not be written gives its error back. One that was written is handed on just
/// where it says so, and in the end names the same alerts, however handing on went.
pub proof fn law_a_batch_names_its_alerts_in_the_end<E, F>(
    batch: AlertBatch,
    written: Result<(), E>,
    after: Result<AfterWrite, E>,
    publication: Publication,
    published: Result<(), F>,
    named: Vec<String>,
)
    requires
        call_ensures(AlertBatch::written::<E>, (batch, written), after),
        call_ensures(Publication::published::<F>, (publication, published), named),
    ensures
        match written {
            Err(error) => after == Err::<AfterWrite, E>(error),
            Ok(_) => {
                &&& after is Ok
                &&& after->Ok_0 is Publish <==> batch.forward
                &&& after->Ok_0 is Publish ==> after->Ok_0->Publish_0.processed == batch.processed
                &&& after->Ok_0 is Done ==> after->Ok_0->Done_0 == batch.processed
            },
        },
        named == publication.processed,
{
}

/// A worker starts at once where Babamul is off. Where it is on, it starts only if the catalogue of
/// point sources is configured and is among the collections, and hands on then.
pub proof fn law_babamul_needs_the_catalogue(
    config: EnrichmentConfig,
    start: Result<WorkerStart, EnrichmentWorkerError>,
    pending: PendingWorker,
    collections: Vec<String>,
    worker: Result<LsstEnrichmentWorker, EnrichmentWorkerError>,
)
    requires
        call_ensures(LsstEnrichmentWorker::new, (&config,), start),
        call_ensures(PendingWorker::catalogs_listed, (pending, &collections), worker),
    ensures
        start is Ok <==> !config.babamul_enabled || (config.lsst_crossmatch is Some && exists|
            i: int,
        |
            0 <= i < config.lsst_crossmatch->Some_0@.len() && (
            #[trigger] config.lsst_crossmatch->Some_0@[i])@ == "LSPSC"@),
        start is Ok ==> (start->Ok_0 is Ready <==> !config.babamul_enabled),
        start is Ok && start->Ok_0 is Ready ==> !start->Ok_0->Ready_0.babamul,
        worker is Ok <==> exists|i: int|
            0 <= i < collections@.len() && (#[trigger] collections@[i])@ == "LSPSC"@,
        worker is Ok ==> worker->Ok_0.babamul,
        worker is Ok && start is Ok && start->Ok_0 is Ready ==> {
            &&& worker->Ok_0.input_queue@ == start->Ok_0->Ready_0.input_queue@
            &&& worker->Ok_0.output_queue@ == start->Ok_0->Ready_0.output_queue@
            &&& all_fields(worker->Ok_0.alert_pipeline@) == all_fields(
                start->Ok_0->Ready_0.alert_pipeline@,
            )
        },
{
}

/// By default nothing is known of a solar system object, and there is no association; that is also
/// what comes of an alert without an identifier, whatever ephemeris came along.
pub proof fn law_by_default_nothing_is_known(
    source: SsSource,
    association: LsstSsoAssociation,
    supplied: Option<&SsSource>,
    unassociated: LsstSsoAssociation,
)
    requires
        call_ensures(SsSource::default, (), source),
        call_ensures(LsstSsoAssociation::default, (), association),
        call_ensures(LsstSsoAssociation::from_rubin, (None::<&str>, supplied), unassociated),
    ensures
        source.designation is None && source.eph_offset is None && source.eph_vmag is None,
        source.eph_rate is None && source.phase_angle is None,
        source.helio_range is None && source.topo_range is None,
        says_nothing(association),
        says_nothing(unassociated),
{
}

/// Whether an association says nothing.
pub open spec fn says_nothing(association: LsstSsoAssociation) -> bool {
    &&& !association.is_sso
    &&& association.designation is None
    &&& association.separation_arcsec is None
    &&& association.predicted_mag is None
    &&& association.sky_motion is None
    &&& association.phase_angle is None
    &&& association.helio_dist is None
    &&& association.topo_dist is None
    &&& association.source is None
}

/// A worker that starts takes its alerts from the queue of enrichment, hands them on to that of the
/// filters, and gathers what it needs by the aggregation of LSST.
pub proof fn law_a_worker_stands_between_its_queues(
    config: EnrichmentConfig,
    start: Result<WorkerStart, EnrichmentWorkerError>,
    input: String,
    output: String,
    pipeline: Vec<Document>,
)
    requires
        call_ensures(LsstEnrichmentWorker::new, (&config,), start),
        start is Ok && start->Ok_0 is Ready,
        call_ensures(LsstEnrichmentWorker::input_queue_name, (&start->Ok_0->Ready_0,), input),
        call_ensures(LsstEnrichmentWorker::output_queue_name, (&start->Ok_0->Ready_0,), output),
        call_ensures(create_lsst_alert_pipeline, (), pipeline),
    ensures
        input@ == "LSST_alerts_enrichment_queue"@,
        output@ == "LSST_alerts_filter_queue"@,
        all_fields(start->Ok_0->Ready_0.alert_pipeline@) == all_fields(pipeline@),
{
}

/// A light curve over both surveys is the one followed by the other.
pub proof fn law_the_curves_follow_one_another(
    lightcurve: Vec<PhotometryMag>,
    ztf_lightcurve: Option<Vec<PhotometryMag>>,
    r: Option<Vec<PhotometryMag>>,
)
    requires
        call_ensures(multisurvey_lightcurve, (&lightcurve, ztf_lightcurve), r),
    ensures
        r is Some <==> ztf_lightcurve is Some,
        r is Some ==> {
            let n = lightcurve@.len() as int;
            &&& r->Some_0@.take(n) == lightcurve@
            &&& r->Some_0@.skip(n) == ztf_lightcurve->Some_0@
            &&& r->Some_0@.len() == n + ztf_lightcurve->Some_0@.len()
        },
{
    if let Some(ztf) = ztf_lightcurve {
        let n = lightcurve@.len() as int;
        assert(r->Some_0@.take(n) =~= lightcurve@);
        assert(r->Some_0@.skip(n) =~= ztf@);
    }
}

/// The number that is read from a JSON value is the one that it holds under the key.
pub proof fn law_a_number_is_read_from_its_key(value: Value, key: &str, r: Option<Float64>)
    requires
        call_ensures(get_number, (&value, key), r),
    ensures
        r == number_under(json_value(value), key@),
{
}

} // verus!
