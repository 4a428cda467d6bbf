//! The enrichment of LSST alerts: what is computed of an alert and written back to it.

use crate::document::{
    all_fields, bson_value, doc1, doc2, document_fields, embedded, int64, BsonValue,
};
use crate::ieee::{double, is_halves, lemma_normal_units, Float32, Float64};
use crate::json::{get_number, json_value, json_values, number_field, JsonValue};
use crate::photometry::{
    add_points, as_sightings, counting, law_points_come_from_what_counts, points_until, sightings,
    LsstPhotometry, PhotometryMag, Sighting,
};
use crate::pipeline::{create_lsst_alert_pipeline, lsst_alert_pipeline};
use crate::sso::{rubin_association, LsstSsoAssociation, SsSource};
use crate::survey::Survey;
use crate::text::{decimal, decimal_string};
use crate::xmatch::{each_once, json_views, CatalogJson};
use mongodb::bson::{Bson, Document};
use serde_json::Value;
use vstd::arithmetic::power2::lemma2_to64_rest;
use vstd::prelude::*;
use vstd::seq_lib::{to_multiset_contains, to_multiset_len};

verus! {

/// The bits of 1: how near, in arcseconds, a star has to be for the detection to be one.
pub const IS_STELLAR_DISTANCE_THRESH_ARCSEC: u64 = 0x3FF0_0000_0000_0000;

/// The bits of 20: how near, in arcseconds, a bright star has to be to disturb.
pub const IS_NEAR_BRIGHTSTAR_DISTANCE_THRESH_ARCSEC: u64 = 0x4034_0000_0000_0000;

/// The bits of 15: the magnitude down to which a star is bright.
pub const IS_NEAR_BRIGHTSTAR_MAG_THRESH: u64 = 0x402E_0000_0000_0000;

/// The bits of one half: the score above which a source is a star.
pub const IS_HOSTED_SCORE_THRESH: u64 = 0x3FE0_0000_0000_0000;

/// The bits of 3: the signal-to-noise ratio from which forced photometry counts.
pub const FORCED_MIN_SNR: u64 = 0x4008_0000_0000_0000;

/// The thresholds are the numbers that they are meant to be.
pub proof fn law_thresholds_are_the_numbers()
    ensures
        is_halves(double(IS_STELLAR_DISTANCE_THRESH_ARCSEC), 2),
        is_halves(double(IS_NEAR_BRIGHTSTAR_DISTANCE_THRESH_ARCSEC), 40),
        is_halves(double(IS_NEAR_BRIGHTSTAR_MAG_THRESH), 30),
        is_halves(double(IS_HOSTED_SCORE_THRESH), 1),
        is_halves(double(FORCED_MIN_SNR), 6),
{
    lemma2_to64_rest();
    lemma_normal_units(IS_STELLAR_DISTANCE_THRESH_ARCSEC, 1023, 2, 51);
    lemma_normal_units(IS_NEAR_BRIGHTSTAR_DISTANCE_THRESH_ARCSEC, 1027, 40, 47);
    lemma_normal_units(IS_NEAR_BRIGHTSTAR_MAG_THRESH, 1026, 30, 48);
    lemma_normal_units(IS_HOSTED_SCORE_THRESH, 1022, 1, 52);
    lemma_normal_units(FORCED_MIN_SNR, 1024, 6, 50);
}

/// The detection that an alert is about.
pub struct DiaSource {
    pub ra: Float64,
    pub dec: Float64,
    pub psf_flux: Option<Float32>,
    pub ap_flux: Option<Float32>,
}

/// The candidate that an alert announces.
pub struct LsstCandidate {
    pub dia_source: DiaSource,
    pub jd: Float64,
}

/// The object of ZTF that an object of LSST is known to be. Its measurements make their forced
/// points under [`FORCED_MIN_SNR`].
pub struct ZtfMatch {
    pub object_id: String,
    pub ra: Float64,
    pub dec: Float64,
    pub prv_candidates: Vec<Sighting>,
    pub fp_hists: Vec<Sighting>,
}

/// The objects of other surveys that an object of LSST is known to be.
pub struct LsstSurveyMatches {
    pub ztf: Option<ZtfMatch>,
}

/// The object of LSST that an object of another survey is known to be.
pub struct LsstMatch {
    pub object_id: String,
    pub ra: Float64,
    pub dec: Float64,
    pub prv_candidates: Vec<LsstPhotometry>,
    pub fp_hists: Vec<LsstPhotometry>,
}

/// An alert with everything that its enrichment reads.
pub struct LsstAlertForEnrichment {
    pub candid: i64,
    pub object_id: String,
    pub ss_object_id: Option<String>,
    pub ss_source: Option<SsSource>,
    pub candidate: LsstCandidate,
    pub prv_candidates: Vec<LsstPhotometry>,
    pub fp_hists: Vec<LsstPhotometry>,
    pub cross_matches: Option<Vec<CatalogJson>>,
    pub survey_matches: Option<LsstSurveyMatches>,
}

/// The first value under a name.
pub open spec fn value_under<V>(entries: Seq<(Seq<char>, V)>, name: Seq<char>) -> Option<V>
    decreases entries.len(),
{
    if entries.len() == 0 {
        None
    } else if entries[0].0 == name {
        Some(entries[0].1)
    } else {
        value_under(entries.drop_first(), name)
    }
}

/// Where no name occurs twice, the value under a name is that of its one entry.
pub proof fn law_each_catalogue_has_one_value<V>(entries: Seq<(Seq<char>, V)>, i: int)
    requires
        each_once(entries),
        0 <= i < entries.len(),
    ensures
        value_under(entries, entries[i].0) == Some(entries[i].1),
    decreases entries.len(),
{
    if i > 0 {
        assert(entries[0].0 != entries[i].0);
        let rest = entries.drop_first();
        assert forall|k: int, m: int| 0 <= k < m < rest.len() implies (#[trigger] rest[k]).0 != (
        #[trigger] rest[m]).0 by {
            assert(entries[k + 1].0 != entries[m + 1].0);
        }
        law_each_catalogue_has_one_value(rest, i - 1);
    }
}

fn find_catalog<'a>(catalogs: &'a Vec<CatalogJson>, name: &String) -> (r: Option<&'a Vec<Value>>)
    ensures
        match r {
            Some(values) => value_under(json_views(catalogs@), name@) == Some(json_values(values@)),
            None => value_under(json_views(catalogs@), name@) is None,
        },
{
    let ghost views = json_views(catalogs@);
    let n: usize = catalogs.len();
    let mut i: usize = 0;
    assert(views.skip(0) =~= views);
    while i < n
        invariant
            n == catalogs@.len(),
            i <= n,
            views == json_views(catalogs@),
            value_under(views, name@) == value_under(views.skip(i as int), name@),
        decreases n - i,
    {
        assert(views.skip(i as int)[0] == (
            catalogs@[i as int].catalog@,
            json_values(catalogs@[i as int].matches@),
        ));
        if catalogs[i].catalog == *name {
            return Some(&catalogs[i].matches);
        }
        assert(views.skip(i as int).drop_first() =~= views.skip(i + 1));
        i += 1;
    }
    None
}

/// A match in the catalogue of point sources that is so near, and so surely a star, that the
/// detection is one.
pub open spec fn is_stellar(source: JsonValue) -> bool {
    match (number_field(source, "distance_arcsec"@), number_field(source, "score"@)) {
        (Some(distance), Some(score)) => {
            &&& distance.le(double(IS_STELLAR_DISTANCE_THRESH_ARCSEC))
            &&& double(IS_HOSTED_SCORE_THRESH).lt(score)
        },
        _ => false,
    }
}

/// A match in the catalogue of point sources that is a bright star nearby.
pub open spec fn is_bright_star(source: JsonValue) -> bool {
    match (
        number_field(source, "distance_arcsec"@),
        number_field(source, "score"@),
        number_field(source, "mag_white"@),
    ) {
        (Some(distance), Some(score), Some(mag_white)) => {
            &&& distance.le(double(IS_NEAR_BRIGHTSTAR_DISTANCE_THRESH_ARCSEC))
            &&& double(IS_HOSTED_SCORE_THRESH).lt(score)
            &&& mag_white.le(double(IS_NEAR_BRIGHTSTAR_MAG_THRESH))
        },
        _ => false,
    }
}

pub open spec fn some_stellar(sources: Seq<JsonValue>) -> bool {
    exists|i: int| 0 <= i < sources.len() && is_stellar(#[trigger] sources[i])
}

pub open spec fn some_bright_star(sources: Seq<JsonValue>) -> bool {
    exists|i: int| 0 <= i < sources.len() && is_bright_star(#[trigger] sources[i])
}

/// An answer that is known where there are matches, or where there could have been.
pub open spec fn known_answer(
    sources: Seq<JsonValue>,
    in_footprint: bool,
    answer: bool,
) -> Option<bool> {
    if sources.len() == 0 && !in_footprint {
        None
    } else {
        Some(answer)
    }
}

/// Looks for a star at the detection and for a bright star nearby.
fn look_for_stars(sources: &Vec<Value>, in_footprint: bool) -> (r: (Option<bool>, Option<bool>))
    ensures
        r.0 == known_answer(
            json_values(sources@),
            in_footprint,
            some_stellar(json_values(sources@)),
        ),
        r.1 == known_answer(
            json_values(sources@),
            in_footprint,
            some_bright_star(json_values(sources@)),
        ),
{
    let ghost held = json_values(sources@);
    let n: usize = sources.len();
    if n == 0 && !in_footprint {
        return (None, None);
    }
    let mut star = false;
    let mut near_brightstar = false;
    let mut i: usize = 0;
    while i < n && !(star && near_brightstar)
        invariant
            n == sources@.len(),
            i <= n,
            held == json_values(sources@),
            star ==> some_stellar(held),
            near_brightstar ==> some_bright_star(held),
            !star ==> forall|k: int| 0 <= k < i ==> !is_stellar(#[trigger] held[k]),
            !near_brightstar ==> forall|k: int| 0 <= k < i ==> !is_bright_star(#[trigger] held[k]),
        decreases n - i,
    {
        let source = &sources[i];
        assert(held[i as int] == json_value(*source));
        if let Some(distance) = get_number(source, "distance_arcsec") {
            if let Some(score) = get_number(source, "score") {
                let likely = Float64::from_bits(IS_HOSTED_SCORE_THRESH).less_than(score);
                if likely && distance.at_most(
                    Float64::from_bits(IS_STELLAR_DISTANCE_THRESH_ARCSEC),
                ) {
                    star = true;
                }
                if let Some(mag_white) = get_number(source, "mag_white") {
                    if likely && distance.at_most(
                        Float64::from_bits(IS_NEAR_BRIGHTSTAR_DISTANCE_THRESH_ARCSEC),
                    ) && mag_white.at_most(Float64::from_bits(IS_NEAR_BRIGHTSTAR_MAG_THRESH)) {
                        near_brightstar = true;
                    }
                }
            }
        }
        i += 1;
    }
    (Some(star), Some(near_brightstar))
}

impl LsstAlertForEnrichment {
    /// Whether no catalogue occurs twice in the matches of the alert.
    pub open spec fn catalogs_once(self) -> bool {
        match self.cross_matches {
            Some(catalogs) => each_once(json_views(catalogs@)),
            None => true,
        }
    }

    /// The matches of the alert in the catalogue of point sources.
    pub open spec fn point_sources(self) -> Seq<JsonValue> {
        match self.cross_matches {
            Some(catalogs) => match value_under(json_views(catalogs@), "LSPSC"@) {
                Some(sources) => sources,
                None => seq![],
            },
            None => seq![],
        }
    }

    /// The light curve up to the alert: the detections, then the forced photometry that is not too
    /// weak.
    pub open spec fn curve(self) -> Seq<PhotometryMag> {
        let bound = double(FORCED_MIN_SNR);
        points_until(as_sightings(self.prv_candidates@, bound), self.candidate.jd, false)
            + points_until(as_sightings(self.fp_hists@, bound), self.candidate.jd, true)
    }

    /// The light curve that ZTF has, up to the alert, where it has the object: the points that its
    /// detections make, then those that its forced photometry makes under its bound.
    pub open spec fn ztf_curve(self) -> Option<Seq<PhotometryMag>> {
        match self.ztf_object() {
            Some(ztf) => Some(
                points_until(ztf.prv_candidates@, self.candidate.jd, false) + points_until(
                    ztf.fp_hists@,
                    self.candidate.jd,
                    true,
                ),
            ),
            None => None,
        }
    }

    /// The object of ZTF that the object of the alert is known to be.
    pub open spec fn ztf_object(self) -> Option<ZtfMatch> {
        match self.survey_matches {
            Some(matches) => matches.ztf,
            None => None,
        }
    }

    /// Whether the answer on stars hangs on the footprint: there are no matches to look at.
    pub fn needs_footprint(&self) -> (r: bool)
        ensures
            r == (self.point_sources().len() == 0),
    {
        match &self.cross_matches {
            Some(catalogs) => match find_catalog(catalogs, &"LSPSC".to_owned()) {
                Some(sources) => sources.len() == 0,
                None => true,
            },
            None => true,
        }
    }

    /// The light curve up to the alert.
    pub fn lightcurve(&self) -> (r: Vec<PhotometryMag>)
        ensures
            r@ == self.curve(),
    {
        let mut curve: Vec<PhotometryMag> = Vec::new();
        let bound = Float64::from_bits(FORCED_MIN_SNR);
        add_points(&mut curve, &sightings(&self.prv_candidates, bound), self.candidate.jd, false);
        add_points(&mut curve, &sightings(&self.fp_hists, bound), self.candidate.jd, true);
        assert(curve@ =~= self.curve());
        curve
    }

    /// The light curve that ZTF has, up to the alert, where it has the object.
    pub fn ztf_lightcurve(&self) -> (r: Option<Vec<PhotometryMag>>)
        ensures
            match r {
                Some(curve) => self.ztf_curve() == Some(curve@),
                None => self.ztf_curve() is None,
            },
    {
        match &self.survey_matches {
            Some(matches) => match &matches.ztf {
                Some(ztf) => {
                    let mut curve: Vec<PhotometryMag> = Vec::new();
                    add_points(&mut curve, &ztf.prv_candidates, self.candidate.jd, false);
                    add_points(&mut curve, &ztf.fp_hists, self.candidate.jd, true);
                    assert(curve@ =~= self.ztf_curve()->Some_0);
                    Some(curve)
                },
                None => None,
            },
            None => None,
        }
    }
}

/// The light curve over both surveys: that of LSST, then that of ZTF. There is none where ZTF has
/// none.
pub fn multisurvey_lightcurve(
    lightcurve: &Vec<PhotometryMag>,
    ztf_lightcurve: Option<Vec<PhotometryMag>>,
) -> (r: Option<Vec<PhotometryMag>>)
    ensures
        match ztf_lightcurve {
            Some(ztf) => r is Some && r->Some_0@ == lightcurve@ + ztf@,
            None => r is None,
        },
{
    match ztf_lightcurve {
        Some(ztf) => {
            let mut curve = lightcurve.clone();
            let mut more = ztf;
            assert(curve@ =~= lightcurve@);
            curve.append(&mut more);
            Some(curve)
        },
        None => None,
    }
}

/// What an analysis gives of an alert: `S` stands for the statistics of a light curve, `A` for the
/// signs of activity.
pub struct Analysis<S, A> {
    pub activity: A,
    /// Whether the footprint covers the detection. It is asked only where there are no matches.
    pub in_footprint: bool,
    pub photstats: S,
    pub stationary: bool,
    /// The statistics of the light curve over both surveys, which is there where ZTF has the
    /// object.
    pub multisurvey_photstats: Option<S>,
}

/// The properties of an alert that are computed and written back to it.
pub struct LsstAlertProperties<S, A> {
    /// Whether the detection is associated with a solar system object. The association itself says
    /// the same.
    pub rock: bool,
    pub stationary: bool,
    pub star: Option<bool>,
    pub near_brightstar: Option<bool>,
    pub photstats: S,
    pub multisurvey_photstats: S,
    /// `None` on alerts that were enriched before this was evaluated.
    pub sso: Option<LsstSsoAssociation>,
    /// `None` on alerts that were enriched before this was evaluated.
    pub activity: Option<A>,
}

/// Whether these are the properties of an alert, by its analysis.
pub open spec fn is_properties<S: Clone, A>(
    alert: LsstAlertForEnrichment,
    analysis: Analysis<S, A>,
    properties: LsstAlertProperties<S, A>,
) -> bool {
    let sources = alert.point_sources();
    &&& properties.rock == alert.ss_object_id is Some
    &&& properties.sso is Some
    &&& properties.sso->Some_0.is_sso == properties.rock
    &&& properties.sso->Some_0@ == rubin_association(
        alert.ss_object_id is Some,
        optional_ref(&alert.ss_source),
    )
    &&& properties.activity == Some(analysis.activity)
    &&& properties.star == known_answer(sources, analysis.in_footprint, some_stellar(sources))
    &&& properties.near_brightstar == known_answer(
        sources,
        analysis.in_footprint,
        some_bright_star(sources),
    )
    &&& properties.stationary == analysis.stationary
    &&& properties.photstats == analysis.photstats
    &&& match alert.ztf_object() {
        Some(_) => Some(properties.multisurvey_photstats) == analysis.multisurvey_photstats,
        None => cloned(analysis.photstats, properties.multisurvey_photstats),
    }
}

/// What Rubin supplies with an alert, where it supplies it.
pub open spec fn optional_ref(ss_source: &Option<SsSource>) -> Option<&SsSource> {
    match ss_source {
        Some(ss) => Some(ss),
        None => None,
    }
}

/// What of the configuration the worker goes by.
pub struct EnrichmentConfig {
    pub babamul_enabled: bool,
    /// The catalogues that alerts of LSST are matched with, where any are configured.
    pub lsst_crossmatch: Option<Vec<String>>,
}

/// Why a worker cannot start.
#[derive(Debug)]
pub enum EnrichmentWorkerError {
    ConfigurationError(String),
}

impl View for EnrichmentWorkerError {
    type V = Seq<char>;

    open spec fn view(&self) -> Seq<char> {
        match self {
            EnrichmentWorkerError::ConfigurationError(message) => message@,
        }
    }
}

/// A worker that enriches alerts of LSST.
pub struct LsstEnrichmentWorker {
    pub input_queue: String,
    pub output_queue: String,
    pub alert_pipeline: Vec<Document>,
    /// Whether enriched alerts are handed on to Babamul.
    pub babamul: bool,
}

/// A worker that cannot start before the catalogues in the database are known.
pub struct PendingWorker;

/// How a worker starts.
pub enum WorkerStart {
    Ready(LsstEnrichmentWorker),
    NeedsCatalogs(PendingWorker),
}

/// Whether a text is among texts.
pub open spec fn names_contain(names: Seq<String>, name: Seq<char>) -> bool {
    exists|i: int| 0 <= i < names.len() && (#[trigger] names[i])@ == name
}

fn contains_name(names: &Vec<String>, name: &String) -> (r: bool)
    ensures
        r == names_contain(names@, name@),
{
    let n: usize = names.len();
    for i in 0..n
        invariant
            n == names@.len(),
            forall|k: int| 0 <= k < i ==> (#[trigger] names@[k])@ != name@,
    {
        if names[i] == *name {
            return true;
        }
    }
    false
}

fn configuration_error<T>(message: &str) -> (r: Result<T, EnrichmentWorkerError>)
    ensures
        r is Err,
        r->Err_0@ == message@,
{
    Err(EnrichmentWorkerError::ConfigurationError(message.to_owned()))
}

fn make_worker(babamul: bool) -> (r: LsstEnrichmentWorker)
    ensures
        r.is_new(babamul),
{
    LsstEnrichmentWorker {
        input_queue: "LSST_alerts_enrichment_queue".to_owned(),
        output_queue: "LSST_alerts_filter_queue".to_owned(),
        alert_pipeline: create_lsst_alert_pipeline(),
        babamul,
    }
}

impl PendingWorker {
    /// Starts the worker, with Babamul, where the catalogue of point sources is among the
    /// collections of the database.
    pub fn catalogs_listed(self, collections: &Vec<String>) -> (r: Result<
        LsstEnrichmentWorker,
        EnrichmentWorkerError,
    >)
        ensures
            if names_contain(collections@, "LSPSC"@) {
                r is Ok && r->Ok_0.is_new(true)
            } else {
                r is Err && r->Err_0@
                    == "Babamul is enabled but the LSPSC catalog does not exist in the database"@
            },
    {
        if !contains_name(collections, &"LSPSC".to_owned()) {
            return configuration_error(
                "Babamul is enabled but the LSPSC catalog does not exist in the database",
            );
        }
        Ok(make_worker(true))
    }
}

/// An alert with its properties in the form in which the database holds them.
pub struct EnrichedAlert {
    pub candid: i64,
    pub properties: Document,
}

/// A change of one alert in the database.
pub struct AlertUpdate {
    pub filter: Document,
    pub update: Document,
}

/// What is done with a batch of enriched alerts.
pub struct AlertBatch {
    pub updates: Vec<AlertUpdate>,
    /// The identifiers of the alerts, written out.
    pub processed: Vec<String>,
    /// Whether the alerts are handed on to Babamul.
    pub forward: bool,
}

/// What follows the writing of a batch.
pub enum AfterWrite {
    /// The alerts are handed on to Babamul.
    Publish(Publication),
    /// Nothing is left to do, and these alerts were processed.
    Done(Vec<String>),
}

/// A batch that was written, and that is handed on to Babamul.
pub struct Publication {
    /// The identifiers of the alerts, written out.
    pub processed: Vec<String>,
}

/// What follows the writing of a batch: where it failed its error is returned, and nothing is
/// handed on.
pub open spec fn after_write<E>(
    processed: Vec<String>,
    forward: bool,
    outcome: Result<(), E>,
) -> Result<AfterWrite, E> {
    match outcome {
        Err(error) => Err(error),
        Ok(_) => if forward {
            Ok(AfterWrite::Publish(Publication { processed }))
        } else {
            Ok(AfterWrite::Done(processed))
        },
    }
}

/// What the processing of a batch returns in the end, by the outcomes of writing it and of handing
/// it on.
pub open spec fn batch_result<E, F>(
    processed: Vec<String>,
    forward: bool,
    written: Result<(), E>,
    published: Result<(), F>,
) -> Result<Vec<String>, E> {
    match after_write(processed, forward, written) {
        Err(error) => Err(error),
        Ok(AfterWrite::Publish(publication)) => Ok(publication.processed),
        Ok(AfterWrite::Done(processed)) => Ok(processed),
    }
}

impl AlertBatch {
    /// Takes the outcome of writing the updates.
    pub fn written<E>(self, outcome: Result<(), E>) -> (r: Result<AfterWrite, E>)
        ensures
            r == after_write(self.processed, self.forward, outcome),
    {
        match outcome {
            Err(error) => Err(error),
            Ok(_) => {
                if self.forward {
                    Ok(AfterWrite::Publish(Publication { processed: self.processed }))
                } else {
                    Ok(AfterWrite::Done(self.processed))
                }
            },
        }
    }
}

impl Publication {
    /// Takes the outcome of handing the alerts on. A failure is not returned.
    pub fn published<F>(self, outcome: Result<(), F>) -> (r: Vec<String>)
        ensures
            r == self.processed,
    {
        self.processed
    }
}

/// Whether a batch writes the properties of alerts back and names each of them.
pub open spec fn is_batch(
    batch: AlertBatch,
    alerts: Seq<EnrichedAlert>,
    now: BsonValue,
    forward: bool,
) -> bool {
    &&& batch.updates@.len() == alerts.len()
    &&& forall|i: int|
        0 <= i < alerts.len() ==> is_update(#[trigger] batch.updates@[i], alerts[i], now)
    &&& batch.processed@.len() == alerts.len()
    &&& forall|i: int|
        0 <= i < alerts.len() ==> (#[trigger] batch.processed@[i])@ == decimal(
            alerts[i].candid as int,
        )
    &&& batch.forward == forward
}

/// Which alert is changed.
pub open spec fn update_filter(candid: i64) -> Seq<(Seq<char>, BsonValue)> {
    seq![("_id"@, BsonValue::Int64(candid))]
}

/// How an alert is changed.
pub open spec fn update_fields(
    properties: Seq<(Seq<char>, BsonValue)>,
    now: BsonValue,
) -> Seq<(Seq<char>, BsonValue)> {
    seq![
        (
            "$set"@,
            BsonValue::Fields(
                seq![("properties"@, BsonValue::Fields(properties)), ("updated_at"@, now)],
            ),
        ),
    ]
}

/// Whether this is the change of an alert.
pub open spec fn is_update(update: AlertUpdate, alert: EnrichedAlert, now: BsonValue) -> bool {
    &&& document_fields(update.filter) == update_filter(alert.candid)
    &&& document_fields(update.update) == update_fields(document_fields(alert.properties), now)
}

fn plan_update(alert: &EnrichedAlert, now: &Bson) -> (r: AlertUpdate)
    ensures
        is_update(r, *alert, bson_value(*now)),
{
    proof {
        reveal_strlit("properties");
        reveal_strlit("updated_at");
        assert("properties"@[0] == 'p' && "updated_at"@[0] == 'u');
    }
    let set = doc2(
        "properties",
        embedded(alert.properties.clone()),
        "updated_at",
        now.clone(),
    );
    AlertUpdate { filter: doc1("_id", int64(alert.candid)), update: doc1("$set", embedded(set)) }
}

impl LsstEnrichmentWorker {
    /// Whether the worker is as it starts.
    pub open spec fn is_new(self, babamul: bool) -> bool {
        &&& self.input_queue@ == "LSST_alerts_enrichment_queue"@
        &&& self.output_queue@ == "LSST_alerts_filter_queue"@
        &&& all_fields(self.alert_pipeline@) == lsst_alert_pipeline()
        &&& self.babamul == babamul
    }

    /// Starts a worker. With Babamul, alerts of LSST have to be matched with the catalogue of
    /// point sources, and the catalogue has to be there.
    pub fn new(config: &EnrichmentConfig) -> (r: Result<WorkerStart, EnrichmentWorkerError>)
        ensures
            if !config.babamul_enabled {
                r is Ok && r->Ok_0 is Ready && r->Ok_0->Ready_0.is_new(false)
            } else {
                match config.lsst_crossmatch {
                    None => r is Err && r->Err_0@
                        == "Babamul is enabled but no LSST cross-match configuration is present"@,
                    Some(catalogs) => if names_contain(catalogs@, "LSPSC"@) {
                        r is Ok && r->Ok_0 is NeedsCatalogs
                    } else {
                        r is Err && r->Err_0@
                            == "Babamul is enabled but LSPSC cross-match is not configured for LSST alerts"@
                    },
                }
            },
    {
        if !config.babamul_enabled {
            return Ok(WorkerStart::Ready(make_worker(false)));
        }
        match &config.lsst_crossmatch {
            None => configuration_error(
                "Babamul is enabled but no LSST cross-match configuration is present",
            ),
            Some(catalogs) => {
                if !contains_name(catalogs, &"LSPSC".to_owned()) {
                    return configuration_error(
                        "Babamul is enabled but LSPSC cross-match is not configured for LSST alerts",
                    );
                }
                Ok(WorkerStart::NeedsCatalogs(PendingWorker))
            },
        }
    }

    /// The survey whose alerts are enriched.
    pub fn survey() -> (r: Survey)
        ensures
            r == Survey::Lsst,
    {
        Survey::Lsst
    }

    /// From now on hands nothing on to Babamul.
    pub fn disable_babamul(&mut self)
        ensures
            !final(self).babamul,
            final(self).input_queue == old(self).input_queue,
            final(self).output_queue == old(self).output_queue,
            final(self).alert_pipeline == old(self).alert_pipeline,
    {
        self.babamul = false;
    }

    /// The queue that the alerts come from.
    pub fn input_queue_name(&self) -> (r: String)
        ensures
            r@ == self.input_queue@,
    {
        self.input_queue.clone()
    }

    /// The queue that the alerts go to.
    pub fn output_queue_name(&self) -> (r: String)
        ensures
            r@ == self.output_queue@,
    {
        self.output_queue.clone()
    }

    /// Decides what is done with enriched alerts. Where there are none, nothing is.
    pub fn process_alerts(&self, alerts: &Vec<EnrichedAlert>, now: &Bson) -> (r: Option<AlertBatch>)
        ensures
            alerts@.len() == 0 <==> r is None,
            match r {
                Some(batch) => is_batch(batch, alerts@, bson_value(*now), self.babamul),
                None => true,
            },
    {
        let n: usize = alerts.len();
        if n == 0 {
            return None;
        }
        let mut updates: Vec<AlertUpdate> = Vec::new();
        let mut processed: Vec<String> = Vec::new();
        for i in 0..n
            invariant
                n == alerts@.len(),
                updates@.len() == i,
                processed@.len() == i,
                forall|k: int|
                    0 <= k < i ==> is_update(
                        #[trigger] updates@[k],
                        alerts@[k],
                        bson_value(*now),
                    ),
                forall|k: int|
                    0 <= k < i ==> (#[trigger] processed@[k])@ == decimal(alerts@[k].candid as int),
        {
            updates.push(plan_update(&alerts[i], now));
            processed.push(decimal_string(alerts[i].candid));
        }
        Some(AlertBatch { updates, processed, forward: self.babamul })
    }

    /// Puts the properties of an alert together.
    pub fn get_alert_properties<S: Clone, A>(
        &self,
        alert: &LsstAlertForEnrichment,
        analysis: Analysis<S, A>,
    ) -> (r: LsstAlertProperties<S, A>)
        requires
            alert.ztf_object() is Some ==> analysis.multisurvey_photstats is Some,
        ensures
            is_properties(*alert, analysis, r),
    {
        let ss_object_id = match &alert.ss_object_id {
            Some(id) => Some(id.as_str()),
            None => None,
        };
        let sso = LsstSsoAssociation::from_rubin(ss_object_id, alert.ss_source.as_ref());
        let none: Vec<Value> = Vec::new();
        let sources = match &alert.cross_matches {
            Some(catalogs) => match find_catalog(catalogs, &"LSPSC".to_owned()) {
                Some(sources) => sources,
                None => &none,
            },
            None => &none,
        };
        assert(json_values(sources@) =~= alert.point_sources());
        let (star, near_brightstar) = look_for_stars(sources, analysis.in_footprint);
        let has_matches = match &alert.survey_matches {
            Some(matches) => matches.ztf.is_some(),
            None => false,
        };
        let multisurvey_photstats = match analysis.multisurvey_photstats {
            Some(stats) if has_matches => stats,
            _ => analysis.photstats.clone(),
        };
        LsstAlertProperties {
            rock: alert.ss_object_id.is_some(),
            stationary: analysis.stationary,
            star,
            near_brightstar,
            photstats: analysis.photstats,
            multisurvey_photstats,
            sso: Some(sso),
            activity: Some(analysis.activity),
        }
    }
}

/// Whether a detection is a star, and whether a bright one is nearby, is unknown in the same case:
/// there are no matches, and the footprint does not cover the detection. A match that makes the
/// detection a star, and is bright, makes a bright star be nearby.
pub proof fn law_stars_are_unknown_together(sources: Seq<JsonValue>, in_footprint: bool)
    ensures
        known_answer(sources, in_footprint, some_stellar(sources)) is None <==> sources.len() == 0
            && !in_footprint,
        known_answer(sources, in_footprint, some_bright_star(sources)) is None <==> sources.len()
            == 0 && !in_footprint,
        sources.len() == 0 && in_footprint ==> known_answer(
            sources,
            in_footprint,
            some_stellar(sources),
        ) == Some(false),
        forall|i: int|
            0 <= i < sources.len() && is_stellar(#[trigger] sources[i]) && (number_field(
                sources[i],
                "mag_white"@,
            ) matches Some(mag) && mag.le(double(IS_NEAR_BRIGHTSTAR_MAG_THRESH)))
                ==> some_bright_star(sources),
{
    assert forall|i: int|
        0 <= i < sources.len() && is_stellar(#[trigger] sources[i]) && (number_field(
            sources[i],
            "mag_white"@,
        ) matches Some(mag) && mag.le(
            double(IS_NEAR_BRIGHTSTAR_MAG_THRESH),
        )) implies some_bright_star(sources) by {
        assert(is_bright_star(sources[i]));
    }
}

/// No point of the light curve of an alert is later than the alert.
pub proof fn law_the_curve_ends_at_the_alert(alert: LsstAlertForEnrichment, i: int)
    requires
        0 <= i < alert.curve().len(),
    ensures
        alert.curve()[i].time.le(alert.candidate.jd),
{
    let jd = alert.candidate.jd;
    let bound = double(FORCED_MIN_SNR);
    let detections = as_sightings(alert.prv_candidates@, bound);
    let forced = as_sightings(alert.fp_hists@, bound);
    let n = points_until(detections, jd, false).len();
    if i < n {
        law_points_come_from_what_counts(detections, jd, false, i);
    } else {
        law_points_come_from_what_counts(forced, jd, true, i - n);
    }
}

/// Whether two alerts differ, of what enrichment reads, only in the order of their matches and in
/// measurements that do not count: those later than the alert, and those that make no point, as
/// forced ones of LSST that are too weak or of unknown signal.
pub open spec fn differ_in_what_does_not_count(
    a: LsstAlertForEnrichment,
    b: LsstAlertForEnrichment,
) -> bool {
    let jd = a.candidate.jd;
    let bound = double(FORCED_MIN_SNR);
    &&& a.ss_object_id is Some == b.ss_object_id is Some
    &&& a.ss_source == b.ss_source
    &&& a.candidate == b.candidate
    &&& a.point_sources().to_multiset() == b.point_sources().to_multiset()
    &&& counting(as_sightings(a.prv_candidates@, bound), jd, false) == counting(
        as_sightings(b.prv_candidates@, bound),
        jd,
        false,
    )
    &&& counting(as_sightings(a.fp_hists@, bound), jd, true) == counting(
        as_sightings(b.fp_hists@, bound),
        jd,
        true,
    )
    &&& match (a.ztf_object(), b.ztf_object()) {
        (Some(x), Some(y)) => {
            &&& counting(x.prv_candidates@, jd, false) == counting(y.prv_candidates@, jd, false)
            &&& counting(x.fp_hists@, jd, true) == counting(y.fp_hists@, jd, true)
        },
        (None, None) => true,
        _ => false,
    }
}

proof fn lemma_order_of_sources(a: Seq<JsonValue>, b: Seq<JsonValue>)
    requires
        a.to_multiset() == b.to_multiset(),
    ensures
        a.len() == b.len(),
        some_stellar(a) ==> some_stellar(b),
        some_bright_star(a) ==> some_bright_star(b),
{
    to_multiset_len(a);
    to_multiset_len(b);
    if some_stellar(a) {
        let i = choose|i: int| 0 <= i < a.len() && is_stellar(#[trigger] a[i]);
        assert(a.contains(a[i]));
        to_multiset_contains(a, a[i]);
        to_multiset_contains(b, a[i]);
        let k = choose|k: int| 0 <= k < b.len() && b[k] == a[i];
        assert(is_stellar(b[k]));
    }
    if some_bright_star(a) {
        let i = choose|i: int| 0 <= i < a.len() && is_bright_star(#[trigger] a[i]);
        assert(a.contains(a[i]));
        to_multiset_contains(a, a[i]);
        to_multiset_contains(b, a[i]);
        let k = choose|k: int| 0 <= k < b.len() && b[k] == a[i];
        assert(is_bright_star(b[k]));
    }
}

/// The order of the matches, measurements later than the alert, forced ones below the bound and
/// measurements that make no point never matter: the curves that are analysed are the same, the
/// footprint is asked in the same case, and by the same analysis the properties are the same.
pub proof fn law_what_does_not_count_never_matters<S: Clone, A>(
    a: LsstAlertForEnrichment,
    b: LsstAlertForEnrichment,
    analysis: Analysis<S, A>,
    properties: LsstAlertProperties<S, A>,
)
    requires
        differ_in_what_does_not_count(a, b),
    ensures
        a.curve() == b.curve(),
        a.ztf_curve() == b.ztf_curve(),
        a.point_sources().len() == b.point_sources().len(),
        a.candidate.dia_source == b.candidate.dia_source,
        is_properties(a, analysis, properties) <==> is_properties(b, analysis, properties),
{
    lemma_order_of_sources(a.point_sources(), b.point_sources());
    lemma_order_of_sources(b.point_sources(), a.point_sources());
}

/// Whether two alerts are the same, of what enrichment reads, but for the objects of other surveys.
pub open spec fn differ_in_survey_matches(
    a: LsstAlertForEnrichment,
    b: LsstAlertForEnrichment,
) -> bool {
    &&& a.ss_object_id == b.ss_object_id
    &&& a.ss_source == b.ss_source
    &&& a.candidate == b.candidate
    &&& a.prv_candidates == b.prv_candidates
    &&& a.fp_hists == b.fp_hists
    &&& a.cross_matches == b.cross_matches
}

/// An object of ZTF can only change the statistics over both surveys. Without one these are a clone
/// of the statistics of the alert's own light curve, which the object does not touch.
pub proof fn law_a_ztf_match_changes_the_joint_statistics_alone<S: Clone, A>(
    a: LsstAlertForEnrichment,
    b: LsstAlertForEnrichment,
    with_match: Analysis<S, A>,
    without: Analysis<S, A>,
    p: LsstAlertProperties<S, A>,
    q: LsstAlertProperties<S, A>,
)
    requires
        differ_in_survey_matches(a, b),
        b.ztf_object() is None,
        with_match.activity == without.activity,
        with_match.in_footprint == without.in_footprint,
        with_match.photstats == without.photstats,
        with_match.stationary == without.stationary,
        is_properties(a, with_match, p),
        is_properties(b, without, q),
    ensures
        a.curve() == b.curve(),
        cloned(q.photstats, q.multisurvey_photstats),
        p.rock == q.rock,
        p.sso->Some_0@ == q.sso->Some_0@,
        p.activity == q.activity,
        p.star == q.star,
        p.near_brightstar == q.near_brightstar,
        p.stationary == q.stationary,
        p.photstats == q.photstats,
{
}

/// With Babamul or without it, the same alerts are written back in the same way and the same are
/// named.
pub proof fn law_batches_do_not_follow_babamul(
    with_babamul: AlertBatch,
    without: AlertBatch,
    alerts: Seq<EnrichedAlert>,
    now: BsonValue,
    i: int,
)
    requires
        is_batch(with_babamul, alerts, now, true),
        is_batch(without, alerts, now, false),
        0 <= i < alerts.len(),
    ensures
        with_babamul.processed@.len() == without.processed@.len(),
        with_babamul.processed@[i]@ == without.processed@[i]@,
        document_fields(with_babamul.updates@[i].filter) == document_fields(
            without.updates@[i].filter,
        ),
        document_fields(with_babamul.updates@[i].update) == document_fields(
            without.updates@[i].update,
        ),
{
    assert(is_update(with_babamul.updates@[i], alerts[i], now));
    assert(is_update(without.updates@[i], alerts[i], now));
}

/// With Babamul or without it, and whether handing on succeeds or fails, the result is the same.
/// Without it nothing is handed on, and where the write fails the error is returned and nothing is
/// handed on either way.
pub proof fn law_the_result_does_not_follow_babamul<E, F>(
    processed: Vec<String>,
    written: Result<(), E>,
    published: Result<(), F>,
    also_published: Result<(), F>,
)
    ensures
        batch_result(processed, true, written, published) == batch_result(
            processed,
            false,
            written,
            also_published,
        ),
        after_write(processed, false, written) is Ok ==> after_write(
            processed,
            false,
            written,
        )->Ok_0 is Done,
        written is Err ==> after_write(processed, true, written) is Err && batch_result(
            processed,
            true,
            written,
            published,
        ) == Err::<Vec<String>, E>(written->Err_0),
        written is Ok ==> batch_result(processed, true, written, published) == Ok::<
            Vec<String>,
            E,
        >(processed),
{
}

} // verus!
