//! The lookup of one object: its newest alert, its light curve, its nearest counterpart in the
//! other survey.
//!
//! The type `D` stands for what is carried through unread: the data of an alert, its properties,
//! its classifications, the data of a measurement, the catalogue matches of an object.

use crate::document::{bson_value, doc1, doc2, document_fields, int32, text, BsonValue};
use crate::geo::{near, near_filter};
use crate::ieee::Float64;
use crate::query::{FindOneQuery, FindOneQueryView, FindQuery, FindQueryView, Rows};
use crate::reply::{bad_request, internal_error, not_found, Refusal, RefusalView};
use crate::survey::Survey;
use crate::text::{concat, concat3};
use mongodb::bson::{Bson, Document};
use vstd::prelude::*;

verus! {

/// The programme under which ZTF takes its public data.
pub const PUBLIC_PROGRAM: i32 = 1;

/// How a sort by a field is told to begin with the largest.
pub const DESCENDING: i32 = -1;

/// An alert of ZTF.
pub struct ZtfAlert<D> {
    pub candid: i64,
    pub candidate: D,
    pub properties: Option<D>,
    pub classifications: Option<D>,
}

/// An alert of LSST.
pub struct LsstAlert<D> {
    pub candid: i64,
    pub candidate: D,
    pub properties: Option<D>,
}

/// A measurement of ZTF, and the programme under which it was taken.
pub struct ZtfPoint<D> {
    pub programid: i32,
    pub data: D,
}

/// What is known of an object of ZTF besides its alerts.
pub struct ZtfObject<D> {
    pub object_id: String,
    pub ra: Float64,
    pub dec: Float64,
    pub prv_candidates: Vec<ZtfPoint<D>>,
    pub prv_nondetections: Vec<ZtfPoint<D>>,
    pub fp_hists: Vec<ZtfPoint<D>>,
    pub cross_matches: D,
}

/// What is known of an object of LSST besides its alerts.
pub struct LsstObject<D> {
    pub object_id: String,
    pub ra: Float64,
    pub dec: Float64,
    pub prv_candidates: Vec<D>,
    pub fp_hists: Vec<D>,
    pub cross_matches: D,
}

/// An object of the other survey, and how near it is.
pub struct Counterpart<T> {
    pub object: T,
    pub distance_arcsec: Float64,
}

/// The counterpart in LSST of an object of ZTF.
pub struct LsstMatch<D> {
    pub object_id: String,
    pub ra: Float64,
    pub dec: Float64,
    pub prv_candidates: Vec<D>,
    pub fp_hists: Vec<D>,
    pub distance_arcsec: Float64,
}

/// The counterparts of an object of ZTF.
pub struct ZtfSurveyMatches<D> {
    pub lsst: Option<LsstMatch<D>>,
}

/// An object of ZTF as it is shown.
pub struct ZtfObj<D> {
    pub candid: i64,
    pub object_id: String,
    pub candidate: D,
    pub properties: Option<D>,
    pub prv_candidates: Vec<ZtfPoint<D>>,
    pub prv_nondetections: Vec<ZtfPoint<D>>,
    pub fp_hists: Vec<ZtfPoint<D>>,
    pub classifications: Option<D>,
    pub classifications_history: Vec<D>,
    pub cross_matches: D,
    pub survey_matches: ZtfSurveyMatches<D>,
}

/// The counterpart in ZTF of an object of LSST.
pub struct ZtfMatch<D> {
    pub object_id: String,
    pub ra: Float64,
    pub dec: Float64,
    pub prv_candidates: Vec<ZtfPoint<D>>,
    pub prv_nondetections: Vec<ZtfPoint<D>>,
    pub fp_hists: Vec<ZtfPoint<D>>,
    pub distance_arcsec: Float64,
}

/// The counterparts of an object of LSST.
pub struct LsstSurveyMatches<D> {
    pub ztf: Option<ZtfMatch<D>>,
}

/// An object of LSST as it is shown.
pub struct LsstObj<D> {
    pub candid: i64,
    pub object_id: String,
    pub candidate: D,
    pub properties: Option<D>,
    pub prv_candidates: Vec<D>,
    pub fp_hists: Vec<D>,
    pub cross_matches: D,
    pub survey_matches: LsstSurveyMatches<D>,
}

/// The answer to a lookup.
pub struct ObjectReply<T> {
    pub message: String,
    pub data: T,
}

/// A lookup of an object of ZTF, not yet made.
pub struct ZtfLookup {
    pub object_id: String,
}

/// A lookup of an object of LSST, not yet made.
pub struct LsstLookup {
    pub object_id: String,
}

/// The lookup that a request asks for.
pub enum ObjectLookup {
    Ztf(ZtfLookup),
    Lsst(LsstLookup),
}

/// Begins the lookup of an object: only for somebody who is logged in, and only in ZTF and LSST.
pub fn get_object(authenticated: bool, survey: Survey, object_id: String) -> (r: Result<
    ObjectLookup,
    Refusal,
>)
    ensures
        !authenticated ==> r is Err && r->Err_0@ == RefusalView::Unauthorized,
        authenticated ==> match survey {
            Survey::Ztf => r == Ok::<ObjectLookup, Refusal>(
                ObjectLookup::Ztf(ZtfLookup { object_id }),
            ),
            Survey::Lsst => r == Ok::<ObjectLookup, Refusal>(
                ObjectLookup::Lsst(LsstLookup { object_id }),
            ),
            _ => r is Err && r->Err_0@ == RefusalView::BadRequest(
                "Invalid survey specified, only ZTF and LSST are supported"@,
            ),
        },
{
    if !authenticated {
        return Err(Refusal::Unauthorized);
    }
    match survey {
        Survey::Ztf => Ok(ObjectLookup::Ztf(ZtfLookup { object_id })),
        Survey::Lsst => Ok(ObjectLookup::Lsst(LsstLookup { object_id })),
        _ => bad_request("Invalid survey specified, only ZTF and LSST are supported"),
    }
}

/// The public ones among measurements, in order.
pub open spec fn public_points<D>(points: Seq<ZtfPoint<D>>) -> Seq<ZtfPoint<D>> {
    points.filter(|point: ZtfPoint<D>| point.programid == PUBLIC_PROGRAM)
}

fn keep_public<D>(points: Vec<ZtfPoint<D>>) -> (r: Vec<ZtfPoint<D>>)
    ensures
        r@ == public_points(points@),
{
    let mut kept: Vec<ZtfPoint<D>> = Vec::new();
    for point in it: points
        invariant
            it.seq() == points@,
            kept@ == public_points(points@.take(it.index() as int)),
    {
        proof {
            let n = it.index() as int;
            reveal(Seq::filter);
            assert(points@.take(n + 1).drop_last() =~= points@.take(n));
        }
        if point.programid == PUBLIC_PROGRAM {
            kept.push(point);
        }
    }
    assert(points@.take(points@.len() as int) =~= points@);
    kept
}

/// The classifications of those alerts that have any, in the order of the alerts.
pub open spec fn known_classifications<D>(alerts: Seq<ZtfAlert<D>>) -> Seq<D> {
    alerts.filter(|alert: ZtfAlert<D>| alert.classifications is Some).map_values(
        |alert: ZtfAlert<D>| alert.classifications->Some_0,
    )
}

/// Whether each of the copies is a clone of the value at its place.
pub open spec fn are_clones<D: Clone>(values: Seq<D>, copies: Seq<D>) -> bool {
    &&& copies.len() == values.len()
    &&& forall|i: int| 0 <= i < copies.len() ==> cloned(values[i], #[trigger] copies[i])
}

fn reversed<T>(values: Vec<T>) -> (r: Vec<T>)
    ensures
        r@ == values@.reverse(),
{
    let mut rest = values;
    let mut out: Vec<T> = Vec::new();
    loop
        invariant
            values@.len() == rest@.len() + out@.len(),
            rest@ == values@.take(rest@.len() as int),
            out@ == values@.skip(rest@.len() as int).reverse(),
        ensures
            out@ == values@.reverse(),
        decreases rest@.len(),
    {
        match rest.pop() {
            Some(value) => {
                out.push(value);
                assert(out@ =~= values@.skip(rest@.len() as int).reverse());
                assert(rest@ =~= values@.take(rest@.len() as int));
            },
            None => {
                assert(values@.skip(0) =~= values@);
                break;
            },
        }
    }
    out
}

/// Clones of the classifications of alerts, from the last alert to the first.
fn history<D: Clone>(alerts: &Vec<ZtfAlert<D>>) -> (r: Vec<D>)
    ensures
        are_clones(known_classifications(alerts@).reverse(), r@),
{
    let mut copies: Vec<D> = Vec::new();
    let n: usize = alerts.len();
    for i in 0..n
        invariant
            n == alerts@.len(),
            are_clones(known_classifications(alerts@.take(i as int)), copies@),
    {
        let ghost before = known_classifications(alerts@.take(i as int));
        proof {
            reveal(Seq::filter);
            assert(alerts@.take(i + 1).drop_last() =~= alerts@.take(i as int));
        }
        if let Some(classifications) = &alerts[i].classifications {
            copies.push(classifications.clone());
            assert(known_classifications(alerts@.take(i + 1)) =~= before.push(*classifications));
        } else {
            assert(known_classifications(alerts@.take(i + 1)) =~= before);
        }
    }
    assert(alerts@.take(n as int) =~= alerts@);
    reversed(copies)
}

/// A search for the alerts of an object, the newest first.
pub open spec fn newest_first(
    survey: Survey,
    filter: Seq<(Seq<char>, BsonValue)>,
) -> FindQueryView {
    FindQueryView {
        collection: survey.label() + "_alerts"@,
        filter,
        sort: Some(seq![("candidate.jd"@, BsonValue::Int32(DESCENDING))]),
        projection: None,
        limit: None,
    }
}

fn find_newest_first(survey: Survey, filter: Document) -> (r: FindQuery)
    ensures
        r@ == newest_first(survey, document_fields(filter)),
{
    FindQuery {
        collection: survey.alerts_collection(),
        filter,
        sort: Some(doc1("candidate.jd", int32(DESCENDING))),
        projection: None,
        limit: None,
    }
}

/// The public alerts of an object of ZTF.
pub open spec fn public_alerts_filter(object_id: Seq<char>) -> Seq<(Seq<char>, BsonValue)> {
    seq![
        ("objectId"@, BsonValue::Text(object_id)),
        ("candidate.programid"@, BsonValue::Int32(PUBLIC_PROGRAM)),
    ]
}

/// A search for what is known of an object besides its alerts.
pub open spec fn object_itself(survey: Survey, object_id: Seq<char>) -> FindOneQueryView {
    FindOneQueryView {
        collection: survey.label() + "_alerts_aux"@,
        filter: seq![("_id"@, BsonValue::Text(object_id))],
        projection: None,
    }
}

fn find_object(survey: Survey, object_id: &str) -> (r: FindOneQuery)
    ensures
        r@ == object_itself(survey, object_id@),
{
    FindOneQuery {
        collection: survey.aux_collection(),
        filter: doc1("_id", text(object_id)),
        projection: None,
    }
}

/// A search for the nearest object of a survey to a point.
pub open spec fn nearest_object(
    survey: Survey,
    longitude: BsonValue,
    latitude: BsonValue,
    radius: BsonValue,
) -> FindOneQueryView {
    FindOneQueryView {
        collection: survey.label() + "_alerts_aux"@,
        filter: near_filter(longitude, latitude, radius),
        projection: None,
    }
}

fn find_nearest(survey: Survey, longitude: Bson, latitude: Bson, radius: Bson) -> (r: FindOneQuery)
    ensures
        r@ == nearest_object(
            survey,
            bson_value(longitude),
            bson_value(latitude),
            bson_value(radius),
        ),
{
    FindOneQuery {
        collection: survey.aux_collection(),
        filter: near(longitude, latitude, radius),
        projection: None,
    }
}

/// Why the alerts of an object could not be searched for.
pub open spec fn alerts_unavailable(object_id: Seq<char>, error: Seq<char>) -> RefusalView {
    RefusalView::InternalError(
        "error retrieving latest alert for object "@ + object_id + ": "@ + error,
    )
}

/// Why documents could not be read.
pub open spec fn documents_unreadable(error: Seq<char>) -> RefusalView {
    RefusalView::InternalError("error getting documents: "@ + error)
}

fn refuse_alerts<T>(object_id: &str, error: &str) -> (r: Result<T, Refusal>)
    ensures
        r is Err,
        r->Err_0@ == alerts_unavailable(object_id@, error@),
{
    let what = concat3("error retrieving latest alert for object ", object_id, ": ");
    internal_error(what.as_str(), error)
}

/// Takes the object itself out of what a search for it gave.
fn take_object<T>(object_id: &str, outcome: Result<Option<T>, String>) -> (r: Result<T, Refusal>)
    ensures
        match outcome {
            Err(error) => r is Err && r->Err_0@ == documents_unreadable(error@),
            Ok(None) => r is Err && r->Err_0@ == no_aux(object_id@),
            Ok(Some(object)) => r == Ok::<T, Refusal>(object),
        },
{
    match outcome {
        Err(error) => internal_error("error getting documents: ", error.as_str()),
        Ok(None) => not_found("no aux entry found for object id ", object_id),
        Ok(Some(object)) => Ok(object),
    }
}

/// A lookup in ZTF, once the alerts have been found.
pub struct ZtfAuxLookup<D> {
    pub object_id: String,
    pub newest: ZtfAlert<D>,
    pub classifications_history: Vec<D>,
}

/// A lookup in ZTF, once the object itself has been found.
pub struct ZtfNearestLookup<D> {
    pub object_id: String,
    pub newest: ZtfAlert<D>,
    pub classifications_history: Vec<D>,
    pub aux: ZtfObject<D>,
}

impl ZtfLookup {
    /// What to ask for the alerts: all the public ones of the object.
    pub fn alerts_query(&self) -> (r: FindQuery)
        ensures
            r@ == newest_first(Survey::Ztf, public_alerts_filter(self.object_id@)),
    {
        proof {
            reveal_strlit("objectId");
            reveal_strlit("candidate.programid");
            assert("objectId"@[0] == 'o' && "candidate.programid"@[0] == 'c');
        }
        find_newest_first(
            Survey::Ztf,
            doc2(
                "objectId",
                text(self.object_id.as_str()),
                "candidate.programid",
                int32(PUBLIC_PROGRAM),
            ),
        )
    }

    /// Takes the alerts: the first is the newest, and the classifications of all of them, in
    /// chronological order, are the history.
    pub fn alerts_found<D: Clone>(self, rows: Rows<ZtfAlert<D>>) -> (r: Result<
        ZtfAuxLookup<D>,
        Refusal,
    >)
        ensures
            match rows {
                Rows::NotOpened { error } => r is Err && r->Err_0@ == alerts_unavailable(
                    self.object_id@,
                    error@,
                ),
                Rows::Read { failure: Some(error), .. } => r is Err && r->Err_0@
                    == documents_unreadable(error@),
                Rows::Read { rows, failure: None } => if rows@.len() == 0 {
                    r is Err && r->Err_0@ == no_object(self.object_id@)
                } else {
                    &&& r is Ok
                    &&& r->Ok_0.object_id == self.object_id
                    &&& r->Ok_0.newest == rows@[0]
                    &&& are_clones(
                        known_classifications(rows@).reverse(),
                        r->Ok_0.classifications_history@,
                    )
                },
            },
    {
        match rows {
            Rows::NotOpened { error } => refuse_alerts(self.object_id.as_str(), error.as_str()),
            Rows::Read { failure: Some(error), .. } => internal_error(
                "error getting documents: ",
                error.as_str(),
            ),
            Rows::Read { rows, failure: None } => {
                if rows.len() == 0 {
                    return not_found("no object found with id ", self.object_id.as_str());
                }
                let classifications_history = history(&rows);
                let mut alerts = rows;
                let newest = alerts.swap_remove(0);
                Ok(ZtfAuxLookup { object_id: self.object_id, newest, classifications_history })
            },
        }
    }
}

impl<D> ZtfAuxLookup<D> {
    /// What to ask for the object itself.
    pub fn aux_query(&self) -> (r: FindOneQuery)
        ensures
            r@ == object_itself(Survey::Ztf, self.object_id@),
    {
        find_object(Survey::Ztf, self.object_id.as_str())
    }

    /// Takes the object itself.
    pub fn aux_found(self, outcome: Result<Option<ZtfObject<D>>, String>) -> (r: Result<
        ZtfNearestLookup<D>,
        Refusal,
    >)
        ensures
            match outcome {
                Err(error) => r is Err && r->Err_0@ == documents_unreadable(error@),
                Ok(None) => r is Err && r->Err_0@ == no_aux(self.object_id@),
                Ok(Some(aux)) => r == Ok::<ZtfNearestLookup<D>, Refusal>(
                    ZtfNearestLookup {
                        object_id: self.object_id,
                        newest: self.newest,
                        classifications_history: self.classifications_history,
                        aux,
                    },
                ),
            },
    {
        match take_object(self.object_id.as_str(), outcome) {
            Err(refusal) => Err(refusal),
            Ok(aux) => Ok(
                ZtfNearestLookup {
                    object_id: self.object_id,
                    newest: self.newest,
                    classifications_history: self.classifications_history,
                    aux,
                },
            ),
        }
    }
}

impl<D> ZtfNearestLookup<D> {
    /// What to ask for the nearest object of LSST. The point is that of the object, as the
    /// database counts it.
    pub fn nearest_query(&self, longitude: Bson, latitude: Bson, radius: Bson) -> (r: FindOneQuery)
        ensures
            r@ == nearest_object(
                Survey::Lsst,
                bson_value(longitude),
                bson_value(latitude),
                bson_value(radius),
            ),
    {
        find_nearest(Survey::Lsst, longitude, latitude, radius)
    }

    /// Takes the nearest object of LSST and puts everything together, of the light curve the
    /// public measurements alone.
    pub fn nearest_found(
        self,
        outcome: Result<Option<Counterpart<LsstObject<D>>>, String>,
    ) -> (r: Result<ObjectReply<ZtfObj<D>>, Refusal>)
        ensures
            match outcome {
                Err(error) => r is Err && r->Err_0@ == RefusalView::InternalError(
                    "error getting nearest lsst object: "@ + error@,
                ),
                Ok(nearest) => {
                    &&& r is Ok
                    &&& is_ztf_reply(self.object_id@, self.newest, self.aux, nearest, r->Ok_0)
                    &&& r->Ok_0.data.classifications_history == self.classifications_history
                },
            },
    {
        let nearest = match outcome {
            Err(error) => {
                return internal_error("error getting nearest lsst object: ", error.as_str());
            },
            Ok(nearest) => nearest,
        };
        let lsst = match nearest {
            Some(counterpart) => Some(
                LsstMatch {
                    object_id: counterpart.object.object_id,
                    ra: counterpart.object.ra,
                    dec: counterpart.object.dec,
                    prv_candidates: counterpart.object.prv_candidates,
                    fp_hists: counterpart.object.fp_hists,
                    distance_arcsec: counterpart.distance_arcsec,
                },
            ),
            None => None,
        };
        let message = concat("object found with object_id: ", self.object_id.as_str());
        let data = ZtfObj {
            candid: self.newest.candid,
            object_id: self.object_id,
            candidate: self.newest.candidate,
            properties: self.newest.properties,
            prv_candidates: keep_public(self.aux.prv_candidates),
            prv_nondetections: keep_public(self.aux.prv_nondetections),
            fp_hists: keep_public(self.aux.fp_hists),
            classifications: self.newest.classifications,
            classifications_history: self.classifications_history,
            cross_matches: self.aux.cross_matches,
            survey_matches: ZtfSurveyMatches { lsst },
        };
        Ok(ObjectReply { message, data })
    }
}

/// The nearest object of LSST as it is shown beside an object of ZTF.
pub open spec fn lsst_match<D>(nearest: Option<Counterpart<LsstObject<D>>>) -> Option<
    LsstMatch<D>,
> {
    match nearest {
        Some(counterpart) => Some(
            LsstMatch {
                object_id: counterpart.object.object_id,
                ra: counterpart.object.ra,
                dec: counterpart.object.dec,
                prv_candidates: counterpart.object.prv_candidates,
                fp_hists: counterpart.object.fp_hists,
                distance_arcsec: counterpart.distance_arcsec,
            },
        ),
        None => None,
    }
}

/// Whether this is the nearest object of ZTF as it is shown beside an object of LSST: of its light
/// curve the public measurements alone.
pub open spec fn is_ztf_match<D>(
    shown: Option<ZtfMatch<D>>,
    nearest: Option<Counterpart<ZtfObject<D>>>,
) -> bool {
    match (shown, nearest) {
        (Some(shown), Some(counterpart)) => {
            &&& shown.object_id == counterpart.object.object_id
            &&& shown.ra == counterpart.object.ra
            &&& shown.dec == counterpart.object.dec
            &&& shown.prv_candidates@ == public_points(counterpart.object.prv_candidates@)
            &&& shown.prv_nondetections@ == public_points(counterpart.object.prv_nondetections@)
            &&& shown.fp_hists@ == public_points(counterpart.object.fp_hists@)
            &&& shown.distance_arcsec == counterpart.distance_arcsec
        },
        (None, None) => true,
        _ => false,
    }
}

/// Whether this is an object of ZTF put together, its history aside: of its light curve the public
/// measurements alone.
pub open spec fn is_ztf_reply<D>(
    object_id: Seq<char>,
    newest: ZtfAlert<D>,
    aux: ZtfObject<D>,
    nearest: Option<Counterpart<LsstObject<D>>>,
    reply: ObjectReply<ZtfObj<D>>,
) -> bool {
    &&& reply.message@ == "object found with object_id: "@ + object_id
    &&& reply.data.candid == newest.candid
    &&& reply.data.object_id@ == object_id
    &&& reply.data.candidate == newest.candidate
    &&& reply.data.properties == newest.properties
    &&& reply.data.prv_candidates@ == public_points(aux.prv_candidates@)
    &&& reply.data.prv_nondetections@ == public_points(aux.prv_nondetections@)
    &&& reply.data.fp_hists@ == public_points(aux.fp_hists@)
    &&& reply.data.classifications == newest.classifications
    &&& reply.data.cross_matches == aux.cross_matches
    &&& reply.data.survey_matches.lsst == lsst_match(nearest)
}

/// Whether this is an object of LSST put together.
pub open spec fn is_lsst_reply<D>(
    object_id: Seq<char>,
    newest: LsstAlert<D>,
    aux: LsstObject<D>,
    nearest: Option<Counterpart<ZtfObject<D>>>,
    reply: ObjectReply<LsstObj<D>>,
) -> bool {
    &&& reply.message@ == "object found with object_id: "@ + object_id
    &&& reply.data.candid == newest.candid
    &&& reply.data.object_id@ == object_id
    &&& reply.data.candidate == newest.candidate
    &&& reply.data.properties == newest.properties
    &&& reply.data.prv_candidates == aux.prv_candidates
    &&& reply.data.fp_hists == aux.fp_hists
    &&& reply.data.cross_matches == aux.cross_matches
    &&& is_ztf_match(reply.data.survey_matches.ztf, nearest)
}

/// Why no object is shown that has no alert.
pub open spec fn no_object(object_id: Seq<char>) -> RefusalView {
    RefusalView::NotFound("no object found with id "@ + object_id)
}

/// Why no object is shown of which nothing is known besides its alerts.
pub open spec fn no_aux(object_id: Seq<char>) -> RefusalView {
    RefusalView::NotFound("no aux entry found for object id "@ + object_id)
}

/// Whether this is what a lookup in ZTF comes to, where the database does not fail: by the alerts
/// that were found, newest first, by what is known of the object besides, and by the nearest object
/// of LSST.
pub open spec fn is_ztf_answer<D: Clone>(
    object_id: Seq<char>,
    alerts: Seq<ZtfAlert<D>>,
    aux: Option<ZtfObject<D>>,
    nearest: Option<Counterpart<LsstObject<D>>>,
    answer: Result<ObjectReply<ZtfObj<D>>, RefusalView>,
) -> bool {
    if alerts.len() == 0 {
        answer == Err::<ObjectReply<ZtfObj<D>>, RefusalView>(no_object(object_id))
    } else {
        match aux {
            None => answer == Err::<ObjectReply<ZtfObj<D>>, RefusalView>(no_aux(object_id)),
            Some(aux) => {
                &&& answer is Ok
                &&& is_ztf_reply(object_id, alerts[0], aux, nearest, answer->Ok_0)
                &&& are_clones(
                    known_classifications(alerts).reverse(),
                    answer->Ok_0.data.classifications_history@,
                )
            },
        }
    }
}

/// Whether this is what a lookup in LSST comes to, where the database does not fail.
pub open spec fn is_lsst_answer<D>(
    object_id: Seq<char>,
    alerts: Seq<LsstAlert<D>>,
    aux: Option<LsstObject<D>>,
    nearest: Option<Counterpart<ZtfObject<D>>>,
    answer: Result<ObjectReply<LsstObj<D>>, RefusalView>,
) -> bool {
    if alerts.len() == 0 {
        answer == Err::<ObjectReply<LsstObj<D>>, RefusalView>(no_object(object_id))
    } else {
        match aux {
            None => answer == Err::<ObjectReply<LsstObj<D>>, RefusalView>(no_aux(object_id)),
            Some(aux) => answer is Ok && is_lsst_reply(
                object_id,
                alerts[0],
                aux,
                nearest,
                answer->Ok_0,
            ),
        }
    }
}

/// An answer, its refusal as what it means.
pub open spec fn answer_view<T>(answer: Result<T, Refusal>) -> Result<T, RefusalView> {
    match answer {
        Ok(reply) => Ok(reply),
        Err(refusal) => Err(refusal@),
    }
}

impl ZtfLookup {
    /// The whole lookup, where all that the database answers is at hand.
    pub fn answer<D: Clone>(
        self,
        alerts: Vec<ZtfAlert<D>>,
        aux: Option<ZtfObject<D>>,
        nearest: Option<Counterpart<LsstObject<D>>>,
    ) -> (r: Result<ObjectReply<ZtfObj<D>>, Refusal>)
        ensures
            is_ztf_answer(self.object_id@, alerts@, aux, nearest, answer_view(r)),
    {
        let lookup = match self.alerts_found(Rows::Read { rows: alerts, failure: None }) {
            Ok(lookup) => lookup,
            Err(refusal) => {
                return Err(refusal);
            },
        };
        let lookup = match lookup.aux_found(Ok(aux)) {
            Ok(lookup) => lookup,
            Err(refusal) => {
                return Err(refusal);
            },
        };
        lookup.nearest_found(Ok(nearest))
    }
}

impl LsstLookup {
    /// The whole lookup, where all that the database answers is at hand.
    pub fn answer<D>(
        self,
        alerts: Vec<LsstAlert<D>>,
        aux: Option<LsstObject<D>>,
        nearest: Option<Counterpart<ZtfObject<D>>>,
    ) -> (r: Result<ObjectReply<LsstObj<D>>, Refusal>)
        ensures
            is_lsst_answer(self.object_id@, alerts@, aux, nearest, answer_view(r)),
    {
        let lookup = match self.alerts_found(Rows::Read { rows: alerts, failure: None }) {
            Ok(lookup) => lookup,
            Err(refusal) => {
                return Err(refusal);
            },
        };
        let lookup = match lookup.aux_found(Ok(aux)) {
            Ok(lookup) => lookup,
            Err(refusal) => {
                return Err(refusal);
            },
        };
        lookup.nearest_found(Ok(nearest))
    }
}

/// A lookup in LSST, once the newest alert has been found.
pub struct LsstAuxLookup<D> {
    pub object_id: String,
    pub newest: LsstAlert<D>,
}

/// A lookup in LSST, once the object itself has been found.
pub struct LsstNearestLookup<D> {
    pub object_id: String,
    pub newest: LsstAlert<D>,
    pub aux: LsstObject<D>,
}

impl LsstLookup {
    /// What to ask for the alerts. Only the first is used.
    pub fn alerts_query(&self) -> (r: FindQuery)
        ensures
            r@ == newest_first(
                Survey::Lsst,
                seq![("objectId"@, BsonValue::Text(self.object_id@))],
            ),
    {
        find_newest_first(Survey::Lsst, doc1("objectId", text(self.object_id.as_str())))
    }

    /// Takes the alerts: the first is the newest, whatever is read after it.
    pub fn alerts_found<D>(self, rows: Rows<LsstAlert<D>>) -> (r: Result<LsstAuxLookup<D>, Refusal>)
        ensures
            match rows {
                Rows::NotOpened { error } => r is Err && r->Err_0@ == alerts_unavailable(
                    self.object_id@,
                    error@,
                ),
                Rows::Read { rows, failure } => if rows@.len() > 0 {
                    r == Ok::<LsstAuxLookup<D>, Refusal>(
                        LsstAuxLookup { object_id: self.object_id, newest: rows@[0] },
                    )
                } else {
                    match failure {
                        Some(error) => r is Err && r->Err_0@ == documents_unreadable(error@),
                        None => r is Err && r->Err_0@ == no_object(self.object_id@),
                    }
                },
            },
    {
        match rows {
            Rows::NotOpened { error } => refuse_alerts(self.object_id.as_str(), error.as_str()),
            Rows::Read { rows, failure } => {
                if rows.len() > 0 {
                    let mut alerts = rows;
                    let newest = alerts.swap_remove(0);
                    return Ok(LsstAuxLookup { object_id: self.object_id, newest });
                }
                match failure {
                    Some(error) => internal_error("error getting documents: ", error.as_str()),
                    None => not_found("no object found with id ", self.object_id.as_str()),
                }
            },
        }
    }
}

impl<D> LsstAuxLookup<D> {
    /// What to ask for the object itself.
    pub fn aux_query(&self) -> (r: FindOneQuery)
        ensures
            r@ == object_itself(Survey::Lsst, self.object_id@),
    {
        find_object(Survey::Lsst, self.object_id.as_str())
    }

    /// Takes the object itself.
    pub fn aux_found(self, outcome: Result<Option<LsstObject<D>>, String>) -> (r: Result<
        LsstNearestLookup<D>,
        Refusal,
    >)
        ensures
            match outcome {
                Err(error) => r is Err && r->Err_0@ == documents_unreadable(error@),
                Ok(None) => r is Err && r->Err_0@ == no_aux(self.object_id@),
                Ok(Some(aux)) => r == Ok::<LsstNearestLookup<D>, Refusal>(
                    LsstNearestLookup { object_id: self.object_id, newest: self.newest, aux },
                ),
            },
    {
        match take_object(self.object_id.as_str(), outcome) {
            Err(refusal) => Err(refusal),
            Ok(aux) => Ok(
                LsstNearestLookup { object_id: self.object_id, newest: self.newest, aux },
            ),
        }
    }
}

impl<D> LsstNearestLookup<D> {
    /// What to ask for the nearest object of ZTF. The point is that of the object, as the database
    /// counts it.
    pub fn nearest_query(&self, longitude: Bson, latitude: Bson, radius: Bson) -> (r: FindOneQuery)
        ensures
            r@ == nearest_object(
                Survey::Ztf,
                bson_value(longitude),
                bson_value(latitude),
                bson_value(radius),
            ),
    {
        find_nearest(Survey::Ztf, longitude, latitude, radius)
    }

    /// Takes the nearest object of ZTF and puts everything together.
    pub fn nearest_found(
        self,
        outcome: Result<Option<Counterpart<ZtfObject<D>>>, String>,
    ) -> (r: Result<ObjectReply<LsstObj<D>>, Refusal>)
        ensures
            match outcome {
                Err(error) => r is Err && r->Err_0@ == RefusalView::InternalError(
                    "error getting nearest ztf object: "@ + error@,
                ),
                Ok(nearest) => r is Ok && is_lsst_reply(
                    self.object_id@,
                    self.newest,
                    self.aux,
                    nearest,
                    r->Ok_0,
                ),
            },
    {
        let nearest = match outcome {
            Err(error) => {
                return internal_error("error getting nearest ztf object: ", error.as_str());
            },
            Ok(nearest) => nearest,
        };
        let ztf = match nearest {
            Some(counterpart) => Some(
                ZtfMatch {
                    object_id: counterpart.object.object_id,
                    ra: counterpart.object.ra,
                    dec: counterpart.object.dec,
                    prv_candidates: keep_public(counterpart.object.prv_candidates),
                    prv_nondetections: keep_public(counterpart.object.prv_nondetections),
                    fp_hists: keep_public(counterpart.object.fp_hists),
                    distance_arcsec: counterpart.distance_arcsec,
                },
            ),
            None => None,
        };
        let message = concat("object found with object_id: ", self.object_id.as_str());
        let data = LsstObj {
            candid: self.newest.candid,
            object_id: self.object_id,
            candidate: self.newest.candidate,
            properties: self.newest.properties,
            prv_candidates: self.aux.prv_candidates,
            fp_hists: self.aux.fp_hists,
            cross_matches: self.aux.cross_matches,
            survey_matches: LsstSurveyMatches { ztf },
        };
        Ok(ObjectReply { message, data })
    }
}

/// Of measurements, the public ones are shown, all of them, and no others.
pub proof fn law_public_measurements_are_shown<D>(points: Seq<ZtfPoint<D>>, point: ZtfPoint<D>)
    ensures
        public_points(points).contains(point) <==> points.contains(point) && point.programid
            == PUBLIC_PROGRAM,
{
    let public = |point: ZtfPoint<D>| point.programid == PUBLIC_PROGRAM;
    let shown = points.filter(public);
    if shown.contains(point) {
        points.lemma_filter_contains_rev(public, point);
        let i = choose|i: int| 0 <= i < shown.len() && shown[i] == point;
        points.lemma_filter_pred(public, i);
    }
    if points.contains(point) && public(point) {
        let i = choose|i: int| 0 <= i < points.len() && points[i] == point;
        points.lemma_filter_contains(public, i);
    }
}

/// The history ends with the classifications of the newest alert, where it has any.
pub proof fn law_history_ends_with_the_newest<D>(alerts: Seq<ZtfAlert<D>>)
    requires
        alerts.len() > 0,
        alerts[0].classifications is Some,
    ensures
        known_classifications(alerts).reverse().len() > 0,
        known_classifications(alerts).reverse().last() == alerts[0].classifications->Some_0,
{
    let classified = |alert: ZtfAlert<D>| alert.classifications is Some;
    let first = alerts.take(1);
    let rest = alerts.skip(1);
    assert(alerts =~= first + rest);
    Seq::filter_distributes_over_add(first, rest, classified);
    assert(first.filter(classified) == first) by {
        reveal(Seq::filter);
        assert(first.drop_last() =~= Seq::empty());
        assert(Seq::empty().push(first.last()) =~= first);
    }
    assert(alerts.filter(classified)[0] == alerts[0]);
}

/// The public ones among alerts that are held with the programmes under which they were taken.
pub open spec fn public_alerts<D>(stored: Seq<(i32, ZtfAlert<D>)>) -> Seq<ZtfAlert<D>> {
    stored.filter(|entry: (i32, ZtfAlert<D>)| entry.0 == PUBLIC_PROGRAM).map_values(
        |entry: (i32, ZtfAlert<D>)| entry.1,
    )
}

/// Whether what is known of an object of ZTF differs only in measurements that are not public.
pub open spec fn same_public_object<D>(a: ZtfObject<D>, b: ZtfObject<D>) -> bool {
    &&& a.object_id == b.object_id
    &&& a.ra == b.ra
    &&& a.dec == b.dec
    &&& a.cross_matches == b.cross_matches
    &&& public_points(a.prv_candidates@) == public_points(b.prv_candidates@)
    &&& public_points(a.prv_nondetections@) == public_points(b.prv_nondetections@)
    &&& public_points(a.fp_hists@) == public_points(b.fp_hists@)
}

/// The alerts of ZTF that are asked for are those of the object and of the public programme.
pub proof fn law_only_public_alerts_are_asked_for(object_id: Seq<char>)
    ensures
        public_alerts_filter(object_id).contains(
            ("candidate.programid"@, BsonValue::Int32(PUBLIC_PROGRAM)),
        ),
        public_alerts_filter(object_id).contains(("objectId"@, BsonValue::Text(object_id))),
{
    let filter = public_alerts_filter(object_id);
    assert(filter[0] == ("objectId"@, BsonValue::Text(object_id)));
    assert(filter[1] == ("candidate.programid"@, BsonValue::Int32(PUBLIC_PROGRAM)));
}

/// An alert, or a measurement, of another programme changes nothing of what is public, wherever it
/// stands.
pub proof fn law_other_programmes_are_passed_over<D>(
    alerts_before: Seq<(i32, ZtfAlert<D>)>,
    alert: (i32, ZtfAlert<D>),
    alerts_after: Seq<(i32, ZtfAlert<D>)>,
    points_before: Seq<ZtfPoint<D>>,
    point: ZtfPoint<D>,
    points_after: Seq<ZtfPoint<D>>,
)
    requires
        alert.0 != PUBLIC_PROGRAM,
        point.programid != PUBLIC_PROGRAM,
    ensures
        public_alerts(alerts_before.push(alert) + alerts_after) == public_alerts(
            alerts_before + alerts_after,
        ),
        public_points(points_before.push(point) + points_after) == public_points(
            points_before + points_after,
        ),
{
    let public_alert = |entry: (i32, ZtfAlert<D>)| entry.0 == PUBLIC_PROGRAM;
    let public_point = |point: ZtfPoint<D>| point.programid == PUBLIC_PROGRAM;
    Seq::filter_distributes_over_add(alerts_before.push(alert), alerts_after, public_alert);
    Seq::filter_distributes_over_add(alerts_before, alerts_after, public_alert);
    Seq::filter_distributes_over_add(points_before.push(point), points_after, public_point);
    Seq::filter_distributes_over_add(points_before, points_after, public_point);
    reveal(Seq::filter);
    assert(alerts_before.push(alert).drop_last() =~= alerts_before);
    assert(points_before.push(point).drop_last() =~= points_before);
}

/// Alerts and measurements of other programmes never change the answer of a lookup in ZTF, whether
/// it shows the object or refuses. The alerts found are the public ones of those that are held.
pub proof fn law_other_programmes_never_change_an_answer_of_ztf<D: Clone>(
    object_id: Seq<char>,
    stored_a: Seq<(i32, ZtfAlert<D>)>,
    stored_b: Seq<(i32, ZtfAlert<D>)>,
    aux_a: Option<ZtfObject<D>>,
    aux_b: Option<ZtfObject<D>>,
    nearest: Option<Counterpart<LsstObject<D>>>,
    answer: Result<ObjectReply<ZtfObj<D>>, RefusalView>,
)
    requires
        public_alerts(stored_a) == public_alerts(stored_b),
        aux_a is Some == aux_b is Some,
        aux_a is Some ==> same_public_object(aux_a->Some_0, aux_b->Some_0),
    ensures
        is_ztf_answer(object_id, public_alerts(stored_a), aux_a, nearest, answer)
            <==> is_ztf_answer(object_id, public_alerts(stored_b), aux_b, nearest, answer),
{
}

/// Measurements of other programmes never change the answer of a lookup in LSST either, which shows
/// the nearest object of ZTF.
pub proof fn law_other_programmes_never_change_an_answer_of_lsst<D>(
    object_id: Seq<char>,
    alerts: Seq<LsstAlert<D>>,
    aux: Option<LsstObject<D>>,
    nearest_a: Option<Counterpart<ZtfObject<D>>>,
    nearest_b: Option<Counterpart<ZtfObject<D>>>,
    answer: Result<ObjectReply<LsstObj<D>>, RefusalView>,
)
    requires
        nearest_a is Some == nearest_b is Some,
        nearest_a is Some ==> {
            &&& same_public_object(nearest_a->Some_0.object, nearest_b->Some_0.object)
            &&& nearest_a->Some_0.distance_arcsec == nearest_b->Some_0.distance_arcsec
        },
    ensures
        is_lsst_answer(object_id, alerts, aux, nearest_a, answer) <==> is_lsst_answer(
            object_id,
            alerts,
            aux,
            nearest_b,
            answer,
        ),
{
}

} // verus!
