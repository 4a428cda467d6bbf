//! What the lookup of an object shows: laws on what its steps return.

use crate::object_lookup::{
    get_object, known_classifications, public_points, Counterpart, LsstAlert, LsstAuxLookup,
    LsstLookup, LsstNearestLookup, LsstObj, LsstObject, ObjectLookup, ObjectReply, ZtfAlert,
    ZtfAuxLookup, ZtfLookup, ZtfNearestLookup, ZtfObj, ZtfObject, ZtfPoint, PUBLIC_PROGRAM,
};
use crate::query::Rows;
use crate::reply::Refusal;
use crate::survey::Survey;
use vstd::prelude::*;

verus! {

/// A lookup begins for somebody who is logged in, in ZTF or LSST, and keeps the identifier.
pub proof fn law_a_lookup_begins_with_the_identifier(
    authenticated: bool,
    survey: Survey,
    object_id: String,
    r: Result<ObjectLookup, Refusal>,
)
    requires
        call_ensures(get_object, (authenticated, survey, object_id), r),
    ensures
        r is Ok <==> authenticated && survey != Survey::Decam,
        !authenticated ==> r->Err_0 is Unauthorized,
        authenticated && survey == Survey::Decam ==> r->Err_0 is BadRequest,
        r is Ok && survey == Survey::Ztf ==> r->Ok_0 is Ztf && r->Ok_0->Ztf_0.object_id
            == object_id,
        r is Ok && survey == Survey::Lsst ==> r->Ok_0 is Lsst && r->Ok_0->Lsst_0.object_id
            == object_id,
{
}

/// Whether these are clones of the classifications of the alerts that have any, from the last alert
/// to the first.
pub open spec fn is_history<D: Clone>(alerts: Seq<ZtfAlert<D>>, history: Seq<D>) -> bool {
    let classified = alerts.filter(|alert: ZtfAlert<D>| alert.classifications is Some);
    &&& history.len() == classified.len()
    &&& forall|k: int|
        0 <= k < history.len() ==> cloned(
            classified[classified.len() - 1 - k].classifications->Some_0,
            #[trigger] history[k],
        )
}

/// Of the alerts of ZTF the first is the newest, and the classifications of all of them, oldest
/// first, are the history. Without alerts there is no object.
pub proof fn law_the_first_alert_is_the_newest<D: Clone>(
    lookup: ZtfLookup,
    rows: Rows<ZtfAlert<D>>,
    r: Result<ZtfAuxLookup<D>, Refusal>,
)
    requires
        call_ensures(ZtfLookup::alerts_found::<D>, (lookup, rows), r),
    ensures
        match rows {
            Rows::NotOpened { error } => r is Err && r->Err_0 is InternalError,
            Rows::Read { rows, failure } => {
                &&& failure is Some ==> r is Err && r->Err_0 is InternalError
                &&& failure is None && rows@.len() == 0 ==> {
                    &&& r is Err && r->Err_0 is NotFound
                    &&& r->Err_0->NotFound_0@ == "no object found with id "@ + lookup.object_id@
                }
                &&& failure is None && rows@.len() > 0 ==> {
                    &&& r is Ok
                    &&& r->Ok_0.object_id@ == lookup.object_id@
                    &&& r->Ok_0.newest == rows@[0]
                    &&& is_history(rows@, r->Ok_0.classifications_history@)
                }
            },
        },
{
    if let Rows::Read { rows, failure: None } = rows {
        if rows@.len() > 0 {
            let history = r->Ok_0.classifications_history@;
            let classified = rows@.filter(
                |alert: ZtfAlert<D>| alert.classifications is Some,
            );
            let known = known_classifications(rows@);
            assert(known.len() == classified.len());
            assert forall|k: int| 0 <= k < history.len() implies cloned(
                classified[classified.len() - 1 - k].classifications->Some_0,
                #[trigger] history[k],
            ) by {
                assert(known.reverse()[k] == known[known.len() - 1 - k]);
            }
        }
    }
}

/// Of the alerts of LSST the first is the newest, whatever is read after it. Without alerts there
/// is no object.
pub proof fn law_the_first_alert_of_lsst_is_the_newest<D>(
    lookup: LsstLookup,
    rows: Rows<LsstAlert<D>>,
    r: Result<LsstAuxLookup<D>, Refusal>,
)
    requires
        call_ensures(LsstLookup::alerts_found::<D>, (lookup, rows), r),
    ensures
        match rows {
            Rows::NotOpened { error } => r is Err && r->Err_0 is InternalError,
            Rows::Read { rows, failure } => {
                &&& rows@.len() > 0 ==> r is Ok && r->Ok_0.newest == rows@[0]
                    && r->Ok_0.object_id@ == lookup.object_id@
                &&& rows@.len() == 0 && failure is Some ==> r is Err && r->Err_0 is InternalError
                &&& rows@.len() == 0 && failure is None ==> {
                    &&& r is Err && r->Err_0 is NotFound
                    &&& r->Err_0->NotFound_0@ == "no object found with id "@ + lookup.object_id@
                }
            },
        },
{
}

/// What was found before is kept when the object itself is found. Without it there is nothing to
/// show.
pub proof fn law_the_object_itself_is_added<D>(
    ztf: ZtfAuxLookup<D>,
    ztf_outcome: Result<Option<ZtfObject<D>>, String>,
    ztf_r: Result<ZtfNearestLookup<D>, Refusal>,
    lsst: LsstAuxLookup<D>,
    lsst_outcome: Result<Option<LsstObject<D>>, String>,
    lsst_r: Result<LsstNearestLookup<D>, Refusal>,
)
    requires
        call_ensures(ZtfAuxLookup::<D>::aux_found, (ztf, ztf_outcome), ztf_r),
        call_ensures(LsstAuxLookup::<D>::aux_found, (lsst, lsst_outcome), lsst_r),
    ensures
        match ztf_outcome {
            Err(_) => ztf_r is Err && ztf_r->Err_0 is InternalError,
            Ok(None) => {
                &&& ztf_r is Err && ztf_r->Err_0 is NotFound
                &&& ztf_r->Err_0->NotFound_0@ == "no aux entry found for object id "@
                    + ztf.object_id@
            },
            Ok(Some(aux)) => {
                &&& ztf_r is Ok
                &&& ztf_r->Ok_0.object_id == ztf.object_id
                &&& ztf_r->Ok_0.newest == ztf.newest
                &&& ztf_r->Ok_0.classifications_history == ztf.classifications_history
                &&& ztf_r->Ok_0.aux == aux
            },
        },
        match lsst_outcome {
            Err(_) => lsst_r is Err && lsst_r->Err_0 is InternalError,
            Ok(None) => {
                &&& lsst_r is Err && lsst_r->Err_0 is NotFound
                &&& lsst_r->Err_0->NotFound_0@ == "no aux entry found for object id "@
                    + lsst.object_id@
            },
            Ok(Some(aux)) => {
                &&& lsst_r is Ok
                &&& lsst_r->Ok_0.object_id == lsst.object_id
                &&& lsst_r->Ok_0.newest == lsst.newest
                &&& lsst_r->Ok_0.aux == aux
            },
        },
{
}

/// The measurements of the public programme, in order.
pub open spec fn of_the_public<D>(points: Seq<ZtfPoint<D>>) -> Seq<ZtfPoint<D>> {
    points.filter(|point: ZtfPoint<D>| point.programid == 1)
}

proof fn lemma_public<D>(points: Seq<ZtfPoint<D>>)
    ensures
        public_points(points) == of_the_public(points),
{
    let theirs = |point: ZtfPoint<D>| point.programid == PUBLIC_PROGRAM;
    let ours = |point: ZtfPoint<D>| point.programid == 1;
    assert(theirs =~= ours);
}

/// An object of ZTF that is shown has the identifier, the candidate, the properties and the
/// classifications of its newest alert, its history, the public measurements and the catalogue
/// matches of the object itself, and the nearest object of LSST, where there is one, with
/// everything that is known of it.
pub proof fn law_an_object_of_ztf_is_shown_whole<D>(
    lookup: ZtfNearestLookup<D>,
    outcome: Result<Option<Counterpart<LsstObject<D>>>, String>,
    r: Result<ObjectReply<ZtfObj<D>>, Refusal>,
)
    requires
        call_ensures(ZtfNearestLookup::<D>::nearest_found, (lookup, outcome), r),
    ensures
        r is Ok <==> outcome is Ok,
        r is Err ==> r->Err_0 is InternalError,
        r is Ok ==> {
            let shown = r->Ok_0.data;
            &&& r->Ok_0.message@ == "object found with object_id: "@ + lookup.object_id@
            &&& shown.object_id@ == lookup.object_id@
            &&& shown.candid == lookup.newest.candid
            &&& shown.candidate == lookup.newest.candidate
            &&& shown.properties == lookup.newest.properties
            &&& shown.classifications == lookup.newest.classifications
            &&& shown.classifications_history@ == lookup.classifications_history@
            &&& shown.prv_candidates@ == of_the_public(lookup.aux.prv_candidates@)
            &&& shown.prv_nondetections@ == of_the_public(lookup.aux.prv_nondetections@)
            &&& shown.fp_hists@ == of_the_public(lookup.aux.fp_hists@)
            &&& shown.cross_matches == lookup.aux.cross_matches
            &&& shown.survey_matches.lsst is Some <==> outcome->Ok_0 is Some
            &&& outcome->Ok_0 is Some ==> {
                let lsst = shown.survey_matches.lsst->Some_0;
                let nearest = outcome->Ok_0->Some_0;
                &&& lsst.object_id == nearest.object.object_id
                &&& lsst.ra == nearest.object.ra
                &&& lsst.dec == nearest.object.dec
                &&& lsst.prv_candidates == nearest.object.prv_candidates
                &&& lsst.fp_hists == nearest.object.fp_hists
                &&& lsst.distance_arcsec == nearest.distance_arcsec
            }
        },
{
    lemma_public(lookup.aux.prv_candidates@);
    lemma_public(lookup.aux.prv_nondetections@);
    lemma_public(lookup.aux.fp_hists@);
}

/// An object of LSST that is shown has the identifier, the candidate and the properties of its
/// newest alert, the measurements and the catalogue matches of the object itself, and the nearest
/// object of ZTF, where there is one, with its public measurements.
pub proof fn law_an_object_of_lsst_is_shown_whole<D>(
    lookup: LsstNearestLookup<D>,
    outcome: Result<Option<Counterpart<ZtfObject<D>>>, String>,
    r: Result<ObjectReply<LsstObj<D>>, Refusal>,
)
    requires
        call_ensures(LsstNearestLookup::<D>::nearest_found, (lookup, outcome), r),
    ensures
        r is Ok <==> outcome is Ok,
        r is Err ==> r->Err_0 is InternalError,
        r is Ok ==> {
            let shown = r->Ok_0.data;
            &&& r->Ok_0.message@ == "object found with object_id: "@ + lookup.object_id@
            &&& shown.object_id@ == lookup.object_id@
            &&& shown.candid == lookup.newest.candid
            &&& shown.candidate == lookup.newest.candidate
            &&& shown.properties == lookup.newest.properties
            &&& shown.prv_candidates == lookup.aux.prv_candidates
            &&& shown.fp_hists == lookup.aux.fp_hists
            &&& shown.cross_matches == lookup.aux.cross_matches
            &&& shown.survey_matches.ztf is Some <==> outcome->Ok_0 is Some
            &&& outcome->Ok_0 is Some ==> {
                let ztf = shown.survey_matches.ztf->Some_0;
                let nearest = outcome->Ok_0->Some_0;
                &&& ztf.object_id == nearest.object.object_id
                &&& ztf.ra == nearest.object.ra
                &&& ztf.dec == nearest.object.dec
                &&& ztf.prv_candidates@ == of_the_public(nearest.object.prv_candidates@)
                &&& ztf.prv_nondetections@ == of_the_public(nearest.object.prv_nondetections@)
                &&& ztf.fp_hists@ == of_the_public(nearest.object.fp_hists@)
                &&& ztf.distance_arcsec == nearest.distance_arcsec
            }
        },
{
    if let Ok(Some(nearest)) = outcome {
        lemma_public(nearest.object.prv_candidates@);
        lemma_public(nearest.object.prv_nondetections@);
        lemma_public(nearest.object.fp_hists@);
    }
}

/// Two lookups in ZTF that show the same object had the same newest alert: the same identifier,
/// candidate, properties and classifications.
pub proof fn law_different_alerts_are_shown_differently<D>(
    a: ZtfNearestLookup<D>,
    outcome_a: Result<Option<Counterpart<LsstObject<D>>>, String>,
    shown_a: ObjectReply<ZtfObj<D>>,
    b: ZtfNearestLookup<D>,
    outcome_b: Result<Option<Counterpart<LsstObject<D>>>, String>,
    shown_b: ObjectReply<ZtfObj<D>>,
)
    requires
        call_ensures(
            ZtfNearestLookup::<D>::nearest_found,
            (a, outcome_a),
            Ok::<ObjectReply<ZtfObj<D>>, Refusal>(shown_a),
        ),
        call_ensures(
            ZtfNearestLookup::<D>::nearest_found,
            (b, outcome_b),
            Ok::<ObjectReply<ZtfObj<D>>, Refusal>(shown_b),
        ),
        shown_a.data == shown_b.data,
    ensures
        a.newest == b.newest,
        a.aux.cross_matches == b.aux.cross_matches,
        a.object_id@ == b.object_id@,
{
    law_an_object_of_ztf_is_shown_whole(a, outcome_a, Ok(shown_a));
    law_an_object_of_ztf_is_shown_whole(b, outcome_b, Ok(shown_b));
}

/// A lookup in ZTF whose answers are all at hand comes to what its steps come to, one after the
/// other: the refusal of the first step that refuses, or the object with all that it shows. The
/// history is a clone of the same classifications both times.
pub proof fn law_a_whole_lookup_of_ztf_is_its_steps<D: Clone>(
    lookup: ZtfLookup,
    alerts: Vec<ZtfAlert<D>>,
    aux: Option<ZtfObject<D>>,
    nearest: Option<Counterpart<LsstObject<D>>>,
    whole: Result<ObjectReply<ZtfObj<D>>, Refusal>,
    first: Result<ZtfAuxLookup<D>, Refusal>,
    second: Result<ZtfNearestLookup<D>, Refusal>,
    third: Result<ObjectReply<ZtfObj<D>>, Refusal>,
)
    requires
        call_ensures(ZtfLookup::answer::<D>, (lookup, alerts, aux, nearest), whole),
        call_ensures(
            ZtfLookup::alerts_found::<D>,
            (lookup, Rows::Read { rows: alerts, failure: None }),
            first,
        ),
        first is Ok ==> call_ensures(
            ZtfAuxLookup::<D>::aux_found,
            (first->Ok_0, Ok::<Option<ZtfObject<D>>, String>(aux)),
            second,
        ),
        first is Ok && second is Ok ==> call_ensures(
            ZtfNearestLookup::<D>::nearest_found,
            (second->Ok_0, Ok::<Option<Counterpart<LsstObject<D>>>, String>(nearest)),
            third,
        ),
    ensures
        first is Err ==> whole is Err && whole->Err_0@ == first->Err_0@,
        first is Ok && second is Err ==> whole is Err && whole->Err_0@ == second->Err_0@,
        first is Ok && second is Ok ==> {
            let a = whole->Ok_0.data;
            let b = third->Ok_0.data;
            &&& whole is Ok
            &&& third is Ok
            &&& whole->Ok_0.message@ == third->Ok_0.message@
            &&& a.object_id@ == b.object_id@
            &&& a.candid == b.candid
            &&& a.candidate == b.candidate
            &&& a.properties == b.properties
            &&& a.classifications == b.classifications
            &&& is_history(alerts@, a.classifications_history@)
            &&& is_history(alerts@, b.classifications_history@)
            &&& a.prv_candidates@ == b.prv_candidates@
            &&& a.prv_nondetections@ == b.prv_nondetections@
            &&& a.fp_hists@ == b.fp_hists@
            &&& a.cross_matches == b.cross_matches
            &&& a.survey_matches == b.survey_matches
        },
{
    law_the_first_alert_is_the_newest(lookup, Rows::Read { rows: alerts, failure: None }, first);
    if first is Ok && second is Ok {
        let history = whole->Ok_0.data.classifications_history@;
        let classified = alerts@.filter(|alert: ZtfAlert<D>| alert.classifications is Some);
        let known = known_classifications(alerts@);
        assert forall|k: int| 0 <= k < history.len() implies cloned(
            classified[classified.len() - 1 - k].classifications->Some_0,
            #[trigger] history[k],
        ) by {
            assert(known.reverse()[k] == known[known.len() - 1 - k]);
        }
    }
}

/// A lookup in LSST whose answers are all at hand comes to what its steps come to, one after the
/// other: the refusal of the first step that refuses, or the object with all that it shows.
pub proof fn law_a_whole_lookup_of_lsst_is_its_steps<D>(
    lookup: LsstLookup,
    alerts: Vec<LsstAlert<D>>,
    aux: Option<LsstObject<D>>,
    nearest: Option<Counterpart<ZtfObject<D>>>,
    whole: Result<ObjectReply<LsstObj<D>>, Refusal>,
    first: Result<LsstAuxLookup<D>, Refusal>,
    second: Result<LsstNearestLookup<D>, Refusal>,
    third: Result<ObjectReply<LsstObj<D>>, Refusal>,
)
    requires
        call_ensures(LsstLookup::answer::<D>, (lookup, alerts, aux, nearest), whole),
        call_ensures(
            LsstLookup::alerts_found::<D>,
            (lookup, Rows::Read { rows: alerts, failure: None }),
            first,
        ),
        first is Ok ==> call_ensures(
            LsstAuxLookup::<D>::aux_found,
            (first->Ok_0, Ok::<Option<LsstObject<D>>, String>(aux)),
            second,
        ),
        first is Ok && second is Ok ==> call_ensures(
            LsstNearestLookup::<D>::nearest_found,
            (second->Ok_0, Ok::<Option<Counterpart<ZtfObject<D>>>, String>(nearest)),
            third,
        ),
    ensures
        first is Err ==> whole is Err && whole->Err_0@ == first->Err_0@,
        first is Ok && second is Err ==> whole is Err && whole->Err_0@ == second->Err_0@,
        first is Ok && second is Ok ==> {
            let a = whole->Ok_0.data;
            let b = third->Ok_0.data;
            &&& whole is Ok
            &&& third is Ok
            &&& whole->Ok_0.message@ == third->Ok_0.message@
            &&& a.object_id@ == b.object_id@
            &&& a.candid == b.candid
            &&& a.candidate == b.candidate
            &&& a.properties == b.properties
            &&& a.prv_candidates == b.prv_candidates
            &&& a.fp_hists == b.fp_hists
            &&& a.cross_matches == b.cross_matches
            &&& a.survey_matches.ztf is Some <==> b.survey_matches.ztf is Some
            &&& a.survey_matches.ztf is Some ==> {
                let x = a.survey_matches.ztf->Some_0;
                let y = b.survey_matches.ztf->Some_0;
                &&& x.object_id == y.object_id
                &&& x.ra == y.ra
                &&& x.dec == y.dec
                &&& x.prv_candidates@ == y.prv_candidates@
                &&& x.prv_nondetections@ == y.prv_nondetections@
                &&& x.fp_hists@ == y.fp_hists@
                &&& x.distance_arcsec == y.distance_arcsec
            }
        },
{
}

} // verus!
