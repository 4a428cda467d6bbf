//! What is told to somebody whose request is refused, or whose request the database failed.

use crate::cone_laws::is_a_place;
use crate::cone_search::{
    cone_search_objects, ConeQuestion, ConeSearch, ConeStep, ObjectsConeSearchQuery,
};
use crate::enrichment::{
    EnrichmentConfig, EnrichmentWorkerError, LsstEnrichmentWorker, PendingWorker, WorkerStart,
};
use crate::ieee::Float64;
use crate::number_laws::{lemma_bound, no_number};
use crate::object_lookup::{
    get_object, Counterpart, LsstAlert, LsstAuxLookup, LsstLookup, LsstNearestLookup, LsstObj,
    LsstObject, ObjectLookup, ObjectReply, ZtfAlert, ZtfAuxLookup, ZtfLookup, ZtfNearestLookup,
    ZtfObj, ZtfObject,
};
use crate::position_search::{AimedSearch, PositionLsstSearch};
use crate::query::Rows;
use crate::reply::Refusal;
use crate::search::{
    default_limit, get_objects, DesignationSearch, DesignationZtfSearch, NearObject,
    ObjectIdSearch, ObjectMini, SearchObjectsQuery, SearchPlan, SearchReply,
};
use crate::search_laws::given;
use crate::sky::{
    law_bounds_are_the_numbers, FULL_CIRCLE, NORTH_POLE, SOUTH_POLE, WIDEST_RADIUS, ZERO,
};
use crate::survey::Survey;
use crate::xmatch::{
    get_object_xmatches, get_objects_xmatches, BatchXmatch, BatchXmatchQuery, BatchXmatchResponse,
    XmatchLookup, XmatchResponse,
};
use mongodb::bson::Document;
use vstd::arithmetic::power2::pow2;
use vstd::prelude::*;

verus! {

/// Whether a request is refused as a bad one, with these words.
pub open spec fn is_bad<T>(r: Result<T, Refusal>, words: Seq<char>) -> bool {
    r is Err && r->Err_0 is BadRequest && r->Err_0->BadRequest_0@ == words
}

/// Whether a request fails, with these words.
pub open spec fn has_failed<T>(r: Result<T, Refusal>, words: Seq<char>) -> bool {
    r is Err && r->Err_0 is InternalError && r->Err_0->InternalError_0@ == words
}

/// Whether a number is a right ascension: from 0 to below 360.
pub open spec fn is_ra(x: Float64) -> bool {
    !no_number(x) && 0 <= x.units() < 720 * pow2(1073)
}

/// Whether a number is a declination: from -90 to 90.
pub open spec fn is_dec(x: Float64) -> bool {
    !no_number(x) && -180 * pow2(1073) <= x.units() <= 180 * pow2(1073)
}

/// Whether a number is a radius: above 0 and at most 600.
pub open spec fn is_radius(x: Float64) -> bool {
    !no_number(x) && 0 < x.units() <= 1200 * pow2(1073)
}

/// Of a query by somebody who is logged in, the first thing that is wrong is told: its limit, that
/// it gives more ways to search than one, that it gives none, that its position is not whole, and
/// then its right ascension, its declination and its radius.
pub proof fn law_a_query_is_told_what_is_wrong(
    query: SearchObjectsQuery,
    r: Result<SearchPlan, Refusal>,
)
    requires
        call_ensures(get_objects, (true, &query), r),
    ensures
        query.limit < 1 || query.limit > 100 ==> is_bad(r, "Limit must be between 1 and 100"@),
        1 <= query.limit <= 100 && given(query) > 1 ==> is_bad(
            r,
            "Provide only one of: object_id, designation, or ra/dec/radius"@,
        ),
        1 <= query.limit <= 100 && given(query) == 0 ==> is_bad(
            r,
            "Must provide one of: object_id, designation, ra/dec/radius"@,
        ),
        1 <= query.limit <= 100 && query.object_id is None && query.designation is None && given(
            query,
        ) == 1 ==> {
            let whole = query.ra is Some && query.dec is Some && query.radius is Some;
            let ra = query.ra->Some_0;
            let dec = query.dec->Some_0;
            let radius = query.radius->Some_0;
            &&& !whole ==> is_bad(
                r,
                "Must provide ra, dec, and radius together for position search"@,
            )
            &&& whole && !is_ra(ra) ==> is_bad(r, "ra must be in [0, 360)"@)
            &&& whole && is_ra(ra) && !is_dec(dec) ==> is_bad(r, "dec must be in [-90, 90]"@)
            &&& whole && is_ra(ra) && is_dec(dec) && !is_radius(radius) ==> is_bad(
                r,
                "radius must be greater than 0 and at most 600 arcseconds"@,
            )
            &&& whole && is_ra(ra) && is_dec(dec) && is_radius(radius) ==> r is Ok
        },
{
    law_bounds_are_the_numbers();
    if let (Some(ra), Some(dec), Some(radius)) = (query.ra, query.dec, query.radius) {
        lemma_bound(ra, ZERO, 0);
        lemma_bound(ra, FULL_CIRCLE, 720);
        lemma_bound(dec, SOUTH_POLE, -180);
        lemma_bound(dec, NORTH_POLE, 180);
        lemma_bound(radius, ZERO, 0);
        lemma_bound(radius, WIDEST_RADIUS, 1200);
    }
}

/// A query that leaves its limit to the default asks for ten objects, and is never refused for its
/// limit.
pub proof fn law_the_default_limit_is_accepted(
    limit: u32,
    query: SearchObjectsQuery,
    r: Result<SearchPlan, Refusal>,
)
    requires
        call_ensures(default_limit, (), limit),
        query.limit == limit,
        query.designation is Some,
        given(query) == 1,
        call_ensures(get_objects, (true, &query), r),
    ensures
        r is Ok,
        r->Ok_0 is Designation,
        r->Ok_0->Designation_0.limit == 10,
{
}

/// Of a cone search by somebody who is logged in, a bad radius is told first, then a bad count of
/// positions; and of a position that is none the right ascension before the declination, by its
/// name.
pub proof fn law_a_cone_search_is_told_what_is_wrong(
    survey: Survey,
    query: ObjectsConeSearchQuery,
    begun: Result<ConeSearch, Refusal>,
    search: ConeSearch,
    step: ConeStep,
)
    requires
        call_ensures(cone_search_objects, (true, survey, query), begun),
        call_ensures(ConeSearch::step, (search,), step),
    ensures
        !is_radius(query.radius_arcsec) ==> is_bad(
            begun,
            "radius_arcsec must be between 0 and 600"@,
        ),
        is_radius(query.radius_arcsec) && !(1 <= query.coordinates@.len() <= 1000) ==> is_bad(
            begun,
            "Must provide between 1 and 1000 coordinate pairs for cone search"@,
        ),
        search.waiting@.len() == 0 ==> step is Answer && step->Answer_0.message@
            == "Cone search completed"@,
        search.waiting@.len() > 0 && !is_a_place(search.waiting@[0]) ==> {
            let target = search.waiting@[0];
            &&& step is Refuse
            &&& step->Refuse_0 is BadRequest
            &&& step->Refuse_0->BadRequest_0@ == if is_ra(target.ra) {
                "Invalid Dec for object "@ + target.name@ + ": must be in [-90, 90]"@
            } else {
                "Invalid RA for object "@ + target.name@ + ": must be in [0, 360)"@
            }
        },
{
    law_bounds_are_the_numbers();
    lemma_bound(query.radius_arcsec, ZERO, 0);
    lemma_bound(query.radius_arcsec, WIDEST_RADIUS, 1200);
    if search.waiting@.len() > 0 {
        let target = search.waiting@[0];
        lemma_bound(target.ra, ZERO, 0);
        lemma_bound(target.ra, FULL_CIRCLE, 720);
        lemma_bound(target.dec, SOUTH_POLE, -180);
        lemma_bound(target.dec, NORTH_POLE, 180);
    }
}

/// A survey that has no objects to look up, or no catalogue matches, is named in the refusal, and
/// so is the count of objects that may be asked for at once.
pub proof fn law_a_lookup_is_told_what_is_wrong(
    survey: Survey,
    object_id: String,
    query: BatchXmatchQuery,
    lookup: Result<ObjectLookup, Refusal>,
    one: Result<XmatchLookup, Refusal>,
    many: Result<BatchXmatch, Refusal>,
)
    requires
        call_ensures(get_object, (true, survey, object_id), lookup),
        call_ensures(get_object_xmatches, (true, survey, object_id), one),
        call_ensures(get_objects_xmatches, (true, survey, query), many),
    ensures
        survey == Survey::Decam ==> {
            let words = "Unsupported survey: "@ + "DECAM"@ + ". Supported surveys are: ztf, lsst"@;
            &&& is_bad(lookup, "Invalid survey specified, only ZTF and LSST are supported"@)
            &&& is_bad(one, words)
            &&& is_bad(many, words)
        },
        survey != Survey::Decam ==> {
            &&& lookup is Ok
            &&& one is Ok
            &&& !(1 <= query.object_ids@.len() <= 1000) ==> is_bad(
                many,
                "Must provide between 1 and 1000 object IDs"@,
            )
        },
{
}

/// Where the database cannot be searched, it is told which search failed, and in the words of the
/// database why.
pub proof fn law_a_failed_search_is_told(
    error: String,
    by_lsst: DesignationSearch,
    r1: Result<DesignationZtfSearch, Refusal>,
    by_ztf: DesignationZtfSearch,
    r2: Result<SearchReply, Refusal>,
    by_id: ObjectIdSearch,
    rows: Rows<ObjectMini>,
    r3: Result<SearchReply, Refusal>,
    near_ztf: AimedSearch,
    r4: Result<PositionLsstSearch, Refusal>,
    near_lsst: PositionLsstSearch,
    r5: Result<SearchReply, Refusal>,
    cone: ConeQuestion,
    r6: Result<ConeSearch, Refusal>,
)
    requires
        call_ensures(
            DesignationSearch::lsst_found,
            (by_lsst, Rows::<ObjectMini>::NotOpened { error }),
            r1,
        ),
        call_ensures(
            DesignationZtfSearch::ztf_found,
            (by_ztf, Rows::<ObjectMini>::NotOpened { error }),
            r2,
        ),
        rows is NotOpened ==> rows->error == error,
        rows is Read ==> rows->failure == Some(error),
        call_ensures(ObjectIdSearch::found, (by_id, rows), r3),
        call_ensures(
            AimedSearch::ztf_found,
            (near_ztf, Rows::<NearObject>::NotOpened { error }),
            r4,
        ),
        call_ensures(
            PositionLsstSearch::lsst_found,
            (near_lsst, Rows::<NearObject>::NotOpened { error }),
            r5,
        ),
        call_ensures(ConeQuestion::found, (cone, Rows::<ObjectMini>::NotOpened { error }), r6),
    ensures
        has_failed(r1, "error searching LSST objects by designation: "@ + error@),
        has_failed(r2, "error searching ZTF objects by designation: "@ + error@),
        has_failed(r3, "error searching objects: "@ + error@),
        has_failed(r4, "error searching ZTF objects: "@ + error@),
        has_failed(r5, "error searching LSST objects: "@ + error@),
        has_failed(
            r6,
            "error performing cone search for "@ + cone.target.name@ + ": "@ + error@,
        ),
{
}

/// Where a lookup in ZTF fails at one of its steps, it is told which, and in the words of the
/// database why.
pub proof fn law_a_failed_lookup_of_ztf_is_told<D: Clone>(
    error: String,
    lookup: ZtfLookup,
    r1: Result<ZtfAuxLookup<D>, Refusal>,
    read: Vec<ZtfAlert<D>>,
    r2: Result<ZtfAuxLookup<D>, Refusal>,
    aux: ZtfAuxLookup<D>,
    r3: Result<ZtfNearestLookup<D>, Refusal>,
    nearest: ZtfNearestLookup<D>,
    r4: Result<ObjectReply<ZtfObj<D>>, Refusal>,
)
    requires
        call_ensures(
            ZtfLookup::alerts_found::<D>,
            (lookup, Rows::<ZtfAlert<D>>::NotOpened { error }),
            r1,
        ),
        call_ensures(
            ZtfLookup::alerts_found::<D>,
            (lookup, Rows::Read { rows: read, failure: Some(error) }),
            r2,
        ),
        call_ensures(
            ZtfAuxLookup::<D>::aux_found,
            (aux, Err::<Option<ZtfObject<D>>, String>(error)),
            r3,
        ),
        call_ensures(
            ZtfNearestLookup::<D>::nearest_found,
            (nearest, Err::<Option<Counterpart<LsstObject<D>>>, String>(error)),
            r4,
        ),
    ensures
        has_failed(
            r1,
            "error retrieving latest alert for object "@ + lookup.object_id@ + ": "@ + error@,
        ),
        has_failed(r2, "error getting documents: "@ + error@),
        has_failed(r3, "error getting documents: "@ + error@),
        has_failed(r4, "error getting nearest lsst object: "@ + error@),
{
}

/// Where a lookup in LSST fails at one of its steps, it is told which, and in the words of the
/// database why.
pub proof fn law_a_failed_lookup_of_lsst_is_told<D>(
    error: String,
    lookup: LsstLookup,
    r1: Result<LsstAuxLookup<D>, Refusal>,
    none: Vec<LsstAlert<D>>,
    r2: Result<LsstAuxLookup<D>, Refusal>,
    aux: LsstAuxLookup<D>,
    r3: Result<LsstNearestLookup<D>, Refusal>,
    nearest: LsstNearestLookup<D>,
    r4: Result<ObjectReply<LsstObj<D>>, Refusal>,
)
    requires
        call_ensures(
            LsstLookup::alerts_found::<D>,
            (lookup, Rows::<LsstAlert<D>>::NotOpened { error }),
            r1,
        ),
        none@.len() == 0,
        call_ensures(
            LsstLookup::alerts_found::<D>,
            (lookup, Rows::Read { rows: none, failure: Some(error) }),
            r2,
        ),
        call_ensures(
            LsstAuxLookup::<D>::aux_found,
            (aux, Err::<Option<LsstObject<D>>, String>(error)),
            r3,
        ),
        call_ensures(
            LsstNearestLookup::<D>::nearest_found,
            (nearest, Err::<Option<Counterpart<ZtfObject<D>>>, String>(error)),
            r4,
        ),
    ensures
        has_failed(
            r1,
            "error retrieving latest alert for object "@ + lookup.object_id@ + ": "@ + error@,
        ),
        has_failed(r2, "error getting documents: "@ + error@),
        has_failed(r3, "error getting documents: "@ + error@),
        has_failed(r4, "error getting nearest ztf object: "@ + error@),
{
}

/// Where the catalogue matches cannot be looked up, it is told in the words of the database why.
pub proof fn law_a_failed_lookup_of_matches_is_told(
    error: String,
    one: XmatchLookup,
    r1: Result<XmatchResponse, Refusal>,
    many: BatchXmatch,
    r2: Result<BatchXmatchResponse, Refusal>,
)
    requires
        call_ensures(XmatchLookup::found, (one, Err::<Option<Document>, String>(error)), r1),
        call_ensures(BatchXmatch::found, (many, Rows::<Document>::NotOpened { error }), r2),
    ensures
        has_failed(r1, "error getting documents: "@ + error@),
        has_failed(r2, "error querying database: "@ + error@),
{
}

/// A worker that does not start says why: the matching is not configured at all, or not with the
/// catalogue of point sources, or the catalogue is not there.
pub proof fn law_a_worker_says_why_it_does_not_start(
    config: EnrichmentConfig,
    start: Result<WorkerStart, EnrichmentWorkerError>,
    pending: PendingWorker,
    collections: Vec<String>,
    worker: Result<LsstEnrichmentWorker, EnrichmentWorkerError>,
)
    requires
        call_ensures(LsstEnrichmentWorker::new, (&config,), start),
        call_ensures(PendingWorker::catalogs_listed, (pending, &collections), worker),
    ensures
        start is Err ==> start->Err_0->ConfigurationError_0@ == if config.lsst_crossmatch is None {
            "Babamul is enabled but no LSST cross-match configuration is present"@
        } else {
            "Babamul is enabled but LSPSC cross-match is not configured for LSST alerts"@
        },
        worker is Err ==> worker->Err_0->ConfigurationError_0@
            == "Babamul is enabled but the LSPSC catalog does not exist in the database"@,
{
}

} // verus!
