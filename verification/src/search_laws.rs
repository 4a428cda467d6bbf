//! What searches answer: laws on what their steps return.

use crate::document::document_fields;
use crate::ieee::law_order_is_numeric;
use crate::number_laws::{
    lemma_bound, lemma_no_leading_zero, lemma_no_number, no_number, writes,
};
use crate::object_id::inferred;
use crate::position_search::{
    distance_key, distance_keys, law_the_nearest_are_shown, nearest_first, AimedSearch,
    PositionLsstSearch,
};
use crate::query::Rows;
use crate::ranking::{all_numbers, arranged, comes_before, is_ranking};
use crate::reply::{Refusal, RefusalView};
use crate::search::{
    at_most, found_message, get_objects, near_results, plain_results,
    result_views, search_plan, DesignationSearch, DesignationZtfSearch, NearObject,
    ObjectIdSearch, ObjectMini,
    SearchObjectResult, SearchObjectsQuery, SearchPlan, SearchPlanView, SearchReply,
};
use crate::sky::{
    law_bounds_are_the_numbers, FULL_CIRCLE, NORTH_POLE, SOUTH_POLE, WIDEST_RADIUS, ZERO,
};
use crate::survey::Survey;
use crate::text::{decimal_digits, law_decimal_writes_the_number};
use vstd::arithmetic::power2::pow2;
use vstd::prelude::*;

verus! {

/// Whether a result shows an object of a survey where it is.
pub open spec fn shows(result: SearchObjectResult, object: ObjectMini, survey: Survey) -> bool {
    &&& result.object_id@ == object.object_id@
    &&& result.survey == survey
    &&& result.ra == object.ra
    &&& result.dec == object.dec
}

/// Whether results show objects of a survey one by one, without distances.
pub open spec fn show_all(
    results: Seq<SearchObjectResult>,
    objects: Seq<ObjectMini>,
    survey: Survey,
) -> bool {
    &&& results.len() == objects.len()
    &&& forall|i: int|
        0 <= i < results.len() ==> shows(#[trigger] results[i], objects[i], survey)
            && results[i].distance_arcsec is None
}

/// Whether results show objects of a survey one by one, with their distances.
pub open spec fn show_near(
    results: Seq<SearchObjectResult>,
    objects: Seq<NearObject>,
    survey: Survey,
) -> bool {
    &&& results.len() == objects.len()
    &&& forall|i: int|
        0 <= i < results.len() ==> shows(#[trigger] results[i], objects[i].object, survey)
            && results[i].distance_arcsec == Some(objects[i].distance_arcsec)
}

pub(crate) proof fn lemma_plain(
    results: Seq<SearchObjectResult>,
    objects: Seq<ObjectMini>,
    survey: Survey,
)
    requires
        result_views(results) == plain_results(objects, survey),
    ensures
        show_all(results, objects, survey),
{
    assert(result_views(results).len() == results.len());
    assert forall|i: int| 0 <= i < results.len() implies shows(
        #[trigger] results[i],
        objects[i],
        survey,
    ) && results[i].distance_arcsec is None by {
        assert(result_views(results)[i] == results[i]@);
        assert(plain_results(objects, survey)[i] == result_views(results)[i]);
    }
}

proof fn lemma_near(results: Seq<SearchObjectResult>, objects: Seq<NearObject>, survey: Survey)
    requires
        result_views(results) == near_results(objects, survey),
    ensures
        show_near(results, objects, survey),
{
    assert(result_views(results).len() == results.len());
    assert forall|i: int| 0 <= i < results.len() implies shows(
        #[trigger] results[i],
        objects[i].object,
        survey,
    ) && results[i].distance_arcsec == Some(objects[i].distance_arcsec) by {
        assert(result_views(results)[i] == results[i]@);
        assert(near_results(objects, survey)[i] == result_views(results)[i]);
    }
}

/// Whether a message says how many results there are.
pub open spec fn tells_the_count(reply: SearchReply) -> bool {
    exists|digits: Seq<char>| #[trigger]
        writes(digits, reply.results@.len() as int) && reply.message@ == "Found "@ + digits
            + " objects"@
}

proof fn lemma_message(reply: SearchReply)
    requires
        reply.message@ == found_message(reply.results@.len() as int),
    ensures
        tells_the_count(reply),
{
    let n = reply.results@.len() as int;
    law_decimal_writes_the_number(n);
    lemma_no_leading_zero(n as nat);
    assert(writes(decimal_digits(n as nat), n));
}

/// What LSST finds by a designation is listed as it is, and the search goes on with the same
/// designation and limit.
pub proof fn law_lsst_results_are_kept(
    search: DesignationSearch,
    rows: Rows<ObjectMini>,
    r: Result<DesignationZtfSearch, Refusal>,
)
    requires
        call_ensures(DesignationSearch::lsst_found, (search, rows), r),
    ensures
        r is Ok <==> rows is Read,
        r is Err ==> r->Err_0 is InternalError,
        r is Ok ==> {
            &&& r->Ok_0.designation@ == search.designation@
            &&& r->Ok_0.limit == search.limit
            &&& show_all(r->Ok_0.lsst_results@, rows->rows@, Survey::Lsst)
        },
{
    if let Rows::Read { rows, .. } = rows {
        lemma_plain(r->Ok_0.lsst_results@, rows@, Survey::Lsst);
    }
}

/// Whether two results say the same.
pub open spec fn same_result(a: SearchObjectResult, b: SearchObjectResult) -> bool {
    &&& a.object_id@ == b.object_id@
    &&& a.survey == b.survey
    &&& a.ra == b.ra
    &&& a.dec == b.dec
    &&& a.distance_arcsec == b.distance_arcsec
}

/// A search by designation answers with the results of LSST, then with the objects of ZTF, and
/// breaks off at the limit.
pub proof fn law_a_designation_is_answered_from_both_surveys(
    search: DesignationZtfSearch,
    rows: Rows<ObjectMini>,
    r: Result<SearchReply, Refusal>,
)
    requires
        call_ensures(DesignationZtfSearch::ztf_found, (search, rows), r),
    ensures
        r is Ok <==> rows is Read,
        r is Err ==> r->Err_0 is InternalError,
        r is Ok ==> {
            let shown = r->Ok_0.results@;
            let first = search.lsst_results@.len() as int;
            let all = first + rows->rows@.len();
            &&& shown.len() == (if all <= search.limit { all } else { search.limit as int })
            &&& forall|i: int|
                0 <= i < shown.len() && i < first ==> same_result(
                    #[trigger] shown[i],
                    search.lsst_results@[i],
                )
            &&& forall|i: int|
                first <= i < shown.len() ==> shows(
                    #[trigger] shown[i],
                    rows->rows@[i - first],
                    Survey::Ztf,
                ) && shown[i].distance_arcsec is None
            &&& tells_the_count(r->Ok_0)
        },
{
    if let Rows::Read { rows, .. } = rows {
        let shown = r->Ok_0.results@;
        let lsst = result_views(search.lsst_results@);
        let ztf = plain_results(rows@, Survey::Ztf);
        let views = result_views(shown);
        assert(views == at_most(lsst + ztf, search.limit));
        assert(views.len() == shown.len());
        assert forall|i: int| 0 <= i < shown.len() implies (#[trigger] shown[i])@ == (lsst
            + ztf)[i] by {
            assert(views[i] == shown[i]@);
        }
        let first = search.lsst_results@.len() as int;
        assert forall|i: int| 0 <= i < shown.len() && i < first implies same_result(
            #[trigger] shown[i],
            search.lsst_results@[i],
        ) by {
            assert((lsst + ztf)[i] == search.lsst_results@[i]@);
        }
        assert forall|i: int| first <= i < shown.len() implies shows(
            #[trigger] shown[i],
            rows@[i - first],
            Survey::Ztf,
        ) && shown[i].distance_arcsec is None by {
            assert((lsst + ztf)[i] == ztf[i - first]);
        }
        lemma_message(r->Ok_0);
    }
}

/// A search by a beginning answers with the objects that were found, all of them and in their
/// order; any failure is reported.
pub proof fn law_a_beginning_is_answered_with_what_was_found(
    search: ObjectIdSearch,
    rows: Rows<ObjectMini>,
    r: Result<SearchReply, Refusal>,
)
    requires
        call_ensures(ObjectIdSearch::found, (search, rows), r),
    ensures
        r is Ok <==> rows is Read && rows->failure is None,
        r is Err ==> r->Err_0 is InternalError,
        r is Ok ==> show_all(r->Ok_0.results@, rows->rows@, search.survey) && tells_the_count(
            r->Ok_0,
        ),
{
    if let Rows::Read { rows, failure: None } = rows {
        lemma_plain(r->Ok_0.results@, rows@, search.survey);
        lemma_message(r->Ok_0);
    }
}

/// What ZTF finds around a position is listed as it is, and the search goes on with the same
/// condition and limit.
pub proof fn law_ztf_results_are_kept(
    search: AimedSearch,
    rows: Rows<NearObject>,
    r: Result<PositionLsstSearch, Refusal>,
)
    requires
        call_ensures(AimedSearch::ztf_found, (search, rows), r),
    ensures
        r is Ok <==> rows is Read,
        r is Err ==> r->Err_0 is InternalError,
        r is Ok ==> {
            &&& document_fields(r->Ok_0.near)
                == document_fields(search.near)
            &&& r->Ok_0.limit == search.limit
            &&& show_near(r->Ok_0.ztf_results@, rows->rows@, Survey::Ztf)
        },
{
    if let Rows::Read { rows, .. } = rows {
        lemma_near(r->Ok_0.ztf_results@, rows@, Survey::Ztf);
    }
}

/// Whether a result is one that ZTF gave, or shows an object that LSST found.
pub open spec fn was_found(
    result: SearchObjectResult,
    search: PositionLsstSearch,
    lsst: Seq<NearObject>,
) -> bool {
    (exists|k: int|
        0 <= k < search.ztf_results@.len() && same_result(
            result,
            #[trigger] search.ztf_results@[k],
        )) || (exists|k: int|
        0 <= k < lsst.len() && shows(result, (#[trigger] lsst[k]).object, Survey::Lsst)
            && result.distance_arcsec == Some(lsst[k].distance_arcsec))
}

/// Whether every distance is known and a number.
pub open spec fn distances_are_numbers(
    search: PositionLsstSearch,
    lsst: Seq<NearObject>,
) -> bool {
    &&& forall|k: int|
        0 <= k < search.ztf_results@.len() ==> (
        #[trigger] search.ztf_results@[k]).distance_arcsec is Some && !no_number(
            search.ztf_results@[k].distance_arcsec->Some_0,
        )
    &&& forall|k: int|
        0 <= k < lsst.len() ==> !no_number((#[trigger] lsst[k]).distance_arcsec)
}

/// A search around a position answers with results that were found, as many as there are up to the
/// limit, the nearest first, and leaves out none that is nearer than one that it shows.
pub proof fn law_a_position_is_answered_with_the_nearest(
    search: PositionLsstSearch,
    rows: Rows<NearObject>,
    r: Result<SearchReply, Refusal>,
)
    requires
        call_ensures(PositionLsstSearch::lsst_found, (search, rows), r),
    ensures
        r is Ok <==> rows is Read,
        r is Err ==> r->Err_0 is InternalError,
        r is Ok ==> {
            let shown = r->Ok_0.results@;
            let all = search.ztf_results@.len() + rows->rows@.len();
            &&& shown.len() == (if all <= search.limit { all as int } else { search.limit as int })
            &&& forall|i: int|
                0 <= i < shown.len() ==> was_found(#[trigger] shown[i], search, rows->rows@)
            &&& tells_the_count(r->Ok_0)
            &&& distances_are_numbers(search, rows->rows@) ==> {
                &&& forall|i: int, j: int|
                    0 <= i < j < shown.len() ==> (
                    #[trigger] shown[i]).distance_arcsec->Some_0.units() <= (
                    #[trigger] shown[j]).distance_arcsec->Some_0.units()
            }
        },
{
    if let Rows::Read { rows, .. } = rows {
        let shown = r->Ok_0.results@;
        let views = result_views(shown);
        let ztf = result_views(search.ztf_results@);
        let lsst = near_results(rows@, Survey::Lsst);
        let found = ztf + lsst;
        let order = law_the_nearest_are_shown(views, found, search.limit);
        assert(views.len() == shown.len());
        assert forall|i: int| 0 <= i < shown.len() implies was_found(
            #[trigger] shown[i],
            search,
            rows@,
        ) by {
            assert(views[i] == shown[i]@);
            assert(arranged(found, order).take(views.len() as int)[i] == found[order[i]]);
            let k = order[i];
            if k < ztf.len() {
                assert(found[k] == search.ztf_results@[k]@);
                assert(same_result(shown[i], search.ztf_results@[k]));
            } else {
                let m = k - ztf.len();
                assert(found[k] == lsst[m]);
                assert(shows(shown[i], rows@[m].object, Survey::Lsst));
            }
        }
        lemma_message(r->Ok_0);
        if distances_are_numbers(search, rows@) {
            assert forall|k: int| 0 <= k < found.len() implies !(#[trigger] distance_keys(
                found,
            )[k]).is_nan() && found[k].distance_arcsec is Some by {
                if k < ztf.len() {
                    assert(found[k] == search.ztf_results@[k]@);
                    lemma_no_number(
                        search.ztf_results@[k].distance_arcsec->Some_0,
                    );
                } else {
                    assert(found[k] == lsst[k - ztf.len()]);
                    lemma_no_number(rows@[k - ztf.len()].distance_arcsec);
                }
            }
            assert(all_numbers(distance_keys(found)));
            assert forall|i: int, j: int| 0 <= i < j < shown.len() implies (
            #[trigger] shown[i]).distance_arcsec->Some_0.units() <= (
            #[trigger] shown[j]).distance_arcsec->Some_0.units() by {
                assert(views[i] == shown[i]@ && views[j] == shown[j]@);
                assert(distance_key(views[i]).le(distance_key(views[j])));
                let taken = arranged(found, order).take(views.len() as int);
                assert(taken[i] == found[order[i]] && taken[j] == found[order[j]]);
                assert(!distance_keys(found)[order[i]].is_nan());
                assert(!distance_keys(found)[order[j]].is_nan());
                law_order_is_numeric(
                    distance_key(views[i]),
                    distance_key(views[j]),
                );
            }
        }
    }
}

/// Whether a result is that at a place: of what ZTF gave, or, counted on from there, of what LSST
/// found.
pub open spec fn stands_at(
    result: SearchObjectResult,
    search: PositionLsstSearch,
    lsst: Seq<NearObject>,
    place: int,
) -> bool {
    let first = search.ztf_results@.len() as int;
    if place < first {
        same_result(result, search.ztf_results@[place])
    } else {
        &&& shows(result, lsst[place - first].object, Survey::Lsst)
        &&& result.distance_arcsec == Some(lsst[place - first].distance_arcsec)
    }
}

/// No result of a search around a position is shown twice, and results at equal distances are shown
/// in the order in which they were found.
pub proof fn law_each_result_is_shown_once(
    search: PositionLsstSearch,
    rows: Vec<NearObject>,
    failure: Option<String>,
    reply: SearchReply,
) -> (places: Seq<int>)
    requires
        call_ensures(
            PositionLsstSearch::lsst_found,
            (search, Rows::Read { rows, failure }),
            Ok::<SearchReply, Refusal>(reply),
        ),
    ensures
        places.len() >= reply.results@.len(),
        forall|i: int|
            0 <= i < reply.results@.len() ==> {
                &&& 0 <= #[trigger] places[i] < search.ztf_results@.len() + rows@.len()
                &&& stands_at(reply.results@[i], search, rows@, places[i])
            },
        forall|i: int, j: int|
            0 <= i < j < reply.results@.len() ==> #[trigger] places[i] != #[trigger] places[j],
        distances_are_numbers(search, rows@) ==> forall|i: int, j: int|
            0 <= i < j < reply.results@.len() && (
            reply.results@[i]).distance_arcsec->Some_0.units() == (
            reply.results@[j]).distance_arcsec->Some_0.units() ==> #[trigger] places[i]
                < #[trigger] places[j],
{
    let shown = reply.results@;
    let views = result_views(shown);
    let ztf = result_views(search.ztf_results@);
    let lsst = near_results(rows@, Survey::Lsst);
    let found = ztf + lsst;
    let keys = distance_keys(found);
    assert(nearest_first(views, found, search.limit));
    let order = choose|order: Seq<int>| #[trigger]
        is_ranking(order, keys) && views == at_most(arranged(found, order), search.limit);
    assert(views.len() == shown.len());
    assert forall|i: int| 0 <= i < shown.len() implies {
        &&& 0 <= #[trigger] order[i] < found.len()
        &&& stands_at(shown[i], search, rows@, order[i])
        &&& shown[i].distance_arcsec == found[order[i]].distance_arcsec
    } by {
        assert(views[i] == shown[i]@);
        assert(views[i] == found[order[i]]);
        if order[i] < ztf.len() {
            assert(found[order[i]] == search.ztf_results@[order[i]]@);
        } else {
            assert(found[order[i]] == lsst[order[i] - ztf.len()]);
        }
    }
    if distances_are_numbers(search, rows@) {
        assert forall|k: int| 0 <= k < found.len() implies !(#[trigger] keys[k]).is_nan()
            && found[k].distance_arcsec is Some by {
            if k < ztf.len() {
                assert(found[k] == search.ztf_results@[k]@);
                lemma_no_number(search.ztf_results@[k].distance_arcsec->Some_0);
            } else {
                assert(found[k] == lsst[k - ztf.len()]);
                lemma_no_number(rows@[k - ztf.len()].distance_arcsec);
            }
        }
        assert(all_numbers(keys));
        assert forall|i: int, j: int|
            0 <= i < j < shown.len() && shown[i].distance_arcsec->Some_0.units()
                == shown[j].distance_arcsec->Some_0.units() implies #[trigger] order[i]
            < #[trigger] order[j] by {
            assert(comes_before(keys, order[i], order[j]));
            assert(!keys[order[i]].is_nan() && !keys[order[j]].is_nan());
            assert(found[order[i]].distance_arcsec == Some(keys[order[i]]));
            assert(found[order[j]].distance_arcsec == Some(keys[order[j]]));
            law_order_is_numeric(keys[order[i]], keys[order[j]]);
            law_order_is_numeric(keys[order[j]], keys[order[i]]);
        }
    }
    order
}

/// An object that LSST found and that is not shown is not nearer than any that is; neither is a
/// result that ZTF gave.
pub proof fn law_nothing_nearer_is_left_out(
    search: PositionLsstSearch,
    rows: Vec<NearObject>,
    failure: Option<String>,
    reply: SearchReply,
    k: int,
    i: int,
)
    requires
        call_ensures(
            PositionLsstSearch::lsst_found,
            (search, Rows::Read { rows, failure }),
            Ok::<SearchReply, Refusal>(reply),
        ),
        distances_are_numbers(search, rows@),
        0 <= i < reply.results@.len(),
    ensures
        0 <= k < rows@.len() ==> (exists|m: int|
            0 <= m < reply.results@.len() && shows(
                #[trigger] reply.results@[m],
                rows@[k].object,
                Survey::Lsst,
            )) || reply.results@[i].distance_arcsec->Some_0.units()
            <= rows@[k].distance_arcsec.units(),
        0 <= k < search.ztf_results@.len() ==> (exists|m: int|
            0 <= m < reply.results@.len() && same_result(
                #[trigger] reply.results@[m],
                search.ztf_results@[k],
            )) || reply.results@[i].distance_arcsec->Some_0.units()
            <= search.ztf_results@[k].distance_arcsec->Some_0.units(),
{
    let shown = reply.results@;
    let views = result_views(shown);
    let ztf = result_views(search.ztf_results@);
    let lsst = near_results(rows@, Survey::Lsst);
    let found = ztf + lsst;
    let order = law_the_nearest_are_shown(views, found, search.limit);
    assert(views.len() == shown.len());
    assert forall|k: int| 0 <= k < found.len() implies !(#[trigger] distance_keys(
        found,
    )[k]).is_nan() && found[k].distance_arcsec is Some by {
        if k < ztf.len() {
            assert(found[k] == search.ztf_results@[k]@);
            lemma_no_number(search.ztf_results@[k].distance_arcsec->Some_0);
        } else {
            assert(found[k] == lsst[k - ztf.len()]);
            lemma_no_number(rows@[k - ztf.len()].distance_arcsec);
        }
    }
    assert(all_numbers(distance_keys(found)));
    let taken = arranged(found, order).take(views.len() as int);
    assert(taken[i] == found[order[i]]);
    assert(views[i] == shown[i]@);
    assert(!distance_keys(found)[order[i]].is_nan());
    if 0 <= k < rows@.len() {
        let place = ztf.len() + k;
        assert(order.contains(place));
        let m = choose|m: int| 0 <= m < order.len() && order[m] == place;
        assert(found[place] == lsst[k]);
        if m < shown.len() {
            assert(taken[m] == found[order[m]]);
            assert(views[m] == shown[m]@);
            assert(shows(shown[m], rows@[k].object, Survey::Lsst));
        } else {
            assert(distance_key(found[order[i]]).le(distance_key(found[order[m]])));
            assert(!distance_keys(found)[order[m]].is_nan());
            law_order_is_numeric(
                distance_key(found[order[i]]),
                distance_key(found[order[m]]),
            );
        }
    }
    if 0 <= k < search.ztf_results@.len() {
        assert(order.contains(k));
        let m = choose|m: int| 0 <= m < order.len() && order[m] == k;
        assert(found[k] == search.ztf_results@[k]@);
        if m < shown.len() {
            assert(taken[m] == found[order[m]]);
            assert(views[m] == shown[m]@);
            assert(same_result(shown[m], search.ztf_results@[k]));
        } else {
            assert(distance_key(found[order[i]]).le(distance_key(found[order[m]])));
            assert(!distance_keys(found)[order[m]].is_nan());
            law_order_is_numeric(
                distance_key(found[order[i]]),
                distance_key(found[order[m]]),
            );
        }
    }
}

/// How many of an identifier, a designation and some part of a position a query gives.
pub open spec fn given(query: SearchObjectsQuery) -> int {
    (if query.object_id is Some { 1int } else { 0 }) + (if query.designation is Some {
        1int
    } else {
        0
    }) + (if query.ra is Some || query.dec is Some || query.radius is Some { 1int } else { 0 })
}

/// Whether a query gives a whole position, within its bounds.
pub open spec fn gives_a_position(query: SearchObjectsQuery) -> bool {
    &&& query.ra is Some && query.dec is Some && query.radius is Some
    &&& !no_number(query.ra->Some_0)
    &&& 0 <= query.ra->Some_0.units() < 720 * pow2(1073)
    &&& !no_number(query.dec->Some_0)
    &&& -180 * pow2(1073) <= query.dec->Some_0.units() <= 180 * pow2(1073)
    &&& !no_number(query.radius->Some_0)
    &&& 0 < query.radius->Some_0.units() <= 1200 * pow2(1073)
}

/// A query is answered only for somebody who is logged in, for a limit from 1 to 100, and where it
/// gives one way to search; any other is refused, without a login as unauthorized and else as a bad
/// request. The search that is made is the one that is given, with all that the query says of it.
pub proof fn law_the_search_that_is_given_is_made(
    authenticated: bool,
    query: SearchObjectsQuery,
    r: Result<SearchPlan, Refusal>,
)
    requires
        call_ensures(get_objects, (authenticated, &query), r),
    ensures
        !authenticated ==> r is Err && r->Err_0 is Unauthorized,
        authenticated && r is Err ==> r->Err_0 is BadRequest,
        r is Ok ==> authenticated && 1 <= query.limit <= 100 && given(query) == 1,
        authenticated && 1 <= query.limit <= 100 && given(query) == 1 && query.designation is Some
            ==> {
            &&& r is Ok && r->Ok_0 is Designation
            &&& r->Ok_0->Designation_0.designation@ == query.designation->Some_0@
            &&& r->Ok_0->Designation_0.limit == query.limit
        },
        authenticated && 1 <= query.limit <= 100 && given(query) == 1 && query.object_id is None
            && query.designation is None ==> {
            &&& r is Ok <==> gives_a_position(query)
            &&& r is Ok ==> {
                &&& r->Ok_0 is Position
                &&& Some(r->Ok_0->Position_0.ra) == query.ra
                &&& Some(r->Ok_0->Position_0.dec) == query.dec
                &&& Some(r->Ok_0->Position_0.radius) == query.radius
                &&& r->Ok_0->Position_0.limit == query.limit
            }
        },
        authenticated && 1 <= query.limit <= 100 && given(query) == 1 && query.object_id is Some
            ==> {
            let expected = inferred(query.object_id->Some_0@);
            &&& r is Ok <==> expected is Ok
            &&& r is Ok ==> {
                &&& r->Ok_0 is ObjectId
                &&& r->Ok_0->ObjectId_0.survey == expected->Ok_0.0
                &&& r->Ok_0->ObjectId_0.beginning@ == expected->Ok_0.1
                &&& r->Ok_0->ObjectId_0.limit == query.limit
            }
        },
{
    law_bounds_are_the_numbers();
    if let Some(ra) = query.ra {
        lemma_bound(ra, ZERO, 0);
        lemma_bound(ra, FULL_CIRCLE, 720);
    }
    if let Some(dec) = query.dec {
        lemma_bound(dec, SOUTH_POLE, -180);
        lemma_bound(dec, NORTH_POLE, 180);
    }
    if let Some(radius) = query.radius {
        lemma_bound(radius, ZERO, 0);
        lemma_bound(radius, WIDEST_RADIUS, 1200);
    }
    let view = query@;
    assert(view.object_id is Some == query.object_id is Some);
    assert(view.designation is Some == query.designation is Some);
    if let Ok(plan) = r {
        assert(search_plan(authenticated, view) == Ok::<
            SearchPlanView,
            RefusalView,
        >(plan@));
    }
}

} // verus!
