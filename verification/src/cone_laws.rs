//! What a cone search answers: laws on what its steps return.

use crate::cone_search::{
    cone_search_objects, entry_views, ConeMatches, ConeQuestion, ConeSearch, ConeStep, ConeTarget,
    ObjectsConeSearchQuery,
};
use crate::number_laws::{lemma_bound, no_number};
use crate::query::Rows;
use crate::reply::Refusal;
use crate::search::{result_views, ObjectMini};
use crate::search_laws::{lemma_plain, same_result, show_all};
use crate::sky::{
    law_bounds_are_the_numbers, FULL_CIRCLE, NORTH_POLE, SOUTH_POLE, WIDEST_RADIUS, ZERO,
};
use crate::survey::Survey;
use vstd::arithmetic::power2::pow2;
use vstd::prelude::*;

verus! {

/// Whether a position lies within its bounds.
pub open spec fn is_a_place(target: ConeTarget) -> bool {
    &&& !no_number(target.ra) && 0 <= target.ra.units() < 720 * pow2(1073)
    &&& !no_number(target.dec) && -180 * pow2(1073) <= target.dec.units() <= 180 * pow2(1073)
}

/// A cone search begins for somebody who is logged in, with a radius above 0 and of at most 600
/// arcseconds, around one to a thousand positions: all of those that are given, with nothing found.
pub proof fn law_a_cone_search_begins_with_its_positions(
    authenticated: bool,
    survey: Survey,
    query: ObjectsConeSearchQuery,
    r: Result<ConeSearch, Refusal>,
)
    requires
        call_ensures(cone_search_objects, (authenticated, survey, query), r),
    ensures
        r is Ok <==> {
            &&& authenticated
            &&& !no_number(query.radius_arcsec)
            &&& 0 < query.radius_arcsec.units() <= 1200 * pow2(1073)
            &&& 1 <= query.coordinates@.len() <= 1000
        },
        !authenticated ==> r is Err && r->Err_0 is Unauthorized,
        authenticated && r is Err ==> r->Err_0 is BadRequest,
        r is Ok ==> {
            &&& r->Ok_0.survey == survey
            &&& r->Ok_0.waiting@ == query.coordinates@
            &&& r->Ok_0.found@.len() == 0
        },
{
    law_bounds_are_the_numbers();
    lemma_bound(query.radius_arcsec, ZERO, 0);
    lemma_bound(query.radius_arcsec, WIDEST_RADIUS, 1200);
}

/// A cone search asks about the first position that is waiting, if that is a place, and refuses
/// otherwise; when none is waiting it answers with what was found.
pub proof fn law_a_cone_search_takes_the_first_position(search: ConeSearch, r: ConeStep)
    requires
        call_ensures(ConeSearch::step, (search,), r),
    ensures
        search.waiting@.len() == 0 ==> r is Answer && r->Answer_0.results == search.found,
        search.waiting@.len() > 0 && is_a_place(search.waiting@[0]) ==> {
            &&& r is Ask
            &&& r->Ask_0.survey == search.survey
            &&& r->Ask_0.target == search.waiting@[0]
            &&& r->Ask_0.waiting@ == search.waiting@.skip(1)
            &&& r->Ask_0.found == search.found
        },
        search.waiting@.len() > 0 && !is_a_place(search.waiting@[0]) ==> r is Refuse
            && r->Refuse_0 is BadRequest,
{
    if search.waiting@.len() > 0 {
        let target = search.waiting@[0];
        law_bounds_are_the_numbers();
        lemma_bound(target.ra, ZERO, 0);
        lemma_bound(target.ra, FULL_CIRCLE, 720);
        lemma_bound(target.dec, SOUTH_POLE, -180);
        lemma_bound(target.dec, NORTH_POLE, 180);
        assert(search.waiting@.skip(1) =~= search.waiting@.drop_first());
    }
}

/// Whether two entries say the same.
pub open spec fn same_entry(a: ConeMatches, b: ConeMatches) -> bool {
    &&& a.name@ == b.name@
    &&& a.matches@.len() == b.matches@.len()
    &&& forall|i: int|
        0 <= i < a.matches@.len() ==> same_result(#[trigger] a.matches@[i], b.matches@[i])
}

/// What is found around a position is put behind what was found before, under the name of the
/// position: each object with its own place, of the survey that was asked.
pub proof fn law_what_is_found_goes_under_its_name(
    question: ConeQuestion,
    rows: Rows<ObjectMini>,
    r: Result<ConeSearch, Refusal>,
)
    requires
        call_ensures(ConeQuestion::found, (question, rows), r),
    ensures
        r is Ok <==> rows is Read,
        r is Err ==> r->Err_0 is InternalError,
        r is Ok ==> {
            let n = question.found@.len() as int;
            &&& r->Ok_0.survey == question.survey
            &&& r->Ok_0.waiting == question.waiting
            &&& r->Ok_0.found@.len() == n + 1
            &&& forall|i: int|
                0 <= i < n ==> same_entry(#[trigger] r->Ok_0.found@[i], question.found@[i])
            &&& r->Ok_0.found@[n].name@ == question.target.name@
            &&& show_all(r->Ok_0.found@[n].matches@, rows->rows@, question.survey)
        },
{
    if let Rows::Read { rows, .. } = rows {
        let found = r->Ok_0.found@;
        let views = entry_views(found);
        let before = entry_views(question.found@);
        let n = question.found@.len() as int;
        assert(views.len() == found.len() && before.len() == n);
        assert forall|i: int| 0 <= i < n implies same_entry(
            #[trigger] found[i],
            question.found@[i],
        ) by {
            assert(views[i] == found[i]@ && before[i] == question.found@[i]@);
            assert(views[i] == before[i]);
            let a = found[i].matches@;
            let b = question.found@[i].matches@;
            assert(result_views(a) == result_views(b));
            assert(result_views(a).len() == a.len() && result_views(b).len() == b.len());
            assert forall|k: int| 0 <= k < a.len() implies same_result(#[trigger] a[k], b[k]) by {
                assert(result_views(a)[k] == a[k]@ && result_views(b)[k] == b[k]@);
            }
        }
        assert(views[n] == found[n]@);
        lemma_plain(found[n].matches@, rows@, question.survey);
    }
}

} // verus!
