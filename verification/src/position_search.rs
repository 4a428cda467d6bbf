//! The search around a position: both surveys are asked, and what they find is put in the order of
//! its distance.

use crate::document::{bson_value, document_fields};
use crate::geo::{near, near_filter};
use crate::ieee::{double, Float64};
use crate::query::{FindQuery, Rows};
use crate::ranking::{
    all_numbers, arranged, is_arrangement, is_place, is_ranking, law_nothing_smaller_is_left_out,
    law_ranking_is_unique, lemma_insertion_keeps_ranking,
};
use crate::reply::{internal_error, Refusal, RefusalView};
use crate::search::{
    answer, at_most, cut, find_objects, found_message, list_near, near_results, object_query,
    result_views, NearObject, PositionSearch, SearchObjectResult, SearchObjectResultView,
    SearchReply,
};
use crate::survey::Survey;
use mongodb::bson::{Bson, Document};
use vstd::prelude::*;

verus! {

/// The bits of the largest finite double.
pub const LARGEST: u64 = 0x7FEF_FFFF_FFFF_FFFF;

/// By what a result is put in order: its distance, or the largest number where it has none.
pub open spec fn distance_key(result: SearchObjectResultView) -> Float64 {
    match result.distance_arcsec {
        Some(distance) => distance,
        None => double(LARGEST),
    }
}

pub open spec fn distance_keys(results: Seq<SearchObjectResultView>) -> Seq<Float64> {
    results.map_values(|result: SearchObjectResultView| distance_key(result))
}

fn key_of(result: &SearchObjectResult) -> (r: Float64)
    ensures
        r == distance_key(result@),
{
    match result.distance_arcsec {
        Some(distance) => distance,
        None => Float64::from_bits(LARGEST),
    }
}

/// Whether these are the results in the order of their distances, up to the limit.
pub open spec fn nearest_first(
    shown: Seq<SearchObjectResultView>,
    found: Seq<SearchObjectResultView>,
    limit: u32,
) -> bool {
    exists|order: Seq<int>| #[trigger]
        is_ranking(order, distance_keys(found)) && shown == at_most(arranged(found, order), limit)
}

/// Puts results in the order of their distances, those at equal distances in the order in which
/// they came.
fn rank(found: Vec<SearchObjectResult>) -> (r: (Vec<SearchObjectResult>, Ghost<Seq<int>>))
    ensures
        is_ranking(r.1@, distance_keys(result_views(found@))),
        result_views(r.0@) == arranged(result_views(found@), r.1@),
{
    let ghost keys = distance_keys(result_views(found@));
    let ghost views = result_views(found@);
    let mut ranked: Vec<SearchObjectResult> = Vec::new();
    let ghost mut order: Seq<int> = seq![];
    for result in it: found
        invariant
            it.seq() == found@,
            views == result_views(found@),
            keys == distance_keys(views),
            order.len() == it.index(),
            is_ranking(order, keys.take(it.index() as int)),
            result_views(ranked@) == arranged(views, order),
    {
        let ghost n = it.index() as int;
        assert(views[n] == result@ && keys[n] == distance_key(result@));
        let key = key_of(&result);
        let mut place: usize = ranked.len();
        assert(result_views(ranked@).len() == ranked@.len());
        while place > 0 && key.less_than(key_of(&ranked[place - 1]))
            invariant
                place <= ranked@.len() == order.len() == n < keys.len(),
                views == result_views(found@),
                keys == distance_keys(views),
                key == keys[n],
                is_arrangement(order, n as nat),
                result_views(ranked@) == arranged(views, order),
                place < order.len() ==> key.lt(keys[order[place as int]]),
            decreases place,
        {
            assert(result_views(ranked@)[place - 1] == arranged(views, order)[place - 1]);
            place = place - 1;
        }
        proof {
            if place > 0 {
                assert(result_views(ranked@)[place - 1] == arranged(views, order)[place - 1]);
            }
            assert(is_place(keys, order, place as int));
            lemma_insertion_keeps_ranking(keys, order, place as int);
        }
        let ghost earlier = ranked@;
        ranked.insert(place, result);
        proof {
            let next = order.insert(place as int, n);
            assert forall|i: int| 0 <= i < n + 1 implies #[trigger] result_views(ranked@)[i]
                == arranged(views, next)[i] by {
                if i < place {
                    assert(result_views(earlier)[i] == arranged(views, order)[i]);
                } else if i > place {
                    assert(result_views(earlier)[i - 1] == arranged(views, order)[i - 1]);
                }
            }
            assert(result_views(ranked@) =~= arranged(views, next));
            order = next;
        }
    }
    assert(keys.take(keys.len() as int) =~= keys);
    (ranked, Ghost(order))
}

/// A search around a position, with the condition that it puts to both surveys.
pub struct AimedSearch {
    pub near: Document,
    pub limit: u32,
}

/// A search around a position, once ZTF has been searched.
pub struct PositionLsstSearch {
    pub near: Document,
    pub limit: u32,
    pub ztf_results: Vec<SearchObjectResult>,
}

impl PositionSearch {
    /// Takes the position as the database counts it, in degrees of longitude and latitude, and the
    /// radius in radians.
    pub fn aim(self, longitude: Bson, latitude: Bson, max_distance: Bson) -> (r: AimedSearch)
        ensures
            document_fields(r.near) == near_filter(
                bson_value(longitude),
                bson_value(latitude),
                bson_value(max_distance),
            ),
            r.limit == self.limit,
    {
        AimedSearch { near: near(longitude, latitude, max_distance), limit: self.limit }
    }
}

impl AimedSearch {
    /// What to ask ZTF.
    pub fn ztf_query(&self) -> (r: FindQuery)
        ensures
            r@ == object_query(Survey::Ztf, document_fields(self.near), self.limit),
    {
        find_objects(Survey::Ztf, self.near.clone(), self.limit)
    }

    /// Takes what ZTF answered. A failure while the answer is read ends it without a word.
    pub fn ztf_found(self, rows: Rows<NearObject>) -> (r: Result<PositionLsstSearch, Refusal>)
        ensures
            match rows {
                Rows::NotOpened { error } => r is Err && r->Err_0@ == RefusalView::InternalError(
                    "error searching ZTF objects: "@ + error@,
                ),
                Rows::Read { rows, .. } => {
                    &&& r is Ok
                    &&& document_fields(r->Ok_0.near) == document_fields(self.near)
                    &&& r->Ok_0.limit == self.limit
                    &&& result_views(r->Ok_0.ztf_results@) == near_results(rows@, Survey::Ztf)
                },
            },
    {
        match rows {
            Rows::NotOpened { error } => internal_error(
                "error searching ZTF objects: ",
                error.as_str(),
            ),
            Rows::Read { rows, .. } => Ok(
                PositionLsstSearch {
                    near: self.near,
                    limit: self.limit,
                    ztf_results: list_near(rows, Survey::Ztf),
                },
            ),
        }
    }
}

impl PositionLsstSearch {
    /// What to ask LSST.
    pub fn lsst_query(&self) -> (r: FindQuery)
        ensures
            r@ == object_query(Survey::Lsst, document_fields(self.near), self.limit),
    {
        find_objects(Survey::Lsst, self.near.clone(), self.limit)
    }

    /// Takes what LSST answered: what both surveys found, nearest first, up to the limit. A
    /// failure while the answer is read ends it without a word.
    pub fn lsst_found(self, rows: Rows<NearObject>) -> (r: Result<SearchReply, Refusal>)
        ensures
            match rows {
                Rows::NotOpened { error } => r is Err && r->Err_0@ == RefusalView::InternalError(
                    "error searching LSST objects: "@ + error@,
                ),
                Rows::Read { rows, .. } => {
                    &&& r is Ok
                    &&& nearest_first(
                        result_views(r->Ok_0.results@),
                        result_views(self.ztf_results@) + near_results(rows@, Survey::Lsst),
                        self.limit,
                    )
                    &&& r->Ok_0.message@ == found_message(r->Ok_0.results@.len() as int)
                },
            },
    {
        match rows {
            Rows::NotOpened { error } => internal_error(
                "error searching LSST objects: ",
                error.as_str(),
            ),
            Rows::Read { rows, .. } => {
                let mut results = self.ztf_results;
                let mut lsst_results = list_near(rows, Survey::Lsst);
                let ghost expected = result_views(results@) + result_views(lsst_results@);
                results.append(&mut lsst_results);
                assert(result_views(results@) =~= expected);
                let (ranked, Ghost(order)) = rank(results);
                assert(is_ranking(order, distance_keys(expected)));
                Ok(answer(cut(ranked, self.limit)))
            },
        }
    }
}

/// What is shown of a search around a position is never more than the limit, and, where every
/// distance is a number, nothing that is left out is nearer than anything that is shown.
pub proof fn law_the_nearest_are_shown(
    shown: Seq<SearchObjectResultView>,
    found: Seq<SearchObjectResultView>,
    limit: u32,
) -> (order: Seq<int>)
    requires
        nearest_first(shown, found, limit),
    ensures
        shown.len() <= limit,
        shown.len() <= found.len(),
        shown.len() < limit ==> shown.len() == found.len(),
        is_arrangement(order, found.len()),
        shown == arranged(found, order).take(shown.len() as int),
        all_numbers(distance_keys(found)) ==> forall|i: int, j: int|
            0 <= i < shown.len() <= j < found.len() ==> distance_key(found[#[trigger] order[i]]).le(
                distance_key(found[#[trigger] order[j]]),
            ),
        all_numbers(distance_keys(found)) ==> forall|i: int, j: int|
            0 <= i < j < shown.len() ==> distance_key(#[trigger] shown[i]).le(
                distance_key(#[trigger] shown[j]),
            ),
{
    let keys = distance_keys(found);
    let order = choose|order: Seq<int>| #[trigger]
        is_ranking(order, keys) && shown == at_most(arranged(found, order), limit);
    assert(shown =~= arranged(found, order).take(shown.len() as int));
    if all_numbers(keys) {
        assert forall|i: int, j: int| 0 <= i < shown.len() <= j < found.len() implies distance_key(
            found[#[trigger] order[i]],
        ).le(distance_key(found[#[trigger] order[j]])) by {
            law_nothing_smaller_is_left_out(keys, order, shown.len() as int, i, j);
        }
        assert forall|i: int, j: int| 0 <= i < j < shown.len() implies distance_key(
            #[trigger] shown[i],
        ).le(distance_key(#[trigger] shown[j])) by {
            law_nothing_smaller_is_left_out(keys, order, j, i, j);
        }
    }
    order
}

/// Where every distance is a number, what is shown follows from what was found.
pub proof fn law_what_is_shown_is_determined(
    shown: Seq<SearchObjectResultView>,
    also_shown: Seq<SearchObjectResultView>,
    found: Seq<SearchObjectResultView>,
    limit: u32,
)
    requires
        nearest_first(shown, found, limit),
        nearest_first(also_shown, found, limit),
        all_numbers(distance_keys(found)),
    ensures
        shown == also_shown,
{
    let keys = distance_keys(found);
    let a = choose|order: Seq<int>| #[trigger]
        is_ranking(order, keys) && shown == at_most(arranged(found, order), limit);
    let b = choose|order: Seq<int>| #[trigger]
        is_ranking(order, keys) && also_shown == at_most(arranged(found, order), limit);
    law_ranking_is_unique(keys, a, b);
}

} // verus!
