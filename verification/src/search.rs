//! The search for objects: by a beginning of their identifier, by the designation of a solar
//! system object, or around a position.

use crate::document::{
    bson_value, doc1, doc2, document_fields, embedded, int32, list2, object1, text, BsonValue,
};
use crate::ieee::Float64;
use crate::object_id::{inferred, infer_survey_from_objectid};
use crate::query::{FindQuery, FindQueryView, Rows};
use crate::reply::{bad_request, internal_error, Refusal, RefusalView};
use crate::sky::{check_dec, check_ra, check_radius, dec_accepted, ra_accepted, radius_accepted};
use crate::survey::Survey;
use crate::text::{concat, concat3, count_string, decimal, optional_text};
use mongodb::bson::{Bson, Document};
use vstd::prelude::*;

verus! {

/// What a user asks for: exactly one of an identifier, a designation, or a position with a radius.
pub struct SearchObjectsQuery {
    pub object_id: Option<String>,
    /// The designation of a solar system object. It is looked up on its own in LSST and in ZTF: an
    /// object may be known to one of them alone.
    pub designation: Option<String>,
    pub ra: Option<Float64>,
    pub dec: Option<Float64>,
    pub radius: Option<Float64>,
    pub limit: u32,
}

/// The fields of a query.
pub struct SearchObjectsQueryView {
    pub object_id: Option<Seq<char>>,
    pub designation: Option<Seq<char>>,
    pub ra: Option<Float64>,
    pub dec: Option<Float64>,
    pub radius: Option<Float64>,
    pub limit: u32,
}

impl View for SearchObjectsQuery {
    type V = SearchObjectsQueryView;

    open spec fn view(&self) -> SearchObjectsQueryView {
        SearchObjectsQueryView {
            object_id: optional_text(self.object_id),
            designation: optional_text(self.designation),
            ra: self.ra,
            dec: self.dec,
            radius: self.radius,
            limit: self.limit,
        }
    }
}

/// How many results a query asks for that does not say.
pub fn default_limit() -> (r: u32)
    ensures
        r == 10,
{
    10
}

/// A search for a solar system object, not yet made.
pub struct DesignationSearch {
    pub designation: String,
    pub limit: u32,
}

/// A search for identifiers of one survey that begin alike.
pub struct ObjectIdSearch {
    pub survey: Survey,
    pub beginning: String,
    pub limit: u32,
}

/// A search around a position, not yet made.
pub struct PositionSearch {
    pub ra: Float64,
    pub dec: Float64,
    pub radius: Float64,
    pub limit: u32,
}

/// The search that a query asks for.
pub enum SearchPlan {
    Designation(DesignationSearch),
    ObjectId(ObjectIdSearch),
    Position(PositionSearch),
}

/// What a search looks for.
pub enum SearchPlanView {
    Designation { designation: Seq<char>, limit: u32 },
    ObjectId { survey: Survey, beginning: Seq<char>, limit: u32 },
    Position { ra: Float64, dec: Float64, radius: Float64, limit: u32 },
}

impl View for SearchPlan {
    type V = SearchPlanView;

    open spec fn view(&self) -> SearchPlanView {
        match self {
            SearchPlan::Designation(search) => SearchPlanView::Designation {
                designation: search.designation@,
                limit: search.limit,
            },
            SearchPlan::ObjectId(search) => SearchPlanView::ObjectId {
                survey: search.survey,
                beginning: search.beginning@,
                limit: search.limit,
            },
            SearchPlan::Position(search) => SearchPlanView::Position {
                ra: search.ra,
                dec: search.dec,
                radius: search.radius,
                limit: search.limit,
            },
        }
    }
}

/// Whether a query gives any part of a position.
pub open spec fn has_position(query: SearchObjectsQueryView) -> bool {
    query.ra is Some || query.dec is Some || query.radius is Some
}

/// How many of the three ways to search a query gives.
pub open spec fn ways_given(query: SearchObjectsQueryView) -> int {
    (if query.object_id is Some { 1int } else { 0 }) + (if query.designation is Some { 1int } else {
        0
    }) + (if has_position(query) { 1int } else { 0 })
}

/// The search around a position, where the position is complete and within its bounds.
pub open spec fn position_plan(query: SearchObjectsQueryView) -> Result<
    SearchPlanView,
    RefusalView,
> {
    match (query.ra, query.dec, query.radius) {
        (Some(ra), Some(dec), Some(radius)) => {
            if !ra_accepted(ra) {
                Err(RefusalView::BadRequest("ra must be in [0, 360)"@))
            } else if !dec_accepted(dec) {
                Err(RefusalView::BadRequest("dec must be in [-90, 90]"@))
            } else if !radius_accepted(radius) {
                Err(
                    RefusalView::BadRequest(
                        "radius must be greater than 0 and at most 600 arcseconds"@,
                    ),
                )
            } else {
                Ok(SearchPlanView::Position { ra, dec, radius, limit: query.limit })
            }
        },
        _ => Err(
            RefusalView::BadRequest(
                "Must provide ra, dec, and radius together for position search"@,
            ),
        ),
    }
}

/// The search that a query asks for, or why it is refused.
pub open spec fn search_plan(authenticated: bool, query: SearchObjectsQueryView) -> Result<
    SearchPlanView,
    RefusalView,
> {
    if !authenticated {
        Err(RefusalView::Unauthorized)
    } else if !(1 <= query.limit <= 100) {
        Err(RefusalView::BadRequest("Limit must be between 1 and 100"@))
    } else if ways_given(query) > 1 {
        Err(
            RefusalView::BadRequest(
                "Provide only one of: object_id, designation, or ra/dec/radius"@,
            ),
        )
    } else if ways_given(query) == 0 {
        Err(
            RefusalView::BadRequest(
                "Must provide one of: object_id, designation, ra/dec/radius"@,
            ),
        )
    } else {
        match (query.designation, query.object_id) {
            (Some(designation), _) => Ok(
                SearchPlanView::Designation { designation, limit: query.limit },
            ),
            (None, Some(object_id)) => match inferred(object_id) {
                Ok((survey, beginning)) => Ok(
                    SearchPlanView::ObjectId { survey, beginning, limit: query.limit },
                ),
                Err(message) => Err(RefusalView::BadRequest(message)),
            },
            (None, None) => position_plan(query),
        }
    }
}

fn plan_position(query: &SearchObjectsQuery) -> (r: Result<SearchPlan, Refusal>)
    ensures
        match r {
            Ok(plan) => position_plan(query@) == Ok::<SearchPlanView, RefusalView>(plan@),
            Err(refusal) => position_plan(query@) == Err::<SearchPlanView, RefusalView>(refusal@),
        },
{
    match (query.ra, query.dec, query.radius) {
        (Some(ra), Some(dec), Some(radius)) => {
            if !check_ra(ra) {
                return bad_request("ra must be in [0, 360)");
            }
            if !check_dec(dec) {
                return bad_request("dec must be in [-90, 90]");
            }
            if !check_radius(radius) {
                return bad_request("radius must be greater than 0 and at most 600 arcseconds");
            }
            Ok(SearchPlan::Position(PositionSearch { ra, dec, radius, limit: query.limit }))
        },
        _ => bad_request("Must provide ra, dec, and radius together for position search"),
    }
}

/// Begins a search: decides which one the query asks for.
pub fn get_objects(authenticated: bool, query: &SearchObjectsQuery) -> (r: Result<
    SearchPlan,
    Refusal,
>)
    ensures
        match r {
            Ok(plan) => search_plan(authenticated, query@) == Ok::<SearchPlanView, RefusalView>(
                plan@,
            ),
            Err(refusal) => search_plan(authenticated, query@) == Err::<
                SearchPlanView,
                RefusalView,
            >(refusal@),
        },
{
    if !authenticated {
        return Err(Refusal::Unauthorized);
    }
    if query.limit < 1 || query.limit > 100 {
        return bad_request("Limit must be between 1 and 100");
    }
    let has_object_id: u8 = if query.object_id.is_some() { 1 } else { 0 };
    let has_designation: u8 = if query.designation.is_some() { 1 } else { 0 };
    let has_position: u8 = if query.ra.is_some() || query.dec.is_some() || query.radius.is_some() {
        1
    } else {
        0
    };
    let ways: u8 = has_object_id + has_designation + has_position;
    if ways > 1 {
        return bad_request("Provide only one of: object_id, designation, or ra/dec/radius");
    }
    if ways == 0 {
        return bad_request("Must provide one of: object_id, designation, ra/dec/radius");
    }
    let limit: u32 = query.limit;
    if let Some(designation) = &query.designation {
        return Ok(
            SearchPlan::Designation(DesignationSearch { designation: designation.clone(), limit }),
        );
    }
    if let Some(object_id) = &query.object_id {
        return match infer_survey_from_objectid(object_id.as_str()) {
            Ok((survey, beginning)) => Ok(
                SearchPlan::ObjectId(ObjectIdSearch { survey, beginning, limit }),
            ),
            Err(message) => Err(Refusal::BadRequest(message)),
        };
    }
    plan_position(query)
}

/// An object as the database holds it.
pub struct ObjectMini {
    pub object_id: String,
    pub ra: Float64,
    pub dec: Float64,
}

/// An object near a position, and how near.
pub struct NearObject {
    pub object: ObjectMini,
    pub distance_arcsec: Float64,
}

/// An object that a search found.
pub struct SearchObjectResult {
    pub object_id: String,
    pub survey: Survey,
    pub ra: Float64,
    pub dec: Float64,
    pub distance_arcsec: Option<Float64>,
}

/// What a result says.
pub struct SearchObjectResultView {
    pub object_id: Seq<char>,
    pub survey: Survey,
    pub ra: Float64,
    pub dec: Float64,
    pub distance_arcsec: Option<Float64>,
}

impl View for SearchObjectResult {
    type V = SearchObjectResultView;

    open spec fn view(&self) -> SearchObjectResultView {
        SearchObjectResultView {
            object_id: self.object_id@,
            survey: self.survey,
            ra: self.ra,
            dec: self.dec,
            distance_arcsec: self.distance_arcsec,
        }
    }
}

pub open spec fn result_views(results: Seq<SearchObjectResult>) -> Seq<SearchObjectResultView> {
    results.map_values(|result: SearchObjectResult| result@)
}

/// An object as a result, without a distance.
pub open spec fn plain_result(object: ObjectMini, survey: Survey) -> SearchObjectResultView {
    SearchObjectResultView {
        object_id: object.object_id@,
        survey,
        ra: object.ra,
        dec: object.dec,
        distance_arcsec: None,
    }
}

/// An object as a result, with its distance.
pub open spec fn near_result(near: NearObject, survey: Survey) -> SearchObjectResultView {
    SearchObjectResultView {
        object_id: near.object.object_id@,
        survey,
        ra: near.object.ra,
        dec: near.object.dec,
        distance_arcsec: Some(near.distance_arcsec),
    }
}

pub open spec fn plain_results(objects: Seq<ObjectMini>, survey: Survey) -> Seq<
    SearchObjectResultView,
> {
    objects.map_values(|object: ObjectMini| plain_result(object, survey))
}

pub open spec fn near_results(objects: Seq<NearObject>, survey: Survey) -> Seq<
    SearchObjectResultView,
> {
    objects.map_values(|near: NearObject| near_result(near, survey))
}

/// The objects of one survey as results.
pub(crate) fn list_objects(objects: Vec<ObjectMini>, survey: Survey) -> (r: Vec<SearchObjectResult>)
    ensures
        result_views(r@) == plain_results(objects@, survey),
{
    let mut results: Vec<SearchObjectResult> = Vec::new();
    for object in it: objects
        invariant
            it.seq() == objects@,
            results@.len() == it.index(),
            forall|i: int|
                0 <= i < it.index() ==> (#[trigger] results@[i])@ == plain_result(
                    objects@[i],
                    survey,
                ),
    {
        results.push(
            SearchObjectResult {
                object_id: object.object_id,
                survey,
                ra: object.ra,
                dec: object.dec,
                distance_arcsec: None,
            },
        );
    }
    assert(result_views(results@) =~= plain_results(objects@, survey));
    results
}

/// The objects of one survey near a position as results.
pub(crate) fn list_near(objects: Vec<NearObject>, survey: Survey) -> (r: Vec<SearchObjectResult>)
    ensures
        result_views(r@) == near_results(objects@, survey),
{
    let mut results: Vec<SearchObjectResult> = Vec::new();
    for near in it: objects
        invariant
            it.seq() == objects@,
            results@.len() == it.index(),
            forall|i: int|
                0 <= i < it.index() ==> (#[trigger] results@[i])@ == near_result(
                    objects@[i],
                    survey,
                ),
    {
        results.push(
            SearchObjectResult {
                object_id: near.object.object_id,
                survey,
                ra: near.object.ra,
                dec: near.object.dec,
                distance_arcsec: Some(near.distance_arcsec),
            },
        );
    }
    assert(result_views(results@) =~= near_results(objects@, survey));
    results
}

/// The answer to a search.
pub struct SearchReply {
    pub message: String,
    pub results: Vec<SearchObjectResult>,
}

/// The message that goes with so many results.
pub open spec fn found_message(count: int) -> Seq<char> {
    "Found "@ + decimal(count) + " objects"@
}

pub(crate) fn answer(results: Vec<SearchObjectResult>) -> (r: SearchReply)
    ensures
        r.results == results,
        r.message@ == found_message(results@.len() as int),
{
    let count = count_string(results.len());
    SearchReply { message: concat3("Found ", count.as_str(), " objects"), results }
}

/// The first so many results, or all where there are fewer.
pub open spec fn at_most<T>(results: Seq<T>, limit: u32) -> Seq<T> {
    if results.len() > limit {
        results.subrange(0, limit as int)
    } else {
        results
    }
}

pub(crate) fn cut(results: Vec<SearchObjectResult>, limit: u32) -> (r: Vec<SearchObjectResult>)
    ensures
        result_views(r@) == at_most(result_views(results@), limit),
{
    let mut kept = results;
    kept.truncate(limit as usize);
    assert(result_views(kept@) =~= at_most(result_views(results@), limit));
    kept
}

/// A search for a solar system object, once LSST has been searched.
pub struct DesignationZtfSearch {
    pub designation: String,
    pub limit: u32,
    pub lsst_results: Vec<SearchObjectResult>,
}

/// The objects that LSST knows by the designation.
pub open spec fn lsst_designation_filter(designation: Seq<char>) -> Seq<(Seq<char>, BsonValue)> {
    seq![("designation"@, BsonValue::Text(designation))]
}

/// One measurement whose nearest known solar system object is the designated one, and near enough
/// to be it.
pub open spec fn sighting_condition(designation: Seq<char>, uncertainty: BsonValue) -> BsonValue {
    BsonValue::Fields(
        seq![
            ("ssnamenr"@, BsonValue::Text(designation)),
            ("ssdistnr"@, BsonValue::Fields(seq![("$lte"@, uncertainty)])),
        ],
    )
}

/// The objects of which the list holds a measurement that meets the condition.
pub open spec fn some_element(list: Seq<char>, condition: BsonValue) -> BsonValue {
    BsonValue::Fields(
        seq![(list, BsonValue::Fields(seq![("$elemMatch"@, condition)]))],
    )
}

/// The objects that ZTF sighted under the designation, detected or not.
pub open spec fn ztf_designation_filter(designation: Seq<char>, uncertainty: BsonValue) -> Seq<
    (Seq<char>, BsonValue),
> {
    let condition = sighting_condition(designation, uncertainty);
    seq![
        (
            "$or"@,
            BsonValue::List(
                seq![
                    some_element("prv_candidates"@, condition),
                    some_element("prv_nondetections"@, condition),
                ],
            ),
        ),
    ]
}

/// A search of the objects of a survey by a filter alone.
pub open spec fn object_query(
    survey: Survey,
    filter: Seq<(Seq<char>, BsonValue)>,
    limit: u32,
) -> FindQueryView {
    FindQueryView {
        collection: survey.label() + "_alerts_aux"@,
        filter,
        sort: None,
        projection: None,
        limit: Some(limit as i64),
    }
}

pub(crate) fn find_objects(survey: Survey, filter: Document, limit: u32) -> (r: FindQuery)
    ensures
        r@ == object_query(survey, document_fields(filter), limit),
{
    FindQuery {
        collection: survey.aux_collection(),
        filter,
        sort: None,
        projection: None,
        limit: Some(limit as i64),
    }
}

impl DesignationSearch {
    /// What to ask LSST.
    pub fn lsst_query(&self) -> (r: FindQuery)
        ensures
            r@ == object_query(
                Survey::Lsst,
                lsst_designation_filter(self.designation@),
                self.limit,
            ),
    {
        find_objects(
            Survey::Lsst,
            doc1("designation", text(self.designation.as_str())),
            self.limit,
        )
    }

    /// Takes what LSST answered. A failure while the answer is read ends it without a word.
    pub fn lsst_found(self, rows: Rows<ObjectMini>) -> (r: Result<DesignationZtfSearch, Refusal>)
        ensures
            match rows {
                Rows::NotOpened { error } => r is Err && r->Err_0@ == RefusalView::InternalError(
                    "error searching LSST objects by designation: "@ + error@,
                ),
                Rows::Read { rows, .. } => {
                    &&& r is Ok
                    &&& r->Ok_0.designation@ == self.designation@
                    &&& r->Ok_0.limit == self.limit
                    &&& result_views(r->Ok_0.lsst_results@) == plain_results(rows@, Survey::Lsst)
                },
            },
    {
        match rows {
            Rows::NotOpened { error } => internal_error(
                "error searching LSST objects by designation: ",
                error.as_str(),
            ),
            Rows::Read { rows, .. } => Ok(
                DesignationZtfSearch {
                    designation: self.designation,
                    limit: self.limit,
                    lsst_results: list_objects(rows, Survey::Lsst),
                },
            ),
        }
    }
}

fn element_condition(list: &str, condition: Document) -> (r: Bson)
    ensures
        bson_value(r) == some_element(list@, BsonValue::Fields(document_fields(condition))),
{
    object1(list, object1("$elemMatch", embedded(condition)))
}

impl DesignationZtfSearch {
    /// What to ask ZTF. The uncertainty is how far, at most, a measurement may be from the
    /// predicted position of the object to count as one of it.
    pub fn ztf_query(&self, uncertainty: Bson) -> (r: FindQuery)
        ensures
            r@ == object_query(
                Survey::Ztf,
                ztf_designation_filter(self.designation@, bson_value(uncertainty)),
                self.limit,
            ),
    {
        proof {
            reveal_strlit("ssnamenr");
            reveal_strlit("ssdistnr");
            assert("ssnamenr"@[2] == 'n' && "ssdistnr"@[2] == 'd');
        }
        let condition = doc2(
            "ssnamenr",
            text(self.designation.as_str()),
            "ssdistnr",
            object1("$lte", uncertainty),
        );
        let detected = element_condition("prv_candidates", condition.clone());
        let undetected = element_condition("prv_nondetections", condition);
        find_objects(Survey::Ztf, doc1("$or", list2(detected, undetected)), self.limit)
    }

    /// Takes what ZTF answered: the results of LSST, then those of ZTF, up to the limit. A failure
    /// while the answer is read ends it without a word.
    pub fn ztf_found(self, rows: Rows<ObjectMini>) -> (r: Result<SearchReply, Refusal>)
        ensures
            match rows {
                Rows::NotOpened { error } => r is Err && r->Err_0@ == RefusalView::InternalError(
                    "error searching ZTF objects by designation: "@ + error@,
                ),
                Rows::Read { rows, .. } => {
                    &&& r is Ok
                    &&& result_views(r->Ok_0.results@) == at_most(
                        result_views(self.lsst_results@) + plain_results(rows@, Survey::Ztf),
                        self.limit,
                    )
                    &&& r->Ok_0.message@ == found_message(r->Ok_0.results@.len() as int)
                },
            },
    {
        match rows {
            Rows::NotOpened { error } => internal_error(
                "error searching ZTF objects by designation: ",
                error.as_str(),
            ),
            Rows::Read { rows, .. } => {
                let mut results = self.lsst_results;
                let mut ztf_results = list_objects(rows, Survey::Ztf);
                let ghost expected = result_views(results@) + result_views(ztf_results@);
                results.append(&mut ztf_results);
                assert(result_views(results@) =~= expected);
                Ok(answer(cut(results, self.limit)))
            },
        }
    }
}

/// The objects whose identifier begins so.
pub open spec fn beginning_filter(beginning: Seq<char>) -> Seq<(Seq<char>, BsonValue)> {
    seq![("_id"@, BsonValue::Fields(seq![("$regex"@, BsonValue::Text("^"@ + beginning))]))]
}

impl ObjectIdSearch {
    /// What to ask the survey: in the order of the identifiers.
    pub fn query(&self) -> (r: FindQuery)
        ensures
            r@ == (FindQueryView {
                collection: self.survey.label() + "_alerts_aux"@,
                filter: beginning_filter(self.beginning@),
                sort: Some(seq![("_id"@, BsonValue::Int32(1))]),
                projection: None,
                limit: Some(self.limit as i64),
            }),
    {
        let pattern = concat("^", self.beginning.as_str());
        FindQuery {
            collection: self.survey.aux_collection(),
            filter: doc1("_id", object1("$regex", text(pattern.as_str()))),
            sort: Some(doc1("_id", int32(1))),
            projection: None,
            limit: Some(self.limit as i64),
        }
    }

    /// Takes what the survey answered. Here any failure is reported.
    pub fn found(self, rows: Rows<ObjectMini>) -> (r: Result<SearchReply, Refusal>)
        ensures
            match rows {
                Rows::NotOpened { error } => r is Err && r->Err_0@ == RefusalView::InternalError(
                    "error searching objects: "@ + error@,
                ),
                Rows::Read { failure: Some(error), .. } => r is Err && r->Err_0@
                    == RefusalView::InternalError("error searching objects: "@ + error@),
                Rows::Read { rows, failure: None } => {
                    &&& r is Ok
                    &&& result_views(r->Ok_0.results@) == plain_results(rows@, self.survey)
                    &&& r->Ok_0.message@ == found_message(r->Ok_0.results@.len() as int)
                },
            },
    {
        match rows {
            Rows::NotOpened { error } => internal_error("error searching objects: ", error.as_str()),
            Rows::Read { failure: Some(error), .. } => internal_error(
                "error searching objects: ",
                error.as_str(),
            ),
            Rows::Read { rows, failure: None } => Ok(answer(list_objects(rows, self.survey))),
        }
    }
}

/// A search is made only for somebody who is logged in, for one to a hundred results, and only
/// where the query gives exactly one way to search: the one that is taken.
pub proof fn law_one_way_to_search(authenticated: bool, query: SearchObjectsQueryView)
    requires
        search_plan(authenticated, query) is Ok,
    ensures
        authenticated,
        1 <= query.limit <= 100,
        ways_given(query) == 1,
        match search_plan(authenticated, query)->Ok_0 {
            SearchPlanView::Designation { designation, limit } => query.designation == Some(
                designation,
            ) && limit == query.limit,
            SearchPlanView::ObjectId { survey, beginning, limit } => {
                &&& query.object_id is Some
                &&& inferred(query.object_id->Some_0) == Ok::<(Survey, Seq<char>), Seq<char>>(
                    (survey, beginning),
                )
                &&& limit == query.limit
            },
            SearchPlanView::Position { ra, dec, radius, limit } => {
                &&& query.ra == Some(ra) && ra_accepted(ra)
                &&& query.dec == Some(dec) && dec_accepted(dec)
                &&& query.radius == Some(radius) && radius_accepted(radius)
                &&& limit == query.limit
            },
        },
{
}

/// Cut off at a limit, results are never more than the limit, are the first ones, and are all of
/// them where these are no more than the limit.
pub proof fn law_the_limit_holds<T>(results: Seq<T>, limit: u32)
    ensures
        at_most(results, limit).len() <= limit,
        at_most(results, limit).is_prefix_of(results),
        results.len() <= limit ==> at_most(results, limit) == results,
        at_most(at_most(results, limit), limit) == at_most(results, limit),
{
    assert(at_most(results, limit) =~= results.subrange(0, at_most(results, limit).len() as int));
}

} // verus!
