//! The search of one survey around many positions, one after the other.

use crate::document::bson_value;
use crate::geo::{within, within_filter};
use crate::ieee::Float64;
use crate::query::{FindQuery, FindQueryView, Rows};
use crate::reply::{bad_request, internal_error, Refusal, RefusalView};
use crate::search::{
    list_objects, plain_results, result_views, ObjectMini, SearchObjectResult,
    SearchObjectResultView,
};
use crate::sky::{check_dec, check_ra, check_radius, dec_accepted, ra_accepted, radius_accepted};
use crate::survey::Survey;
use crate::text::concat3;
use mongodb::bson::Bson;
use vstd::prelude::*;

verus! {

/// How many positions one request may give.
pub const MOST_TARGETS: usize = 1000;

/// A named position.
pub struct ConeTarget {
    pub name: String,
    pub ra: Float64,
    pub dec: Float64,
}

/// What a user asks for.
pub struct ObjectsConeSearchQuery {
    pub coordinates: Vec<ConeTarget>,
    pub radius_arcsec: Float64,
}

impl ObjectsConeSearchQuery {
    /// Whether no name occurs twice.
    pub open spec fn names_once(self) -> bool {
        target_names(self.coordinates@).no_duplicates()
    }
}

/// What was found around a position.
pub struct ConeMatches {
    pub name: String,
    pub matches: Vec<SearchObjectResult>,
}

/// What an entry of the answer says.
pub struct ConeMatchesView {
    pub name: Seq<char>,
    pub matches: Seq<SearchObjectResultView>,
}

impl View for ConeMatches {
    type V = ConeMatchesView;

    open spec fn view(&self) -> ConeMatchesView {
        ConeMatchesView { name: self.name@, matches: result_views(self.matches@) }
    }
}

pub open spec fn entry_views(entries: Seq<ConeMatches>) -> Seq<ConeMatchesView> {
    entries.map_values(|entry: ConeMatches| entry@)
}

pub open spec fn target_names(targets: Seq<ConeTarget>) -> Seq<Seq<char>> {
    targets.map_values(|target: ConeTarget| target.name@)
}

pub open spec fn entry_names(entries: Seq<ConeMatchesView>) -> Seq<Seq<char>> {
    entries.map_values(|entry: ConeMatchesView| entry.name)
}

/// What a name is answered with: what was found around its own position.
pub open spec fn cone_entry(
    survey: Survey,
    target: ConeTarget,
    rows: Seq<ObjectMini>,
) -> ConeMatchesView {
    ConeMatchesView { name: target.name@, matches: plain_results(rows, survey) }
}

/// A cone search between two positions: what was found so far, and what is still to be searched.
pub struct ConeSearch {
    pub survey: Survey,
    pub waiting: Vec<ConeTarget>,
    pub found: Vec<ConeMatches>,
}

/// A cone search at one position.
pub struct ConeQuestion {
    pub survey: Survey,
    pub target: ConeTarget,
    pub waiting: Vec<ConeTarget>,
    pub found: Vec<ConeMatches>,
}

/// The answer to a cone search.
pub struct ConeReply {
    pub message: String,
    pub results: Vec<ConeMatches>,
}

/// What a cone search does next.
pub enum ConeStep {
    /// Search around a position.
    Ask(ConeQuestion),
    /// Nothing is left to search.
    Answer(ConeReply),
    /// A position is out of bounds.
    Refuse(Refusal),
}

/// Whether a search goes on with the question on the first position that is waiting.
pub open spec fn asks_next(search: ConeSearch, question: ConeQuestion) -> bool {
    &&& question.survey == search.survey
    &&& question.target == search.waiting@[0]
    &&& question.waiting@ == search.waiting@.drop_first()
    &&& question.found == search.found
}

/// Whether a question goes on as a search with what was found.
pub open spec fn takes_rows(
    question: ConeQuestion,
    rows: Seq<ObjectMini>,
    next: ConeSearch,
) -> bool {
    &&& next.survey == question.survey
    &&& next.waiting == question.waiting
    &&& entry_views(next.found@) == entry_views(question.found@).push(
        cone_entry(question.survey, question.target, rows),
    )
}

/// Begins a cone search: only for somebody who is logged in, with a radius within its bounds, and
/// around one to a thousand positions.
pub fn cone_search_objects(
    authenticated: bool,
    survey: Survey,
    query: ObjectsConeSearchQuery,
) -> (r: Result<ConeSearch, Refusal>)
    ensures
        if !authenticated {
            r is Err && r->Err_0@ == RefusalView::Unauthorized
        } else if !radius_accepted(query.radius_arcsec) {
            r is Err && r->Err_0@ == RefusalView::BadRequest(
                "radius_arcsec must be between 0 and 600"@,
            )
        } else if !(1 <= query.coordinates@.len() <= MOST_TARGETS) {
            r is Err && r->Err_0@ == RefusalView::BadRequest(
                "Must provide between 1 and 1000 coordinate pairs for cone search"@,
            )
        } else {
            &&& r is Ok
            &&& r->Ok_0.survey == survey
            &&& r->Ok_0.waiting == query.coordinates
            &&& r->Ok_0.found@ == Seq::<ConeMatches>::empty()
            &&& r->Ok_0.names() == target_names(query.coordinates@)
            &&& query.names_once() ==> r->Ok_0.names_once()
        },
{
    if !authenticated {
        return Err(Refusal::Unauthorized);
    }
    if !check_radius(query.radius_arcsec) {
        return bad_request("radius_arcsec must be between 0 and 600");
    }
    if query.coordinates.len() == 0 || query.coordinates.len() > MOST_TARGETS {
        return bad_request("Must provide between 1 and 1000 coordinate pairs for cone search");
    }
    let search = ConeSearch { survey, waiting: query.coordinates, found: Vec::new() };
    assert(search.names() =~= target_names(query.coordinates@));
    Ok(search)
}

/// Why the position is refused.
pub open spec fn target_refusal(target: ConeTarget) -> Option<RefusalView> {
    if !ra_accepted(target.ra) {
        Some(
            RefusalView::BadRequest(
                "Invalid RA for object "@ + target.name@ + ": must be in [0, 360)"@,
            ),
        )
    } else if !dec_accepted(target.dec) {
        Some(
            RefusalView::BadRequest(
                "Invalid Dec for object "@ + target.name@ + ": must be in [-90, 90]"@,
            ),
        )
    } else {
        None
    }
}

fn check_target(target: &ConeTarget) -> (r: Option<Refusal>)
    ensures
        match r {
            Some(refusal) => target_refusal(*target) == Some(refusal@),
            None => target_refusal(*target) is None,
        },
{
    if !check_ra(target.ra) {
        return Some(
            Refusal::BadRequest(
                concat3("Invalid RA for object ", target.name.as_str(), ": must be in [0, 360)"),
            ),
        );
    }
    if !check_dec(target.dec) {
        return Some(
            Refusal::BadRequest(
                concat3("Invalid Dec for object ", target.name.as_str(), ": must be in [-90, 90]"),
            ),
        );
    }
    None
}

impl ConeSearch {
    /// The names of all the positions, those searched first.
    pub open spec fn names(self) -> Seq<Seq<char>> {
        entry_names(entry_views(self.found@)) + target_names(self.waiting@)
    }

    /// Whether no name occurs twice.
    pub open spec fn names_once(self) -> bool {
        self.names().no_duplicates()
    }

    /// Decides what to do next: searches around the first position that is waiting, unless that
    /// one is out of bounds, and answers when none is waiting.
    pub fn step(self) -> (r: ConeStep)
        ensures
            if self.waiting@.len() == 0 {
                &&& r is Answer
                &&& r->Answer_0.message@ == "Cone search completed"@
                &&& r->Answer_0.results == self.found
                &&& entry_names(entry_views(r->Answer_0.results@)) == self.names()
                &&& self.names_once() ==> entry_names(
                    entry_views(r->Answer_0.results@),
                ).no_duplicates()
            } else {
                match target_refusal(self.waiting@[0]) {
                    Some(refusal) => r is Refuse && r->Refuse_0@ == refusal,
                    None => {
                        &&& r is Ask
                        &&& asks_next(self, r->Ask_0)
                        &&& r->Ask_0.names() == self.names()
                        &&& self.names_once() ==> r->Ask_0.names_once()
                    },
                }
            },
    {
        if self.waiting.len() == 0 {
            assert(self.names() =~= entry_names(entry_views(self.found@)));
            return ConeStep::Answer(
                ConeReply { message: "Cone search completed".to_owned(), results: self.found },
            );
        }
        let mut waiting = self.waiting;
        let target = waiting.remove(0);
        assert(waiting@ =~= self.waiting@.drop_first());
        if let Some(refusal) = check_target(&target) {
            return ConeStep::Refuse(refusal);
        }
        let question = ConeQuestion { survey: self.survey, target, waiting, found: self.found };
        assert(question.names() =~= self.names());
        ConeStep::Ask(question)
    }
}

impl ConeQuestion {
    /// The names of all the positions, those searched first.
    pub open spec fn names(self) -> Seq<Seq<char>> {
        entry_names(entry_views(self.found@)).push(self.target.name@) + target_names(self.waiting@)
    }

    /// Whether no name occurs twice.
    pub open spec fn names_once(self) -> bool {
        self.names().no_duplicates()
    }

    /// What to ask the survey. The point is the position as the database counts it, and the radius
    /// is in radians.
    pub fn query(&self, longitude: Bson, latitude: Bson, radius: Bson) -> (r: FindQuery)
        ensures
            r@ == (FindQueryView {
                collection: self.survey.label() + "_alerts_aux"@,
                filter: within_filter(
                    bson_value(longitude),
                    bson_value(latitude),
                    bson_value(radius),
                ),
                sort: None,
                projection: None,
                limit: None,
            }),
    {
        FindQuery {
            collection: self.survey.aux_collection(),
            filter: within(longitude, latitude, radius),
            sort: None,
            projection: None,
            limit: None,
        }
    }

    /// Takes what the survey answered. A failure while the answer is read ends it without a word.
    pub fn found(self, rows: Rows<ObjectMini>) -> (r: Result<ConeSearch, Refusal>)
        ensures
            match rows {
                Rows::NotOpened { error } => r is Err && r->Err_0@ == RefusalView::InternalError(
                    "error performing cone search for "@ + self.target.name@ + ": "@ + error@,
                ),
                Rows::Read { rows, .. } => {
                    &&& r is Ok
                    &&& takes_rows(self, rows@, r->Ok_0)
                    &&& r->Ok_0.names() == self.names()
                    &&& self.names_once() ==> r->Ok_0.names_once()
                },
            },
    {
        match rows {
            Rows::NotOpened { error } => {
                let what = concat3(
                    "error performing cone search for ",
                    self.target.name.as_str(),
                    ": ",
                );
                internal_error(what.as_str(), error.as_str())
            },
            Rows::Read { rows, .. } => {
                let matches = list_objects(rows, self.survey);
                let mut found = self.found;
                found.push(ConeMatches { name: self.target.name, matches });
                proof {
                    let entry = found@.last()@;
                    assert(entry_views(found@) =~= entry_views(self.found@).push(entry));
                    assert(entry_names(entry_views(self.found@).push(entry)) =~= entry_names(
                        entry_views(self.found@),
                    ).push(entry.name));
                }
                Ok(ConeSearch { survey: self.survey, waiting: self.waiting, found })
            },
        }
    }
}

/// Whether a search for positions has come so far that these rows were found, one list for each of
/// the first positions: each of these has the answer of its own, and the others are waiting.
pub open spec fn has_come_to(
    search: ConeSearch,
    survey: Survey,
    targets: Seq<ConeTarget>,
    rows: Seq<Seq<ObjectMini>>,
) -> bool {
    &&& search.survey == survey
    &&& rows.len() <= targets.len()
    &&& search.waiting@ == targets.skip(rows.len() as int)
    &&& entry_views(search.found@) == Seq::new(
        rows.len(),
        |i: int| cone_entry(survey, targets[i], rows[i]),
    )
}

/// A search begins with nothing found.
pub proof fn law_a_search_begins_with_nothing(search: ConeSearch)
    requires
        search.found@.len() == 0,
    ensures
        has_come_to(search, search.survey, search.waiting@, Seq::empty()),
{
    assert(search.waiting@.skip(0) =~= search.waiting@);
    assert(entry_views(search.found@) =~= Seq::new(
        0,
        |i: int| cone_entry(search.survey, search.waiting@[i], Seq::<Seq<ObjectMini>>::empty()[i]),
    ));
}

/// Each step answers one position more, and changes nothing of what was answered before.
pub proof fn law_a_step_answers_one_position(
    search: ConeSearch,
    question: ConeQuestion,
    next: ConeSearch,
    survey: Survey,
    targets: Seq<ConeTarget>,
    rows: Seq<Seq<ObjectMini>>,
    found: Seq<ObjectMini>,
)
    requires
        has_come_to(search, survey, targets, rows),
        search.waiting@.len() > 0,
        asks_next(search, question),
        takes_rows(question, found, next),
    ensures
        question.target == targets[rows.len() as int],
        has_come_to(next, survey, targets, rows.push(found)),
{
    let n = rows.len() as int;
    assert(next.waiting@ =~= targets.skip(n + 1));
    assert(entry_views(next.found@) =~= Seq::new(
        rows.push(found).len(),
        |i: int| cone_entry(survey, targets[i], rows.push(found)[i]),
    ));
}

/// When nothing is waiting any more, each position is answered, under its name, with what was found
/// around it.
pub proof fn law_every_position_has_its_answer(
    search: ConeSearch,
    survey: Survey,
    targets: Seq<ConeTarget>,
    rows: Seq<Seq<ObjectMini>>,
    i: int,
)
    requires
        has_come_to(search, survey, targets, rows),
        search.waiting@.len() == 0,
        0 <= i < targets.len(),
    ensures
        rows.len() == targets.len(),
        entry_views(search.found@).len() == targets.len(),
        entry_views(search.found@)[i] == cone_entry(survey, targets[i], rows[i]),
{
}

/// What a name is answered with does not depend on the other names: two searches of a survey in
/// which the same was found for the name answer it the same, whatever else they search, and in
/// whatever order.
pub proof fn law_a_name_is_answered_for_itself(
    search_a: ConeSearch,
    targets_a: Seq<ConeTarget>,
    rows_a: Seq<Seq<ObjectMini>>,
    i: int,
    search_b: ConeSearch,
    targets_b: Seq<ConeTarget>,
    rows_b: Seq<Seq<ObjectMini>>,
    j: int,
    survey: Survey,
)
    requires
        has_come_to(search_a, survey, targets_a, rows_a),
        has_come_to(search_b, survey, targets_b, rows_b),
        0 <= i < rows_a.len(),
        0 <= j < rows_b.len(),
        targets_a[i].name@ == targets_b[j].name@,
        rows_a[i] == rows_b[j],
    ensures
        entry_views(search_a.found@)[i] == entry_views(search_b.found@)[j],
{
}

} // verus!
