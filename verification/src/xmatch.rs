//! The catalogue matches of objects, of one or of many.

use crate::document::{
    all_fields, bson_value, bson_values, doc1, doc2, document_fields, entries, field_value, get,
    int32, list, object1, text, BsonValue,
};
use crate::json::{
    document_json, form_or_nothing, json_of_document, json_value, json_values, to_json, JsonValue,
};
use crate::query::{FindOneQuery, FindOneQueryView, FindQuery, FindQueryView, Rows};
use crate::reply::{bad_request, internal_error, not_found, Refusal, RefusalView};
use crate::survey::Survey;
use crate::text::{concat, concat3, count_string, decimal};
use mongodb::bson::{Bson, Document};
use serde_json::Value;
use vstd::prelude::*;

verus! {

/// How many objects one request may name.
pub const MOST_OBJECTS: usize = 1000;

/// Whether catalogue matches can be asked for.
pub open spec fn has_matches(survey: Survey) -> bool {
    survey == Survey::Ztf || survey == Survey::Lsst
}

/// Why the catalogue matches of a survey cannot be asked for.
pub open spec fn unsupported(survey: Survey) -> RefusalView {
    RefusalView::BadRequest(
        "Unsupported survey: "@ + survey.label() + ". Supported surveys are: ztf, lsst"@,
    )
}

fn check_survey(survey: Survey) -> (r: Option<Refusal>)
    ensures
        match r {
            Some(refusal) => !has_matches(survey) && refusal@ == unsupported(survey),
            None => has_matches(survey),
        },
{
    if survey != Survey::Ztf && survey != Survey::Lsst {
        return Some(
            Refusal::BadRequest(
                concat3(
                    "Unsupported survey: ",
                    survey.name(),
                    ". Supported surveys are: ztf, lsst",
                ),
            ),
        );
    }
    None
}

/// The fields of an object that are asked for.
pub open spec fn matches_projection() -> Seq<(Seq<char>, BsonValue)> {
    seq![("_id"@, BsonValue::Int32(1)), ("cross_matches"@, BsonValue::Int32(1))]
}

fn only_matches() -> (r: Document)
    ensures
        document_fields(r) == matches_projection(),
{
    proof {
        reveal_strlit("_id");
        reveal_strlit("cross_matches");
        assert("_id"@.len() == 3 && "cross_matches"@.len() == 13);
    }
    doc2("_id", int32(1), "cross_matches", int32(1))
}

/// The documents among the values of a list, in order; other values have none.
pub open spec fn documents_in(value: BsonValue) -> Seq<Seq<(Seq<char>, BsonValue)>> {
    match value {
        BsonValue::List(values) => documents_among(values),
        _ => seq![],
    }
}

/// The documents among values, in order.
pub open spec fn documents_among(values: Seq<BsonValue>) -> Seq<Seq<(Seq<char>, BsonValue)>> {
    values.filter(|value: BsonValue| value is Fields).map_values(
        |value: BsonValue| value->Fields_0,
    )
}

/// The matches of an object, catalogue by catalogue: none, where the object does not hold them.
pub open spec fn matches_of(object: Seq<(Seq<char>, BsonValue)>) -> Seq<
    (Seq<char>, Seq<Seq<(Seq<char>, BsonValue)>>),
> {
    match field_value(object, "cross_matches"@) {
        Some(BsonValue::Fields(catalogs)) => catalogs.map_values(
            |catalog: (Seq<char>, BsonValue)| (catalog.0, documents_in(catalog.1)),
        ),
        _ => seq![],
    }
}

/// The matches of an object in one catalogue.
pub struct CatalogMatches {
    pub catalog: String,
    pub matches: Vec<Document>,
}

pub open spec fn catalog_views(catalogs: Seq<CatalogMatches>) -> Seq<
    (Seq<char>, Seq<Seq<(Seq<char>, BsonValue)>>),
> {
    catalogs.map_values(
        |catalog: CatalogMatches| (catalog.catalog@, all_fields(catalog.matches@)),
    )
}

fn keep_documents(values: &Vec<Bson>) -> (r: Vec<Document>)
    ensures
        all_fields(r@) == documents_among(bson_values(values@)),
{
    let mut kept: Vec<Document> = Vec::new();
    let n: usize = values.len();
    for i in 0..n
        invariant
            n == values@.len(),
            all_fields(kept@) == documents_among(bson_values(values@).take(i as int)),
    {
        let ghost held = bson_values(values@);
        let ghost earlier = kept@;
        proof {
            reveal(Seq::filter);
            assert(held.take(i + 1).drop_last() =~= held.take(i as int));
        }
        match values[i].as_document() {
            Some(doc) => {
                kept.push(doc.clone());
                assert(all_fields(kept@) =~= all_fields(earlier).push(document_fields(*doc)));
                assert(documents_among(held.take(i + 1)) =~= documents_among(
                    held.take(i as int),
                ).push(document_fields(*doc)));
            },
            None => {
                assert(documents_among(held.take(i + 1)) =~= documents_among(held.take(i as int)));
            },
        }
    }
    assert(bson_values(values@).take(n as int) =~= bson_values(values@));
    kept
}

fn keep_documents_of(value: &Bson) -> (r: Vec<Document>)
    ensures
        all_fields(r@) == documents_in(bson_value(*value)),
{
    match value.as_array() {
        Some(values) => keep_documents(values),
        None => {
            let none: Vec<Document> = Vec::new();
            assert(all_fields(none@) =~= seq![]);
            none
        },
    }
}

/// Reads the catalogue matches of an object.
pub fn cross_matches_of(object: &Document) -> (r: Vec<CatalogMatches>)
    ensures
        catalog_views(r@) == matches_of(document_fields(*object)),
        each_once(catalog_views(r@)),
{
    let mut catalogs: Vec<CatalogMatches> = Vec::new();
    let held = match get(object, "cross_matches") {
        Some(value) => value.as_document(),
        None => None,
    };
    if let Some(doc) = held {
        let fields = entries(doc);
        let n: usize = fields.len();
        for i in 0..n
            invariant
                n == fields@.len() == document_fields(*doc).len(),
                forall|k: int|
                    0 <= k < n ==> document_fields(*doc)[k] == (
                        (#[trigger] fields@[k]).0@,
                        bson_value(*fields@[k].1),
                    ),
                catalogs@.len() == i,
                forall|k: int|
                    0 <= k < i ==> {
                        &&& (#[trigger] catalogs@[k]).catalog@ == fields@[k].0@
                        &&& all_fields(catalogs@[k].matches@) == documents_in(
                            bson_value(*fields@[k].1),
                        )
                    },
        {
            let (catalog, value) = fields[i];
            catalogs.push(
                CatalogMatches { catalog: catalog.clone(), matches: keep_documents_of(value) },
            );
        }
        assert(catalog_views(catalogs@) =~= matches_of(document_fields(*object)));
        assert forall|k: int, m: int| 0 <= k < m < n implies (
        #[trigger] catalog_views(catalogs@)[k]).0 != (#[trigger] catalog_views(catalogs@)[m]).0 by {
            assert(fields@[k].0@ != fields@[m].0@);
            assert(catalogs@[k].catalog@ == fields@[k].0@);
            assert(catalogs@[m].catalog@ == fields@[m].0@);
        }
    } else {
        assert(catalog_views(catalogs@) =~= matches_of(document_fields(*object)));
    }
    catalogs
}

/// A lookup of the matches of one object, not yet made.
pub struct XmatchLookup {
    pub survey: Survey,
    pub object_id: String,
}

/// The answer with the matches of one object.
pub struct XmatchResponse {
    pub status: String,
    pub message: String,
    pub data: Vec<CatalogMatches>,
}

/// Begins the lookup of the matches of one object.
pub fn get_object_xmatches(authenticated: bool, survey: Survey, object_id: String) -> (r: Result<
    XmatchLookup,
    Refusal,
>)
    ensures
        if !authenticated {
            r is Err && r->Err_0@ == RefusalView::Unauthorized
        } else if !has_matches(survey) {
            r is Err && r->Err_0@ == unsupported(survey)
        } else {
            r == Ok::<XmatchLookup, Refusal>(XmatchLookup { survey, object_id })
        },
{
    if !authenticated {
        return Err(Refusal::Unauthorized);
    }
    if let Some(refusal) = check_survey(survey) {
        return Err(refusal);
    }
    Ok(XmatchLookup { survey, object_id })
}

impl XmatchLookup {
    /// What to ask for.
    pub fn query(&self) -> (r: FindOneQuery)
        ensures
            r@ == (FindOneQueryView {
                collection: self.survey.label() + "_alerts_aux"@,
                filter: seq![("_id"@, BsonValue::Text(self.object_id@))],
                projection: Some(matches_projection()),
            }),
    {
        FindOneQuery {
            collection: self.survey.aux_collection(),
            filter: doc1("_id", text(self.object_id.as_str())),
            projection: Some(only_matches()),
        }
    }

    /// Takes the object and answers with its matches.
    pub fn found(self, outcome: Result<Option<Document>, String>) -> (r: Result<
        XmatchResponse,
        Refusal,
    >)
        ensures
            match outcome {
                Err(error) => r is Err && r->Err_0@ == RefusalView::InternalError(
                    "error getting documents: "@ + error@,
                ),
                Ok(None) => r is Err && r->Err_0@ == RefusalView::NotFound(
                    "no aux entry found for object id "@ + self.object_id@,
                ),
                Ok(Some(object)) => {
                    &&& r is Ok
                    &&& r->Ok_0.status@ == "success"@
                    &&& r->Ok_0.message@ == "Found cross-matches for object "@ + self.object_id@
                    &&& catalog_views(r->Ok_0.data@) == matches_of(document_fields(object))
                    &&& each_once(catalog_views(r->Ok_0.data@))
                },
            },
    {
        match outcome {
            Err(error) => internal_error("error getting documents: ", error.as_str()),
            Ok(None) => not_found("no aux entry found for object id ", self.object_id.as_str()),
            Ok(Some(object)) => Ok(
                XmatchResponse {
                    status: "success".to_owned(),
                    message: concat("Found cross-matches for object ", self.object_id.as_str()),
                    data: cross_matches_of(&object),
                },
            ),
        }
    }
}

/// What a user asks for: the matches of these objects.
pub struct BatchXmatchQuery {
    pub object_ids: Vec<String>,
}

/// A lookup of the matches of many objects, not yet made.
pub struct BatchXmatch {
    pub survey: Survey,
    pub object_ids: Vec<String>,
}

/// The matches of an object in one catalogue, in JSON.
pub struct CatalogJson {
    pub catalog: String,
    pub matches: Vec<Value>,
}

/// The matches of one object among many.
pub struct ObjectMatches {
    pub object_id: String,
    pub cross_matches: Vec<CatalogJson>,
}

/// The answer with the matches of many objects, each of them once.
pub struct BatchXmatchResponse {
    pub status: String,
    pub message: String,
    pub data: Vec<ObjectMatches>,
}

pub open spec fn texts(names: Seq<String>) -> Seq<BsonValue> {
    names.map_values(|name: String| BsonValue::Text(name@))
}

fn text_list(names: &Vec<String>) -> (r: Bson)
    ensures
        bson_value(r) == BsonValue::List(texts(names@)),
{
    let mut values: Vec<Bson> = Vec::new();
    let n: usize = names.len();
    for i in 0..n
        invariant
            n == names@.len(),
            values@.len() == i,
            forall|k: int|
                0 <= k < i ==> bson_value(#[trigger] values@[k]) == BsonValue::Text(names@[k]@),
    {
        values.push(text(names[i].as_str()));
    }
    assert(bson_values(values@) =~= texts(names@));
    list(values)
}

/// Begins the lookup of the matches of many objects: one to a thousand.
pub fn get_objects_xmatches(
    authenticated: bool,
    survey: Survey,
    query: BatchXmatchQuery,
) -> (r: Result<BatchXmatch, Refusal>)
    ensures
        if !authenticated {
            r is Err && r->Err_0@ == RefusalView::Unauthorized
        } else if !has_matches(survey) {
            r is Err && r->Err_0@ == unsupported(survey)
        } else if !(1 <= query.object_ids@.len() <= MOST_OBJECTS) {
            r is Err && r->Err_0@ == RefusalView::BadRequest(
                "Must provide between 1 and 1000 object IDs"@,
            )
        } else {
            r == Ok::<BatchXmatch, Refusal>(BatchXmatch { survey, object_ids: query.object_ids })
        },
{
    if !authenticated {
        return Err(Refusal::Unauthorized);
    }
    if let Some(refusal) = check_survey(survey) {
        return Err(refusal);
    }
    if query.object_ids.len() == 0 || query.object_ids.len() > MOST_OBJECTS {
        return bad_request("Must provide between 1 and 1000 object IDs");
    }
    Ok(BatchXmatch { survey, object_ids: query.object_ids })
}

/// The JSON forms of documents.
pub open spec fn json_forms(docs: Seq<Seq<(Seq<char>, BsonValue)>>) -> Seq<JsonValue> {
    docs.map_values(|fields: Seq<(Seq<char>, BsonValue)>| form_or_nothing(document_json(fields)))
}

/// Whether each of the documents has a JSON form.
pub open spec fn have_forms(docs: Seq<Seq<(Seq<char>, BsonValue)>>) -> bool {
    forall|i: int| 0 <= i < docs.len() ==> document_json(#[trigger] docs[i]) is Some
}

/// Whether each match has a JSON form.
pub open spec fn matches_have_forms(
    catalogs: Seq<(Seq<char>, Seq<Seq<(Seq<char>, BsonValue)>>)>,
) -> bool {
    forall|i: int| 0 <= i < catalogs.len() ==> have_forms((#[trigger] catalogs[i]).1)
}

/// Matches, catalogue by catalogue, in JSON.
pub open spec fn json_catalogs(
    catalogs: Seq<(Seq<char>, Seq<Seq<(Seq<char>, BsonValue)>>)>,
) -> Seq<(Seq<char>, Seq<JsonValue>)> {
    catalogs.map_values(
        |catalog: (Seq<char>, Seq<Seq<(Seq<char>, BsonValue)>>)|
            (catalog.0, json_forms(catalog.1)),
    )
}

/// The matches of an object, catalogue by catalogue, in JSON.
pub open spec fn json_matches_of(object: Seq<(Seq<char>, BsonValue)>) -> Seq<
    (Seq<char>, Seq<JsonValue>),
> {
    json_catalogs(matches_of(object))
}

pub open spec fn json_views(catalogs: Seq<CatalogJson>) -> Seq<(Seq<char>, Seq<JsonValue>)> {
    catalogs.map_values(
        |catalog: CatalogJson| (catalog.catalog@, json_values(catalog.matches@)),
    )
}

pub open spec fn entry_view(entry: ObjectMatches) -> (Seq<char>, Seq<(Seq<char>, Seq<JsonValue>)>) {
    (entry.object_id@, json_views(entry.cross_matches@))
}

pub open spec fn batch_views(entries: Seq<ObjectMatches>) -> Seq<
    (Seq<char>, Seq<(Seq<char>, Seq<JsonValue>)>),
> {
    entries.map_values(|entry: ObjectMatches| entry_view(entry))
}

/// Whether an object is among the entries.
pub open spec fn has_entry<V>(entries: Seq<(Seq<char>, V)>, name: Seq<char>) -> bool {
    exists|i: int| 0 <= i < entries.len() && (#[trigger] entries[i]).0 == name
}

/// The entries with that of one object put in: in the place of an earlier one, or at the end.
pub open spec fn put<V>(entries: Seq<(Seq<char>, V)>, name: Seq<char>, value: V) -> Seq<
    (Seq<char>, V),
> {
    if has_entry(entries, name) {
        entries.map_values(
            |entry: (Seq<char>, V)|
                if entry.0 == name {
                    (name, value)
                } else {
                    entry
                },
        )
    } else {
        entries.push((name, value))
    }
}

/// Whether no entry names a catalogue twice.
pub open spec fn catalogs_once(
    entries: Seq<(Seq<char>, Seq<(Seq<char>, Seq<JsonValue>)>)>,
) -> bool {
    forall|i: int| 0 <= i < entries.len() ==> each_once((#[trigger] entries[i]).1)
}

/// The entries for the objects that were read, one after the other. An object whose identifier is
/// no text is left out.
pub open spec fn batch_entries(objects: Seq<Seq<(Seq<char>, BsonValue)>>) -> Seq<
    (Seq<char>, Seq<(Seq<char>, Seq<JsonValue>)>),
>
    decreases objects.len(),
{
    if objects.len() == 0 {
        seq![]
    } else {
        let earlier = batch_entries(objects.drop_last());
        match field_value(objects.last(), "_id"@) {
            Some(BsonValue::Text(object_id)) => put(
                earlier,
                object_id,
                json_matches_of(objects.last()),
            ),
            _ => earlier,
        }
    }
}

fn json_list(docs: &Vec<Document>) -> (r: Vec<Value>)
    ensures
        json_values(r@) == json_forms(all_fields(docs@)),
{
    let mut values: Vec<Value> = Vec::new();
    let n: usize = docs.len();
    for i in 0..n
        invariant
            n == docs@.len(),
            values@.len() == i,
            forall|k: int|
                0 <= k < i ==> json_value(#[trigger] values@[k]) == form_or_nothing(
                    document_json(document_fields(docs@[k])),
                ),
    {
        values.push(json_of_document(&docs[i]));
    }
    assert(json_values(values@) =~= json_forms(all_fields(docs@)));
    values
}

fn every_json(docs: &Vec<Document>) -> (r: Option<Vec<Value>>)
    ensures
        match r {
            Some(values) => {
                &&& have_forms(all_fields(docs@))
                &&& json_values(values@) == json_forms(all_fields(docs@))
            },
            None => !have_forms(all_fields(docs@)),
        },
{
    let mut values: Vec<Value> = Vec::new();
    let n: usize = docs.len();
    for i in 0..n
        invariant
            n == docs@.len(),
            values@.len() == i,
            forall|k: int|
                0 <= k < i ==> document_json(document_fields(#[trigger] docs@[k])) is Some,
            forall|k: int|
                0 <= k < i ==> json_value(#[trigger] values@[k]) == form_or_nothing(
                    document_json(document_fields(docs@[k])),
                ),
    {
        match to_json(&docs[i]) {
            Some(value) => {
                values.push(value);
            },
            None => {
                assert(document_json(all_fields(docs@)[i as int]) is None);
                return None;
            },
        }
    }
    assert(json_values(values@) =~= json_forms(all_fields(docs@)));
    Some(values)
}

impl XmatchResponse {
    /// The matches in JSON, each catalogue once. Where a match has no JSON form, nothing.
    pub fn in_json(&self) -> (r: Option<Vec<CatalogJson>>)
        ensures
            match r {
                Some(catalogs) => {
                    &&& matches_have_forms(catalog_views(self.data@))
                    &&& json_views(catalogs@) == json_catalogs(catalog_views(self.data@))
                    &&& each_once(catalog_views(self.data@)) ==> each_once(json_views(catalogs@))
                },
                None => !matches_have_forms(catalog_views(self.data@)),
            },
    {
        let ghost views = catalog_views(self.data@);
        let mut out: Vec<CatalogJson> = Vec::new();
        let n: usize = self.data.len();
        for i in 0..n
            invariant
                n == self.data@.len(),
                views == catalog_views(self.data@),
                out@.len() == i,
                forall|k: int| 0 <= k < i ==> have_forms((#[trigger] views[k]).1),
                forall|k: int|
                    0 <= k < i ==> {
                        &&& (#[trigger] out@[k]).catalog@ == views[k].0
                        &&& json_values(out@[k].matches@) == json_forms(views[k].1)
                    },
        {
            let held = &self.data[i];
            assert(views[i as int] == (held.catalog@, all_fields(held.matches@)));
            match every_json(&held.matches) {
                Some(matches) => {
                    out.push(CatalogJson { catalog: held.catalog.clone(), matches });
                },
                None => {
                    return None;
                },
            }
        }
        assert(json_views(out@) =~= json_catalogs(views));
        Some(out)
    }
}

fn json_matches(object: &Document) -> (r: Vec<CatalogJson>)
    ensures
        json_views(r@) == json_matches_of(document_fields(*object)),
        each_once(json_views(r@)),
{
    let catalogs = cross_matches_of(object);
    let mut out: Vec<CatalogJson> = Vec::new();
    let n: usize = catalogs.len();
    for i in 0..n
        invariant
            n == catalogs@.len(),
            out@.len() == i,
            forall|k: int|
                0 <= k < i ==> {
                    &&& (#[trigger] out@[k]).catalog@ == catalogs@[k].catalog@
                    &&& json_values(out@[k].matches@) == json_forms(
                        all_fields(catalogs@[k].matches@),
                    )
                },
    {
        out.push(
            CatalogJson {
                catalog: catalogs[i].catalog.clone(),
                matches: json_list(&catalogs[i].matches),
            },
        );
    }
    assert(json_views(out@) =~= json_matches_of(document_fields(*object))) by {
        let views = catalog_views(catalogs@);
        assert forall|k: int| 0 <= k < n implies #[trigger] json_views(out@)[k]
            == json_matches_of(document_fields(*object))[k] by {
            assert(views[k] == (catalogs@[k].catalog@, all_fields(catalogs@[k].matches@)));
        }
    }
    assert forall|k: int, m: int| 0 <= k < m < n implies (#[trigger] json_views(out@)[k]).0 != (
    #[trigger] json_views(out@)[m]).0 by {
        assert(catalog_views(catalogs@)[k].0 != catalog_views(catalogs@)[m].0);
    }
    out
}

fn put_entry(entries: &mut Vec<ObjectMatches>, entry: ObjectMatches)
    requires
        each_once(batch_views(old(entries)@)),
    ensures
        batch_views(final(entries)@) == put(
            batch_views(old(entries)@),
            entry.object_id@,
            json_views(entry.cross_matches@),
        ),
        catalogs_once(batch_views(old(entries)@)) && each_once(json_views(entry.cross_matches@))
            ==> catalogs_once(batch_views(final(entries)@)),
{
    let ghost views = batch_views(entries@);
    let ghost name = entry.object_id@;
    let n: usize = entries.len();
    let mut i: usize = 0;
    while i < n
        invariant
            n == entries@.len(),
            i <= n,
            entries@ == old(entries)@,
            views == batch_views(old(entries)@),
            each_once(views),
            name == entry.object_id@,
            forall|k: int| 0 <= k < i ==> (#[trigger] views[k]).0 != name,
        decreases n - i,
    {
        assert(views[i as int] == entry_view(entries@[i as int]));
        if entries[i].object_id == entry.object_id {
            assert(has_entry(views, name));
            entries.set(i, entry);
            assert(batch_views(entries@) =~= put(views, name, json_views(entry.cross_matches@)));
            return;
        }
        i += 1;
    }
    assert(!has_entry(views, name));
    entries.push(entry);
    assert(batch_views(entries@) =~= put(views, name, json_views(entry.cross_matches@)));
}

/// Whether no name has two entries.
pub open spec fn each_once<V>(entries: Seq<(Seq<char>, V)>) -> bool {
    forall|i: int, j: int|
        0 <= i < j < entries.len() ==> (#[trigger] entries[i]).0 != (#[trigger] entries[j]).0
}

/// Putting an entry in leaves no name with two.
proof fn lemma_put_each_once<V>(entries: Seq<(Seq<char>, V)>, name: Seq<char>, value: V)
    requires
        each_once(entries),
    ensures
        each_once(put(entries, name, value)),
{
    let out = put(entries, name, value);
    assert forall|i: int, j: int| 0 <= i < j < out.len() implies (#[trigger] out[i]).0 != (
    #[trigger] out[j]).0 by {
        assert(i < entries.len() ==> out[i].0 == entries[i].0);
        assert(j < entries.len() ==> out[j].0 == entries[j].0);
    }
}

/// However often an object was read, it has one entry.
pub proof fn law_each_object_once(objects: Seq<Seq<(Seq<char>, BsonValue)>>)
    ensures
        each_once(batch_entries(objects)),
    decreases objects.len(),
{
    if objects.len() > 0 {
        law_each_object_once(objects.drop_last());
        match field_value(objects.last(), "_id"@) {
            Some(BsonValue::Text(object_id)) => {
                lemma_put_each_once(
                    batch_entries(objects.drop_last()),
                    object_id,
                    json_matches_of(objects.last()),
                );
            },
            _ => {},
        }
    }
}

/// An object has an entry just where it was read with a text for its identifier.
pub proof fn law_objects_read_have_entries(
    objects: Seq<Seq<(Seq<char>, BsonValue)>>,
    name: Seq<char>,
)
    ensures
        has_entry(batch_entries(objects), name) <==> exists|k: int|
            0 <= k < objects.len() && field_value(#[trigger] objects[k], "_id"@) == Some(
                BsonValue::Text(name),
            ),
    decreases objects.len(),
{
    if objects.len() > 0 {
        let n = objects.len() - 1;
        let rest = objects.drop_last();
        let earlier = batch_entries(rest);
        let all = batch_entries(objects);
        law_objects_read_have_entries(rest, name);
        assert forall|k: int| 0 <= k < n implies #[trigger] objects[k] == rest[k] by {}
        if exists|k: int|
            0 <= k < rest.len() && field_value(#[trigger] rest[k], "_id"@) == Some(
                BsonValue::Text(name),
            ) {
            let k = choose|k: int|
                0 <= k < rest.len() && field_value(#[trigger] rest[k], "_id"@) == Some(
                    BsonValue::Text(name),
                );
            assert(objects[k] == rest[k]);
        }
        match field_value(objects.last(), "_id"@) {
            Some(BsonValue::Text(object_id)) => {
                if has_entry(earlier, object_id) {
                    assert forall|i: int| 0 <= i < all.len() implies (#[trigger] all[i]).0
                        == earlier[i].0 by {}
                    if has_entry(earlier, name) {
                        let i = choose|i: int|
                            0 <= i < earlier.len() && (#[trigger] earlier[i]).0 == name;
                        assert(all[i].0 == name);
                    }
                    if object_id == name {
                        assert(field_value(objects[n], "_id"@) == Some(BsonValue::Text(name)));
                    }
                } else {
                    assert(all[earlier.len() as int].0 == object_id);
                    if has_entry(earlier, name) {
                        let i = choose|i: int|
                            0 <= i < earlier.len() && (#[trigger] earlier[i]).0 == name;
                        assert(all[i].0 == name);
                    }
                    if object_id == name {
                        assert(field_value(objects[n], "_id"@) == Some(BsonValue::Text(name)));
                    }
                }
            },
            _ => {},
        }
    }
}

/// Of an object that was read several times, the entry is that of the last time.
pub proof fn law_the_last_reading_counts(
    objects: Seq<Seq<(Seq<char>, BsonValue)>>,
    name: Seq<char>,
    last: int,
    place: int,
)
    requires
        0 <= last < objects.len(),
        field_value(objects[last], "_id"@) == Some(BsonValue::Text(name)),
        forall|k: int|
            last < k < objects.len() ==> field_value(#[trigger] objects[k], "_id"@) != Some(
                BsonValue::Text(name),
            ),
        0 <= place < batch_entries(objects).len(),
        batch_entries(objects)[place].0 == name,
    ensures
        batch_entries(objects)[place].1 == json_matches_of(objects[last]),
    decreases objects.len(),
{
    let n = objects.len() - 1;
    let rest = objects.drop_last();
    let earlier = batch_entries(rest);
    if last < n {
        assert forall|k: int| last < k < rest.len() implies field_value(#[trigger] rest[k], "_id"@)
            != Some(BsonValue::Text(name)) by {
            assert(objects[k] == rest[k]);
        }
        assert(objects[n] == objects.last());
        match field_value(objects.last(), "_id"@) {
            Some(BsonValue::Text(object_id)) => {
                assert(object_id != name);
                assert(place < earlier.len() && earlier[place] == batch_entries(objects)[place]);
            },
            _ => {},
        }
        law_the_last_reading_counts(rest, name, last, place);
    }
}

impl BatchXmatch {
    /// What to ask for.
    pub fn query(&self) -> (r: FindQuery)
        ensures
            r@ == (FindQueryView {
                collection: self.survey.label() + "_alerts_aux"@,
                filter: seq![
                    (
                        "_id"@,
                        BsonValue::Fields(
                            seq![("$in"@, BsonValue::List(texts(self.object_ids@)))],
                        ),
                    ),
                ],
                sort: None,
                projection: Some(matches_projection()),
                limit: None,
            }),
    {
        FindQuery {
            collection: self.survey.aux_collection(),
            filter: doc1("_id", object1("$in", text_list(&self.object_ids))),
            sort: None,
            projection: Some(only_matches()),
            limit: None,
        }
    }

    /// Takes the objects and answers with their matches. A failure while they are read ends them
    /// without a word.
    pub fn found(self, rows: Rows<Document>) -> (r: Result<BatchXmatchResponse, Refusal>)
        ensures
            match rows {
                Rows::NotOpened { error } => r is Err && r->Err_0@ == RefusalView::InternalError(
                    "error querying database: "@ + error@,
                ),
                Rows::Read { rows, .. } => {
                    &&& r is Ok
                    &&& r->Ok_0.status@ == "success"@
                    &&& batch_views(r->Ok_0.data@) == batch_entries(all_fields(rows@))
                    &&& each_once(batch_views(r->Ok_0.data@))
                    &&& catalogs_once(batch_views(r->Ok_0.data@))
                    &&& r->Ok_0.message@ == "Found cross-matches for "@ + decimal(
                        r->Ok_0.data@.len() as int,
                    ) + " objects"@
                },
            },
    {
        match rows {
            Rows::NotOpened { error } => internal_error(
                "error querying database: ",
                error.as_str(),
            ),
            Rows::Read { rows, .. } => {
                let data = collect_entries(&rows);
                let count = count_string(data.len());
                Ok(
                    BatchXmatchResponse {
                        status: "success".to_owned(),
                        message: concat3("Found cross-matches for ", count.as_str(), " objects"),
                        data,
                    },
                )
            },
        }
    }
}

fn collect_entries(rows: &Vec<Document>) -> (r: Vec<ObjectMatches>)
    ensures
        batch_views(r@) == batch_entries(all_fields(rows@)),
        each_once(batch_views(r@)),
        catalogs_once(batch_views(r@)),
{
    let ghost objects = all_fields(rows@);
    let mut data: Vec<ObjectMatches> = Vec::new();
    assert(batch_views(data@) =~= batch_entries(objects.take(0)));
    let n: usize = rows.len();
    for i in 0..n
        invariant
            n == rows@.len(),
            objects == all_fields(rows@),
            batch_views(data@) == batch_entries(objects.take(i as int)),
            catalogs_once(batch_views(data@)),
    {
        proof {
            assert(objects.take(i + 1).drop_last() =~= objects.take(i as int));
            assert(objects.take(i + 1).last() == document_fields(rows@[i as int]));
            law_each_object_once(objects.take(i as int));
        }
        let row = &rows[i];
        let id = match get(row, "_id") {
            Some(value) => value.as_str(),
            None => None,
        };
        if let Some(object_id) = id {
            put_entry(
                &mut data,
                ObjectMatches { object_id: object_id.to_owned(), cross_matches: json_matches(row) },
            );
        }
    }
    proof {
        assert(objects.take(n as int) =~= objects);
        law_each_object_once(objects);
    }
    data
}

} // verus!
