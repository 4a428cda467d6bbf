//! What cross-matches are answered: laws on what the lookups return.

use crate::document::{all_fields, document_fields, field_value, BsonValue};
use crate::json::{
    document_json, json_of_document, json_value, json_values, JsonValue,
};
use crate::number_laws::{lemma_no_leading_zero, writes};
use crate::query::Rows;
use crate::reply::Refusal;
use crate::survey::Survey;
use crate::text::{decimal_digits, law_decimal_writes_the_number};
use crate::xmatch::{
    batch_entries, batch_views, catalog_views, cross_matches_of, documents_among, documents_in,
    each_once, entry_view, get_object_xmatches, get_objects_xmatches, has_entry, have_forms,
    json_catalogs, json_forms, json_matches_of, json_views, law_objects_read_have_entries,
    law_the_last_reading_counts, matches_of, BatchXmatch, BatchXmatchQuery, BatchXmatchResponse,
    CatalogJson, CatalogMatches, XmatchLookup, XmatchResponse,
};
use mongodb::bson::Document;
use serde_json::Value;
use vstd::prelude::*;

verus! {

/// The documents that a value holds as a list: none, where it is no list.
pub open spec fn listed(value: BsonValue) -> Seq<Seq<(Seq<char>, BsonValue)>> {
    match value {
        BsonValue::List(values) => values.filter(|v: BsonValue| v is Fields).map_values(
            |v: BsonValue| v->Fields_0,
        ),
        _ => seq![],
    }
}

/// The catalogues that an object holds matches in: none, where it holds no matches.
pub open spec fn catalogues(object: Seq<(Seq<char>, BsonValue)>) -> Seq<(Seq<char>, BsonValue)> {
    match field_value(object, "cross_matches"@) {
        Some(BsonValue::Fields(fields)) => fields,
        _ => seq![],
    }
}

/// Whether these are the matches of an object, catalogue by catalogue.
pub open spec fn are_matches(
    catalogs: Seq<CatalogMatches>,
    object: Seq<(Seq<char>, BsonValue)>,
) -> bool {
    &&& catalogs.len() == catalogues(object).len()
    &&& forall|i: int|
        0 <= i < catalogs.len() ==> {
            &&& (#[trigger] catalogs[i]).catalog@ == catalogues(object)[i].0
            &&& catalogs[i].matches@.len() == listed(catalogues(object)[i].1).len()
            &&& forall|k: int|
                0 <= k < catalogs[i].matches@.len() ==> document_fields(
                    #[trigger] catalogs[i].matches@[k],
                ) == listed(catalogues(object)[i].1)[k]
        }
    &&& forall|i: int, j: int|
        0 <= i < j < catalogs.len() ==> (#[trigger] catalogs[i]).catalog@ != (
        #[trigger] catalogs[j]).catalog@
}

proof fn lemma_listed(value: BsonValue)
    ensures
        documents_in(value) == listed(value),
{
    if let BsonValue::List(values) = value {
        assert(documents_among(values) =~= listed(value));
    }
}

proof fn lemma_matches(catalogs: Seq<CatalogMatches>, object: Seq<(Seq<char>, BsonValue)>)
    requires
        catalog_views(catalogs) == matches_of(object),
        each_once(catalog_views(catalogs)),
    ensures
        are_matches(catalogs, object),
{
    let views = catalog_views(catalogs);
    let held = catalogues(object);
    assert(views.len() == catalogs.len());
    assert(matches_of(object).len() == held.len());
    assert forall|i: int| 0 <= i < catalogs.len() implies {
        &&& (#[trigger] catalogs[i]).catalog@ == held[i].0
        &&& catalogs[i].matches@.len() == listed(held[i].1).len()
        &&& forall|k: int|
            0 <= k < catalogs[i].matches@.len() ==> document_fields(
                #[trigger] catalogs[i].matches@[k],
            ) == listed(held[i].1)[k]
    } by {
        assert(views[i] == (catalogs[i].catalog@, all_fields(catalogs[i].matches@)));
        assert(matches_of(object)[i] == (held[i].0, documents_in(held[i].1)));
        lemma_listed(held[i].1);
        let docs = all_fields(catalogs[i].matches@);
        assert forall|k: int| 0 <= k < catalogs[i].matches@.len() implies document_fields(
            #[trigger] catalogs[i].matches@[k],
        ) == listed(held[i].1)[k] by {
            assert(docs[k] == document_fields(catalogs[i].matches@[k]));
        }
    }
    assert forall|i: int, j: int| 0 <= i < j < catalogs.len() implies (
    #[trigger] catalogs[i]).catalog@ != (#[trigger] catalogs[j]).catalog@ by {
        assert(views[i].0 != views[j].0);
    }
}

/// The matches of an object are read catalogue by catalogue: under each name the documents that the
/// object holds there, in their order, and nothing else.
pub proof fn law_the_matches_are_those_of_the_object(object: Document, r: Vec<CatalogMatches>)
    requires
        call_ensures(cross_matches_of, (&object,), r),
    ensures
        are_matches(r@, document_fields(object)),
{
    lemma_matches(r@, document_fields(object));
}

/// Matches can be asked for by somebody who is logged in, of ZTF and LSST, for one object or for
/// one to a thousand: those that are named.
pub proof fn law_matches_are_looked_up_for_the_named_objects(
    authenticated: bool,
    survey: Survey,
    object_id: String,
    one: Result<XmatchLookup, Refusal>,
    query: BatchXmatchQuery,
    many: Result<BatchXmatch, Refusal>,
)
    requires
        call_ensures(get_object_xmatches, (authenticated, survey, object_id), one),
        call_ensures(get_objects_xmatches, (authenticated, survey, query), many),
    ensures
        one is Ok <==> authenticated && survey != Survey::Decam,
        many is Ok <==> authenticated && survey != Survey::Decam && 1 <= query.object_ids@.len()
            <= 1000,
        !authenticated ==> one->Err_0 is Unauthorized && many->Err_0 is Unauthorized,
        authenticated && one is Err ==> one->Err_0 is BadRequest,
        authenticated && many is Err ==> many->Err_0 is BadRequest,
        one is Ok ==> one->Ok_0.survey == survey && one->Ok_0.object_id == object_id,
        many is Ok ==> many->Ok_0.survey == survey && many->Ok_0.object_ids == query.object_ids,
{
}

/// An object that is found is answered with its matches; one that is not is reported as missing,
/// and a failure as one.
pub proof fn law_an_object_is_answered_with_its_matches(
    lookup: XmatchLookup,
    outcome: Result<Option<Document>, String>,
    r: Result<XmatchResponse, Refusal>,
)
    requires
        call_ensures(XmatchLookup::found, (lookup, outcome), r),
    ensures
        match outcome {
            Err(_) => r is Err && r->Err_0 is InternalError,
            Ok(None) => {
                &&& r is Err && r->Err_0 is NotFound
                &&& r->Err_0->NotFound_0@ == "no aux entry found for object id "@
                    + lookup.object_id@
            },
            Ok(Some(object)) => {
                &&& r is Ok
                &&& r->Ok_0.status@ == "success"@
                &&& r->Ok_0.message@ == "Found cross-matches for object "@ + lookup.object_id@
                &&& are_matches(r->Ok_0.data@, document_fields(object))
            },
        },
{
    if let Ok(Some(object)) = outcome {
        lemma_matches(r->Ok_0.data@, document_fields(object));
    }
}

/// In JSON each catalogue keeps its name and its matches, each in its own form. Where a match has
/// none, there is no answer.
pub proof fn law_matches_keep_their_places_in_json(
    response: XmatchResponse,
    r: Option<Vec<CatalogJson>>,
)
    requires
        call_ensures(XmatchResponse::in_json, (&response,), r),
    ensures
        r is Some <==> forall|i: int, k: int|
            0 <= i < response.data@.len() && 0 <= k < response.data@[i].matches@.len()
                ==> document_json(
                document_fields(#[trigger] response.data@[i].matches@[k]),
            ) is Some,
        r is Some ==> r->Some_0@.len() == response.data@.len(),
        r is Some ==> forall|i: int|
            0 <= i < response.data@.len() ==> {
                &&& (#[trigger] r->Some_0@[i]).catalog@ == response.data@[i].catalog@
                &&& r->Some_0@[i].matches@.len() == response.data@[i].matches@.len()
                &&& forall|k: int|
                    0 <= k < response.data@[i].matches@.len() ==> Some(
                        json_value(#[trigger] r->Some_0@[i].matches@[k]),
                    ) == document_json(document_fields(response.data@[i].matches@[k]))
            },
{
    let views = catalog_views(response.data@);
    assert(views.len() == response.data@.len());
    assert forall|i: int| 0 <= i < views.len() implies #[trigger] views[i] == (
        response.data@[i].catalog@,
        all_fields(response.data@[i].matches@),
    ) by {}
    if let Some(catalogs) = r {
        assert forall|i: int, k: int|
            0 <= i < response.data@.len() && 0 <= k
                < response.data@[i].matches@.len() implies document_json(
            document_fields(#[trigger] response.data@[i].matches@[k]),
        ) is Some by {
            let docs = all_fields(response.data@[i].matches@);
            assert(have_forms(views[i].1));
            assert(docs[k] == document_fields(response.data@[i].matches@[k]));
        }
        let out = json_views(catalogs@);
        assert(out.len() == catalogs@.len());
        assert(json_catalogs(views).len() == views.len());
        assert forall|i: int| 0 <= i < response.data@.len() implies {
            &&& (#[trigger] catalogs@[i]).catalog@ == response.data@[i].catalog@
            &&& catalogs@[i].matches@.len() == response.data@[i].matches@.len()
            &&& forall|k: int|
                0 <= k < response.data@[i].matches@.len() ==> Some(
                    json_value(#[trigger] catalogs@[i].matches@[k]),
                ) == document_json(document_fields(response.data@[i].matches@[k]))
        } by {
            assert(out[i] == (catalogs@[i].catalog@, json_values(catalogs@[i].matches@)));
            assert(json_catalogs(views)[i] == (views[i].0, json_forms(views[i].1)));
            let forms = json_values(catalogs@[i].matches@);
            let docs = all_fields(response.data@[i].matches@);
            assert(forms.len() == catalogs@[i].matches@.len());
            assert(json_forms(docs).len() == docs.len());
            assert forall|k: int| 0 <= k < response.data@[i].matches@.len() implies Some(
                json_value(#[trigger] catalogs@[i].matches@[k]),
            ) == document_json(document_fields(response.data@[i].matches@[k])) by {
                assert(forms[k] == json_value(catalogs@[i].matches@[k]));
                assert(docs[k] == document_fields(response.data@[i].matches@[k]));
                assert(document_json(document_fields(response.data@[i].matches@[k])) is Some);
            }
        }
    } else {
        let i = choose|i: int|
            0 <= i < views.len() && !have_forms((#[trigger] views[i]).1);
        let docs = views[i].1;
        let k = choose|k: int| 0 <= k < docs.len() && !(document_json(#[trigger] docs[k]) is Some);
        assert(docs[k] == document_fields(response.data@[i].matches@[k]));
    }
}

/// Whether these are the matches of an object, catalogue by catalogue, in JSON; null stands for a
/// match that has no form.
pub open spec fn are_json_matches(
    catalogs: Seq<CatalogJson>,
    object: Seq<(Seq<char>, BsonValue)>,
) -> bool {
    &&& catalogs.len() == catalogues(object).len()
    &&& forall|i: int|
        0 <= i < catalogs.len() ==> {
            &&& (#[trigger] catalogs[i]).catalog@ == catalogues(object)[i].0
            &&& catalogs[i].matches@.len() == listed(catalogues(object)[i].1).len()
            &&& forall|k: int|
                0 <= k < catalogs[i].matches@.len() ==> json_value(
                    #[trigger] catalogs[i].matches@[k],
                ) == (match document_json(listed(catalogues(object)[i].1)[k]) {
                    Some(form) => form,
                    None => JsonValue::Nothing,
                })
        }
}

proof fn lemma_json_matches(catalogs: Seq<CatalogJson>, object: Seq<(Seq<char>, BsonValue)>)
    requires
        json_views(catalogs) == json_matches_of(object),
    ensures
        are_json_matches(catalogs, object),
{
    let views = json_views(catalogs);
    let held = catalogues(object);
    assert(views.len() == catalogs.len());
    assert(matches_of(object).len() == held.len());
    assert(json_matches_of(object).len() == held.len());
    assert forall|i: int| 0 <= i < catalogs.len() implies {
        &&& (#[trigger] catalogs[i]).catalog@ == held[i].0
        &&& catalogs[i].matches@.len() == listed(held[i].1).len()
        &&& forall|k: int|
            0 <= k < catalogs[i].matches@.len() ==> json_value(
                #[trigger] catalogs[i].matches@[k],
            ) == (match document_json(listed(held[i].1)[k]) {
                Some(form) => form,
                None => JsonValue::Nothing,
            })
    } by {
        assert(views[i] == (catalogs[i].catalog@, json_values(catalogs[i].matches@)));
        assert(matches_of(object)[i] == (held[i].0, documents_in(held[i].1)));
        assert(json_matches_of(object)[i] == (held[i].0, json_forms(matches_of(object)[i].1)));
        lemma_listed(held[i].1);
        let forms = json_values(catalogs[i].matches@);
        let docs = listed(held[i].1);
        assert(forms.len() == catalogs[i].matches@.len());
        assert(json_forms(docs).len() == docs.len());
        assert forall|k: int| 0 <= k < catalogs[i].matches@.len() implies json_value(
            #[trigger] catalogs[i].matches@[k],
        ) == (match document_json(docs[k]) {
            Some(form) => form,
            None => JsonValue::Nothing,
        }) by {
            assert(forms[k] == json_value(catalogs[i].matches@[k]));
            assert(json_forms(docs)[k] == forms[k]);
        }
    }
}

/// Many objects are answered once each: one whose identifier was read as a text has an entry, with
/// the matches of the last time that it was read, and there is no other entry. The message says how
/// many there are.
pub proof fn law_each_object_is_answered_with_its_last_reading(
    batch: BatchXmatch,
    rows: Rows<Document>,
    r: Result<BatchXmatchResponse, Refusal>,
    name: Seq<char>,
    last: int,
)
    requires
        call_ensures(BatchXmatch::found, (batch, rows), r),
    ensures
        r is Ok <==> rows is Read,
        r is Err ==> r->Err_0 is InternalError,
        r is Ok ==> {
            let data = r->Ok_0.data@;
            let read = rows->rows@;
            &&& r->Ok_0.status@ == "success"@
            &&& exists|digits: Seq<char>| #[trigger]
                writes(digits, data.len() as int) && r->Ok_0.message@
                    == "Found cross-matches for "@ + digits + " objects"@
            &&& forall|i: int, j: int|
                0 <= i < j < data.len() ==> (#[trigger] data[i]).object_id@ != (
                #[trigger] data[j]).object_id@
            &&& (exists|i: int| 0 <= i < data.len() && (#[trigger] data[i]).object_id@ == name)
                <==> exists|k: int|
                0 <= k < read.len() && field_value(
                    document_fields(#[trigger] read[k]),
                    "_id"@,
                ) == Some(BsonValue::Text(name))
            &&& 0 <= last < read.len() && field_value(document_fields(read[last]), "_id"@) == Some(
                BsonValue::Text(name),
            ) && (forall|k: int|
                last < k < read.len() ==> field_value(
                    document_fields(#[trigger] read[k]),
                    "_id"@,
                ) != Some(BsonValue::Text(name))) ==> forall|i: int|
                0 <= i < data.len() && (#[trigger] data[i]).object_id@ == name ==> are_json_matches(
                    data[i].cross_matches@,
                    document_fields(read[last]),
                )
        },
{
    if let Rows::Read { rows: read, .. } = rows {
        let data = r->Ok_0.data@;
        let objects = all_fields(read@);
        let views = batch_views(data);
        let n = data.len() as int;
        assert(views.len() == n);
        assert(views == batch_entries(objects));
        law_decimal_writes_the_number(n);
        lemma_no_leading_zero(n as nat);
        assert(writes(decimal_digits(n as nat), n));
        assert forall|i: int| 0 <= i < n implies #[trigger] views[i] == (
            data[i].object_id@,
            json_views(data[i].cross_matches@),
        ) by {
            assert(views[i] == entry_view(data[i]));
        }
        assert forall|i: int, j: int| 0 <= i < j < n implies (#[trigger] data[i]).object_id@ != (
        #[trigger] data[j]).object_id@ by {
            assert(views[i].0 != views[j].0);
        }
        law_objects_read_have_entries(objects, name);
        if exists|i: int| 0 <= i < n && (#[trigger] data[i]).object_id@ == name {
            let i = choose|i: int| 0 <= i < n && (#[trigger] data[i]).object_id@ == name;
            assert(views[i].0 == name);
            assert(has_entry(views, name));
            let k = choose|k: int|
                0 <= k < objects.len() && field_value(#[trigger] objects[k], "_id"@) == Some(
                    BsonValue::Text(name),
                );
            assert(objects[k] == document_fields(read@[k]));
        }
        if exists|k: int|
            0 <= k < read@.len() && field_value(document_fields(#[trigger] read@[k]), "_id"@)
                == Some(BsonValue::Text(name)) {
            let k = choose|k: int|
                0 <= k < read@.len() && field_value(document_fields(#[trigger] read@[k]), "_id"@)
                    == Some(BsonValue::Text(name));
            assert(objects[k] == document_fields(read@[k]));
            assert(has_entry(views, name));
            let i = choose|i: int| 0 <= i < views.len() && (#[trigger] views[i]).0 == name;
            assert(data[i].object_id@ == name);
        }
        if 0 <= last < read@.len() && field_value(document_fields(read@[last]), "_id"@) == Some(
            BsonValue::Text(name),
        ) && (forall|k: int|
            last < k < read@.len() ==> field_value(document_fields(#[trigger] read@[k]), "_id"@)
                != Some(BsonValue::Text(name))) {
            assert forall|k: int| last < k < objects.len() implies field_value(
                #[trigger] objects[k],
                "_id"@,
            ) != Some(BsonValue::Text(name)) by {
                assert(objects[k] == document_fields(read@[k]));
            }
            assert(objects[last] == document_fields(read@[last]));
            assert forall|i: int|
                0 <= i < n && (#[trigger] data[i]).object_id@ == name implies are_json_matches(
                data[i].cross_matches@,
                document_fields(read@[last]),
            ) by {
                assert(views[i].0 == name);
                law_the_last_reading_counts(objects, name, last, i);
                lemma_json_matches(data[i].cross_matches@, document_fields(read@[last]));
            }
        }
    }
}

/// The JSON form of a document is the one that it has, or null.
pub proof fn law_a_document_has_its_own_form(doc: Document, r: Value)
    requires
        call_ensures(json_of_document, (&doc,), r),
    ensures
        match document_json(document_fields(doc)) {
            Some(form) => json_value(r) == form,
            None => json_value(r) == JsonValue::Nothing,
        },
{
}

} // verus!
