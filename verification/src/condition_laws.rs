//! What is asked of the database: which documents meet the conditions of each request.

use crate::cone_search::ConeQuestion;
use crate::db::count_alerts_for_night;
use crate::document::{bson_value, document_fields, field_value, BsonValue};
use crate::geo::{near_filter, within_filter};
use crate::meaning::{
    at_path, is_among, lemma_one_condition, lemma_two_conditions, marked, meets, operator_holds,
    value_meets, Rules,
};
use crate::object_lookup::{
    LsstAuxLookup, LsstLookup, LsstNearestLookup, ZtfAuxLookup, ZtfLookup, ZtfNearestLookup,
};
use crate::position_search::{AimedSearch, PositionLsstSearch};
use crate::query::{CountQuery, FindOneQuery, FindQuery};
use crate::search::{
    some_element, sighting_condition, DesignationSearch, DesignationZtfSearch, ObjectIdSearch,
    PositionSearch,
};
use crate::survey::Survey;
use crate::xmatch::{texts, BatchXmatch, XmatchLookup};
use mongodb::bson::Bson;
use vstd::prelude::*;

verus! {

/// The collection of the alerts of a survey.
pub open spec fn alerts_of(survey: Survey) -> Seq<char> {
    match survey {
        Survey::Ztf => "ZTF_alerts"@,
        Survey::Lsst => "LSST_alerts"@,
        Survey::Decam => "DECAM_alerts"@,
    }
}

/// The collection of the objects of a survey.
pub open spec fn objects_of(survey: Survey) -> Seq<char> {
    match survey {
        Survey::Ztf => "ZTF_alerts_aux"@,
        Survey::Lsst => "LSST_alerts_aux"@,
        Survey::Decam => "DECAM_alerts_aux"@,
    }
}

proof fn lemma_collections(survey: Survey)
    ensures
        survey.label() + "_alerts"@ == alerts_of(survey),
        survey.label() + "_alerts_aux"@ == objects_of(survey),
{
    reveal_strlit("ZTF");
    reveal_strlit("LSST");
    reveal_strlit("DECAM");
    reveal_strlit("_alerts");
    reveal_strlit("_alerts_aux");
    reveal_strlit("ZTF_alerts");
    reveal_strlit("LSST_alerts");
    reveal_strlit("DECAM_alerts");
    reveal_strlit("ZTF_alerts_aux");
    reveal_strlit("LSST_alerts_aux");
    reveal_strlit("DECAM_alerts_aux");
    assert(survey.label() + "_alerts"@ =~= alerts_of(survey));
    assert(survey.label() + "_alerts_aux"@ =~= objects_of(survey));
}

proof fn lemma_keys()
    ensures
        "_id"@ != "$or"@,
        "objectId"@ != "$or"@,
        "designation"@ != "$or"@,
        "ssnamenr"@ != "$or"@,
        "ssdistnr"@ != "$or"@,
        "candidate.jd"@ != "$or"@,
        "candidate.programid"@ != "$or"@,
        "coordinates.radec_geojson"@ != "$or"@,
        "prv_candidates"@ != "$or"@,
        "prv_nondetections"@ != "$or"@,
{
    reveal_strlit("$or");
    reveal_strlit("_id");
    reveal_strlit("objectId");
    reveal_strlit("designation");
    reveal_strlit("ssnamenr");
    reveal_strlit("ssdistnr");
    reveal_strlit("candidate.jd");
    reveal_strlit("candidate.programid");
    reveal_strlit("coordinates.radec_geojson");
    reveal_strlit("prv_candidates");
    reveal_strlit("prv_nondetections");
    assert("$or"@[0] == '$');
    assert("_id"@[0] == '_' && "objectId"@[0] == 'o' && "designation"@[0] == 'd');
    assert("ssnamenr"@[0] == 's' && "ssdistnr"@[0] == 's' && "candidate.jd"@[0] == 'c');
    assert("candidate.programid"@[0] == 'c' && "coordinates.radec_geojson"@[0] == 'c');
    assert("prv_candidates"@[0] == 'p' && "prv_nondetections"@[0] == 'p');
}

proof fn lemma_condition_names()
    ensures
        "$in"@.len() == 3 && "$in"@[0] == '$' && "$in"@[1] == 'i',
        "$lt"@.len() == 3 && "$lt"@[0] == '$' && "$lt"@[1] == 'l',
        "$lte"@.len() == 4 && "$lte"@[0] == '$' && "$lte"@[1] == 'l',
        "$gte"@.len() == 4 && "$gte"@[0] == '$' && "$gte"@[1] == 'g',
        "$regex"@.len() == 6 && "$regex"@[0] == '$',
        "$geoWithin"@.len() == 10 && "$geoWithin"@[0] == '$' && "$geoWithin"@[1] == 'g',
        "$elemMatch"@.len() == 10 && "$elemMatch"@[0] == '$' && "$elemMatch"@[1] == 'e',
        "$nearSphere"@.len() == 11 && "$nearSphere"@[0] == '$',
        "$maxDistance"@.len() == 12 && "$maxDistance"@[0] == '$',
        "$centerSphere"@.len() == 13,
{
    reveal_strlit("$in");
    reveal_strlit("$lt");
    reveal_strlit("$lte");
    reveal_strlit("$gte");
    reveal_strlit("$regex");
    reveal_strlit("$geoWithin");
    reveal_strlit("$elemMatch");
    reveal_strlit("$nearSphere");
    reveal_strlit("$maxDistance");
    reveal_strlit("$centerSphere");
}

/// One operator of a condition.
proof fn lemma_operator(
    rules: Rules,
    value: Option<BsonValue>,
    operator: Seq<char>,
    argument: BsonValue,
    depth: nat,
)
    requires
        depth > 0,
        marked(operator),
        operator != "$nearSphere"@,
    ensures
        value_meets(rules, value, BsonValue::Fields(seq![(operator, argument)]), depth)
            == operator_holds(rules, value, operator, argument, (depth - 1) as nat),
{
    let asked = seq![(operator, argument)];
    assert(asked[0] == (operator, argument));
    assert(asked.drop_first() =~= seq![]);
    reveal_with_fuel(field_value, 2);
}

proof fn lemma_near(
    rules: Rules,
    doc: BsonValue,
    longitude: BsonValue,
    latitude: BsonValue,
    max_distance: BsonValue,
    depth: nat,
)
    ensures
        meets(rules, doc, near_filter(longitude, latitude, max_distance), depth) == (rules.within)(
            at_path(doc, "coordinates.radec_geojson"@),
            BsonValue::List(seq![longitude, latitude]),
            max_distance,
        ),
{
    lemma_keys();
    lemma_condition_names();
    let point = BsonValue::List(seq![longitude, latitude]);
    let asked = seq![("$nearSphere"@, point), ("$maxDistance"@, max_distance)];
    assert(asked[0] == ("$nearSphere"@, point));
    assert(asked.drop_first() =~= seq![("$maxDistance"@, max_distance)]);
    assert(asked.drop_first()[0] == ("$maxDistance"@, max_distance));
    reveal_with_fuel(field_value, 3);
    lemma_one_condition(
        rules,
        doc,
        "coordinates.radec_geojson"@,
        BsonValue::Fields(asked),
        depth,
    );
}

proof fn lemma_within(
    rules: Rules,
    doc: BsonValue,
    longitude: BsonValue,
    latitude: BsonValue,
    radius: BsonValue,
    depth: nat,
)
    requires
        depth > 0,
    ensures
        meets(rules, doc, within_filter(longitude, latitude, radius), depth) == (rules.within)(
            at_path(doc, "coordinates.radec_geojson"@),
            BsonValue::List(seq![longitude, latitude]),
            radius,
        ),
{
    lemma_keys();
    lemma_condition_names();
    let point = BsonValue::List(seq![longitude, latitude]);
    let circle = BsonValue::List(seq![point, radius]);
    let inner = seq![("$centerSphere"@, circle)];
    let asked = seq![("$geoWithin"@, BsonValue::Fields(inner))];
    assert(inner[0] == ("$centerSphere"@, circle));
    assert(field_value(inner, "$centerSphere"@) == Some(circle));
    assert(seq![point, radius][0] == point && seq![point, radius][1] == radius);
    let place = at_path(doc, "coordinates.radec_geojson"@);
    lemma_operator(rules, place, "$geoWithin"@, BsonValue::Fields(inner), depth);
    lemma_one_condition(
        rules,
        doc,
        "coordinates.radec_geojson"@,
        BsonValue::Fields(asked),
        depth,
    );
}

/// LSST is asked for up to the limit of the objects that have the designation.
pub proof fn law_lsst_is_asked_for_the_designation(
    search: DesignationSearch,
    r: FindQuery,
    rules: Rules,
    doc: BsonValue,
    depth: nat,
)
    requires
        call_ensures(DesignationSearch::lsst_query, (&search,), r),
    ensures
        r.collection@ == "LSST_alerts_aux"@,
        r.limit == Some(search.limit as i64),
        r.sort is None,
        r.projection is None,
        meets(rules, doc, document_fields(r.filter), depth) <==> (rules.equal)(
            at_path(doc, "designation"@),
            Some(BsonValue::Text(search.designation@)),
        ),
{
    lemma_collections(Survey::Lsst);
    lemma_keys();
    assert(r.collection@ == r@.collection && r.limit == r@.limit);
    assert(document_fields(r.filter) == r@.filter);
    assert(r@.sort is None && r@.projection is None);
    lemma_one_condition(
        rules,
        doc,
        "designation"@,
        BsonValue::Text(search.designation@),
        depth,
    );
}

/// Whether a list that a document holds has an element that names the solar system object, at most
/// so far away.
pub open spec fn sighted(
    rules: Rules,
    doc: BsonValue,
    list: Seq<char>,
    designation: Seq<char>,
    uncertainty: BsonValue,
) -> bool {
    match at_path(doc, list) {
        Some(BsonValue::List(values)) => exists|i: int|
            0 <= i < values.len() && (rules.equal)(
                at_path(#[trigger] values[i], "ssnamenr"@),
                Some(BsonValue::Text(designation)),
            ) && (rules.at_most)(at_path(values[i], "ssdistnr"@), Some(uncertainty)),
        _ => false,
    }
}

proof fn lemma_sighted(
    rules: Rules,
    doc: BsonValue,
    list: Seq<char>,
    designation: Seq<char>,
    uncertainty: BsonValue,
    depth: nat,
)
    requires
        depth >= 2,
        list != "$or"@,
    ensures
        meets(
            rules,
            doc,
            some_element(list, sighting_condition(designation, uncertainty))->Fields_0,
            depth,
        ) == sighted(rules, doc, list, designation, uncertainty),
{
    lemma_keys();
    lemma_condition_names();
    let limit = BsonValue::Fields(seq![("$lte"@, uncertainty)]);
    let condition = seq![("ssnamenr"@, BsonValue::Text(designation)), ("ssdistnr"@, limit)];
    let d1 = (depth - 1) as nat;
    let asked = BsonValue::Fields(seq![("$elemMatch"@, BsonValue::Fields(condition))]);
    lemma_one_condition(rules, doc, list, asked, depth);
    let held = at_path(doc, list);
    lemma_operator(rules, held, "$elemMatch"@, BsonValue::Fields(condition), depth);
    if let Some(BsonValue::List(values)) = held {
        assert forall|i: int| 0 <= i < values.len() implies meets(
            rules,
            #[trigger] values[i],
            condition,
            d1,
        ) == ((rules.equal)(
            at_path(values[i], "ssnamenr"@),
            Some(BsonValue::Text(designation)),
        ) && (rules.at_most)(at_path(values[i], "ssdistnr"@), Some(uncertainty))) by {
            lemma_two_conditions(
                rules,
                values[i],
                "ssnamenr"@,
                BsonValue::Text(designation),
                "ssdistnr"@,
                limit,
                d1,
            );
            lemma_operator(rules, at_path(values[i], "ssdistnr"@), "$lte"@, uncertainty, d1);
        }
    }
}

/// ZTF is asked for up to the limit of the objects of which one measurement, detected or not, names
/// the solar system object and is near enough to be it.
pub proof fn law_ztf_is_asked_for_the_designation(
    search: DesignationZtfSearch,
    uncertainty: Bson,
    r: FindQuery,
    rules: Rules,
    doc: BsonValue,
    depth: nat,
)
    requires
        call_ensures(DesignationZtfSearch::ztf_query, (&search, uncertainty), r),
        depth >= 3,
    ensures
        r.collection@ == "ZTF_alerts_aux"@,
        r.limit == Some(search.limit as i64),
        r.sort is None,
        r.projection is None,
        meets(rules, doc, document_fields(r.filter), depth) <==> sighted(
            rules,
            doc,
            "prv_candidates"@,
            search.designation@,
            bson_value(uncertainty),
        ) || sighted(
            rules,
            doc,
            "prv_nondetections"@,
            search.designation@,
            bson_value(uncertainty),
        ),
{
    lemma_collections(Survey::Ztf);
    lemma_keys();
    assert(r.collection@ == r@.collection && r.limit == r@.limit);
    assert(document_fields(r.filter) == r@.filter);
    assert(r@.sort is None && r@.projection is None);
    let condition = sighting_condition(search.designation@, bson_value(uncertainty));
    let d1 = (depth - 1) as nat;
    lemma_sighted(
        rules,
        doc,
        "prv_candidates"@,
        search.designation@,
        bson_value(uncertainty),
        d1,
    );
    lemma_sighted(
        rules,
        doc,
        "prv_nondetections"@,
        search.designation@,
        bson_value(uncertainty),
        d1,
    );
    let either = seq![
        some_element("prv_candidates"@, condition),
        some_element("prv_nondetections"@, condition),
    ];
    let filter = seq![("$or"@, BsonValue::List(either))];
    assert(filter[0] == ("$or"@, BsonValue::List(either)));
    assert(document_fields(r.filter) == filter);
    assert(either[0] == some_element("prv_candidates"@, condition));
    assert(either[1] == some_element("prv_nondetections"@, condition));
    if meets(rules, doc, filter, depth) {
        let k = choose|k: int|
            0 <= k < filter[0].1->List_0.len() && meets(
                rules,
                doc,
                (#[trigger] filter[0].1->List_0[k])->Fields_0,
                d1,
            );
        assert(k == 0 || k == 1);
    }
    if meets(rules, doc, either[0]->Fields_0, d1) || meets(rules, doc, either[1]->Fields_0, d1) {
        assert(filter[0].1->List_0[0] == either[0] && filter[0].1->List_0[1] == either[1]);
        assert(meets(rules, doc, filter, depth));
    }
}

/// A survey is asked for up to the limit of the objects whose identifier the beginning fits, from
/// the first letter on, in the order of the identifiers.
pub proof fn law_a_beginning_is_asked_for(
    search: ObjectIdSearch,
    r: FindQuery,
    rules: Rules,
    doc: BsonValue,
    depth: nat,
)
    requires
        call_ensures(ObjectIdSearch::query, (&search,), r),
        depth > 0,
    ensures
        r.collection@ == objects_of(search.survey),
        r.limit == Some(search.limit as i64),
        r.projection is None,
        r.sort is Some,
        document_fields(r.sort->Some_0) == seq![("_id"@, BsonValue::Int32(1))],
        meets(rules, doc, document_fields(r.filter), depth) <==> (rules.fits)(
            at_path(doc, "_id"@),
            BsonValue::Text("^"@ + search.beginning@),
        ),
{
    lemma_collections(search.survey);
    lemma_keys();
    lemma_condition_names();
    assert(r.collection@ == r@.collection && r.limit == r@.limit);
    assert(document_fields(r.filter) == r@.filter);
    assert(r@.sort is Some && r@.projection is None);
    let pattern = BsonValue::Text("^"@ + search.beginning@);
    lemma_one_condition(
        rules,
        doc,
        "_id"@,
        BsonValue::Fields(seq![("$regex"@, pattern)]),
        depth,
    );
    lemma_operator(rules, at_path(doc, "_id"@), "$regex"@, pattern, depth);
}

/// Both surveys are asked for up to the limit of the objects that are at most so far from the
/// point.
pub proof fn law_both_surveys_are_asked_around_the_point(
    search: PositionSearch,
    longitude: Bson,
    latitude: Bson,
    max_distance: Bson,
    aimed: AimedSearch,
    ztf: FindQuery,
    rules: Rules,
    doc: BsonValue,
    depth: nat,
)
    requires
        call_ensures(PositionSearch::aim, (search, longitude, latitude, max_distance), aimed),
        call_ensures(AimedSearch::ztf_query, (&aimed,), ztf),
    ensures
        ztf.collection@ == "ZTF_alerts_aux"@,
        ztf.limit == Some(search.limit as i64),
        ztf.sort is None,
        ztf.projection is None,
        meets(rules, doc, document_fields(ztf.filter), depth) <==> (rules.within)(
            at_path(doc, "coordinates.radec_geojson"@),
            BsonValue::List(seq![bson_value(longitude), bson_value(latitude)]),
            bson_value(max_distance),
        ),
        aimed.limit == search.limit,
        document_fields(aimed.near) == document_fields(ztf.filter),
{
    lemma_collections(Survey::Ztf);
    assert(ztf.collection@ == ztf@.collection && ztf.limit == ztf@.limit);
    assert(document_fields(ztf.filter) == ztf@.filter);
    assert(ztf@.sort is None && ztf@.projection is None);
    lemma_near(
        rules,
        doc,
        bson_value(longitude),
        bson_value(latitude),
        bson_value(max_distance),
        depth,
    );
}

/// LSST is asked what the search asks, up to its limit.
pub proof fn law_lsst_is_asked_the_same(search: PositionLsstSearch, r: FindQuery)
    requires
        call_ensures(PositionLsstSearch::lsst_query, (&search,), r),
    ensures
        r.collection@ == "LSST_alerts_aux"@,
        r.limit == Some(search.limit as i64),
        r.sort is None,
        r.projection is None,
        document_fields(r.filter) == document_fields(search.near),
{
    lemma_collections(Survey::Lsst);
    assert(r.collection@ == r@.collection && r.limit == r@.limit);
    assert(document_fields(r.filter) == r@.filter);
    assert(r@.sort is None && r@.projection is None);
}

/// A cone search asks its survey for all the objects that are at most so far from the point.
pub proof fn law_a_cone_is_asked_for(
    question: ConeQuestion,
    longitude: Bson,
    latitude: Bson,
    radius: Bson,
    r: FindQuery,
    rules: Rules,
    doc: BsonValue,
    depth: nat,
)
    requires
        call_ensures(ConeQuestion::query, (&question, longitude, latitude, radius), r),
        depth > 0,
    ensures
        r.collection@ == objects_of(question.survey),
        r.limit is None,
        r.sort is None,
        r.projection is None,
        meets(rules, doc, document_fields(r.filter), depth) <==> (rules.within)(
            at_path(doc, "coordinates.radec_geojson"@),
            BsonValue::List(seq![bson_value(longitude), bson_value(latitude)]),
            bson_value(radius),
        ),
{
    lemma_collections(question.survey);
    assert(r.collection@ == r@.collection && r.limit == r@.limit);
    assert(document_fields(r.filter) == r@.filter);
    assert(r@.sort is None && r@.projection is None);
    lemma_within(
        rules,
        doc,
        bson_value(longitude),
        bson_value(latitude),
        bson_value(radius),
        depth,
    );
}

/// ZTF is asked for all the alerts of the object that are of the public programme, the newest
/// first.
pub proof fn law_the_public_alerts_are_asked_for(
    lookup: ZtfLookup,
    r: FindQuery,
    rules: Rules,
    doc: BsonValue,
    depth: nat,
)
    requires
        call_ensures(ZtfLookup::alerts_query, (&lookup,), r),
    ensures
        r.collection@ == "ZTF_alerts"@,
        r.limit is None,
        r.projection is None,
        r.sort is Some,
        document_fields(r.sort->Some_0) == seq![("candidate.jd"@, BsonValue::Int32((-1) as i32))],
        meets(rules, doc, document_fields(r.filter), depth) <==> (rules.equal)(
            at_path(doc, "objectId"@),
            Some(BsonValue::Text(lookup.object_id@)),
        ) && (rules.equal)(at_path(doc, "candidate.programid"@), Some(BsonValue::Int32(1))),
{
    lemma_collections(Survey::Ztf);
    lemma_keys();
    assert(r.collection@ == r@.collection && r.limit == r@.limit);
    assert(document_fields(r.filter) == r@.filter);
    assert(r@.sort is Some && r@.projection is None);
    lemma_two_conditions(
        rules,
        doc,
        "objectId"@,
        BsonValue::Text(lookup.object_id@),
        "candidate.programid"@,
        BsonValue::Int32(1),
        depth,
    );
}

/// LSST is asked for the alerts of the object, the newest first.
pub proof fn law_the_alerts_of_lsst_are_asked_for(
    lookup: LsstLookup,
    r: FindQuery,
    rules: Rules,
    doc: BsonValue,
    depth: nat,
)
    requires
        call_ensures(LsstLookup::alerts_query, (&lookup,), r),
    ensures
        r.collection@ == "LSST_alerts"@,
        r.limit is None,
        r.projection is None,
        r.sort is Some,
        document_fields(r.sort->Some_0) == seq![("candidate.jd"@, BsonValue::Int32((-1) as i32))],
        meets(rules, doc, document_fields(r.filter), depth) <==> (rules.equal)(
            at_path(doc, "objectId"@),
            Some(BsonValue::Text(lookup.object_id@)),
        ),
{
    lemma_collections(Survey::Lsst);
    lemma_keys();
    assert(r.collection@ == r@.collection && r.limit == r@.limit);
    assert(document_fields(r.filter) == r@.filter);
    assert(r@.sort is Some && r@.projection is None);
    lemma_one_condition(rules, doc, "objectId"@, BsonValue::Text(lookup.object_id@), depth);
}

/// The object itself is asked for by its identifier, in its own survey.
pub proof fn law_the_object_itself_is_asked_for<D>(
    ztf: ZtfAuxLookup<D>,
    ztf_query: FindOneQuery,
    lsst: LsstAuxLookup<D>,
    lsst_query: FindOneQuery,
    rules: Rules,
    doc: BsonValue,
    depth: nat,
)
    requires
        call_ensures(ZtfAuxLookup::<D>::aux_query, (&ztf,), ztf_query),
        call_ensures(LsstAuxLookup::<D>::aux_query, (&lsst,), lsst_query),
    ensures
        ztf_query.collection@ == "ZTF_alerts_aux"@,
        ztf_query.projection is None,
        meets(rules, doc, document_fields(ztf_query.filter), depth) <==> (rules.equal)(
            at_path(doc, "_id"@),
            Some(BsonValue::Text(ztf.object_id@)),
        ),
        lsst_query.collection@ == "LSST_alerts_aux"@,
        lsst_query.projection is None,
        meets(rules, doc, document_fields(lsst_query.filter), depth) <==> (rules.equal)(
            at_path(doc, "_id"@),
            Some(BsonValue::Text(lsst.object_id@)),
        ),
{
    lemma_collections(Survey::Ztf);
    lemma_collections(Survey::Lsst);
    lemma_keys();
    assert(ztf_query.collection@ == ztf_query@.collection);
    assert(document_fields(ztf_query.filter) == ztf_query@.filter);
    assert(ztf_query@.projection is None);
    assert(lsst_query.collection@ == lsst_query@.collection);
    assert(document_fields(lsst_query.filter) == lsst_query@.filter);
    assert(lsst_query@.projection is None);
    lemma_one_condition(rules, doc, "_id"@, BsonValue::Text(ztf.object_id@), depth);
    lemma_one_condition(rules, doc, "_id"@, BsonValue::Text(lsst.object_id@), depth);
}

/// The counterpart is asked for around the point, and in the other survey.
pub proof fn law_the_counterpart_is_asked_for_in_the_other_survey<D>(
    ztf: ZtfNearestLookup<D>,
    ztf_query: FindOneQuery,
    lsst: LsstNearestLookup<D>,
    lsst_query: FindOneQuery,
    longitude: Bson,
    latitude: Bson,
    radius: Bson,
    rules: Rules,
    doc: BsonValue,
    depth: nat,
)
    requires
        call_ensures(
            ZtfNearestLookup::<D>::nearest_query,
            (&ztf, longitude, latitude, radius),
            ztf_query,
        ),
        call_ensures(
            LsstNearestLookup::<D>::nearest_query,
            (&lsst, longitude, latitude, radius),
            lsst_query,
        ),
    ensures
        ztf_query.collection@ == "LSST_alerts_aux"@,
        lsst_query.collection@ == "ZTF_alerts_aux"@,
        ztf_query.projection is None,
        lsst_query.projection is None,
        document_fields(ztf_query.filter) == document_fields(lsst_query.filter),
        meets(rules, doc, document_fields(ztf_query.filter), depth) <==> (rules.within)(
            at_path(doc, "coordinates.radec_geojson"@),
            BsonValue::List(seq![bson_value(longitude), bson_value(latitude)]),
            bson_value(radius),
        ),
{
    lemma_collections(Survey::Ztf);
    lemma_collections(Survey::Lsst);
    assert(ztf_query.collection@ == ztf_query@.collection);
    assert(document_fields(ztf_query.filter) == ztf_query@.filter);
    assert(ztf_query@.projection is None);
    assert(lsst_query.collection@ == lsst_query@.collection);
    assert(document_fields(lsst_query.filter) == lsst_query@.filter);
    assert(lsst_query@.projection is None);
    lemma_near(
        rules,
        doc,
        bson_value(longitude),
        bson_value(latitude),
        bson_value(radius),
        depth,
    );
}

/// The matches of an object are asked for by its identifier, and of the object only the identifier
/// and the matches.
pub proof fn law_the_matches_of_an_object_are_asked_for(
    lookup: XmatchLookup,
    r: FindOneQuery,
    rules: Rules,
    doc: BsonValue,
    depth: nat,
)
    requires
        call_ensures(XmatchLookup::query, (&lookup,), r),
    ensures
        r.collection@ == objects_of(lookup.survey),
        r.projection is Some,
        document_fields(r.projection->Some_0) == seq![
            ("_id"@, BsonValue::Int32(1)),
            ("cross_matches"@, BsonValue::Int32(1)),
        ],
        meets(rules, doc, document_fields(r.filter), depth) <==> (rules.equal)(
            at_path(doc, "_id"@),
            Some(BsonValue::Text(lookup.object_id@)),
        ),
{
    lemma_collections(lookup.survey);
    lemma_keys();
    assert(r.collection@ == r@.collection);
    assert(document_fields(r.filter) == r@.filter);
    assert(r@.projection is Some);
    lemma_one_condition(rules, doc, "_id"@, BsonValue::Text(lookup.object_id@), depth);
}

/// The matches of many objects are asked for by all of their identifiers, and for no other object.
pub proof fn law_the_matches_of_the_named_objects_are_asked_for(
    batch: BatchXmatch,
    r: FindQuery,
    rules: Rules,
    doc: BsonValue,
    depth: nat,
)
    requires
        call_ensures(BatchXmatch::query, (&batch,), r),
        depth > 0,
    ensures
        r.collection@ == objects_of(batch.survey),
        r.sort is None,
        r.limit is None,
        r.projection is Some,
        document_fields(r.projection->Some_0) == seq![
            ("_id"@, BsonValue::Int32(1)),
            ("cross_matches"@, BsonValue::Int32(1)),
        ],
        meets(rules, doc, document_fields(r.filter), depth) <==> exists|i: int|
            0 <= i < batch.object_ids@.len() && (rules.equal)(
                at_path(doc, "_id"@),
                Some(BsonValue::Text((#[trigger] batch.object_ids@[i])@)),
            ),
{
    lemma_collections(batch.survey);
    lemma_keys();
    lemma_condition_names();
    assert(r.collection@ == r@.collection && r.limit == r@.limit);
    assert(document_fields(r.filter) == r@.filter);
    assert(r@.sort is None && r@.projection is Some);
    let names = texts(batch.object_ids@);
    let id = at_path(doc, "_id"@);
    lemma_one_condition(
        rules,
        doc,
        "_id"@,
        BsonValue::Fields(seq![("$in"@, BsonValue::List(names))]),
        depth,
    );
    lemma_operator(rules, id, "$in"@, BsonValue::List(names), depth);
    if is_among(rules, id, names) {
        let i = choose|i: int|
            0 <= i < names.len() && (rules.equal)(id, Some(#[trigger] names[i]));
        assert(names[i] == BsonValue::Text(batch.object_ids@[i]@));
    }
    if exists|i: int|
        0 <= i < batch.object_ids@.len() && (rules.equal)(
            id,
            Some(BsonValue::Text((#[trigger] batch.object_ids@[i])@)),
        ) {
        let i = choose|i: int|
            0 <= i < batch.object_ids@.len() && (rules.equal)(
                id,
                Some(BsonValue::Text((#[trigger] batch.object_ids@[i])@)),
            );
        assert(names[i] == BsonValue::Text(batch.object_ids@[i]@));
    }
}

/// The alerts of a night are those of the survey from the start of its window to before its end
/// and, where programmes are given, of one of these, whatever the survey.
pub proof fn law_the_alerts_of_the_night_are_counted(
    survey: Survey,
    start_jd: Bson,
    end_jd: Bson,
    programids: Option<&[i32]>,
    r: CountQuery,
    rules: Rules,
    doc: BsonValue,
    depth: nat,
)
    requires
        call_ensures(count_alerts_for_night, (&survey, start_jd, end_jd, programids), r),
        depth > 0,
    ensures
        r.collection@ == alerts_of(survey),
        meets(rules, doc, document_fields(r.filter), depth) <==> {
            let jd = at_path(doc, "candidate.jd"@);
            &&& (rules.at_most)(Some(bson_value(start_jd)), jd)
            &&& (rules.less)(jd, Some(bson_value(end_jd)))
            &&& programids is Some ==> exists|i: int|
                0 <= i < programids->Some_0@.len() && (rules.equal)(
                    at_path(doc, "candidate.programid"@),
                    Some(BsonValue::Int32(#[trigger] programids->Some_0@[i])),
                )
        },
{
    lemma_collections(survey);
    lemma_keys();
    lemma_condition_names();
    let start = bson_value(start_jd);
    let end = bson_value(end_jd);
    let jd = at_path(doc, "candidate.jd"@);
    let program = at_path(doc, "candidate.programid"@);
    let asked = seq![("$gte"@, start), ("$lt"@, end)];
    let d1 = (depth - 1) as nat;
    assert(asked[0] == ("$gte"@, start) && asked[1] == ("$lt"@, end));
    assert(asked.drop_first() =~= seq![("$lt"@, end)]);
    assert(asked.drop_first().drop_first() =~= seq![]);
    assert(field_value(asked, "$nearSphere"@) is None) by {
        assert(asked.drop_first()[0] == ("$lt"@, end));
        reveal_with_fuel(field_value, 3);
    }
    let window = BsonValue::Fields(asked);
    assert(value_meets(rules, jd, window, depth) == (operator_holds(rules, jd, "$gte"@, start, d1)
        && operator_holds(rules, jd, "$lt"@, end, d1)));
    match programids {
        None => {
            assert(document_fields(r.filter) =~= seq![("candidate.jd"@, window)]);
            lemma_one_condition(rules, doc, "candidate.jd"@, window, depth);
        },
        Some(ids) => {
            let values = ids@.map_values(|id: i32| BsonValue::Int32(id));
            let among = BsonValue::Fields(seq![("$in"@, BsonValue::List(values))]);
            assert(document_fields(r.filter) =~= seq![
                ("candidate.jd"@, window),
                ("candidate.programid"@, among),
            ]);
            lemma_two_conditions(
                rules,
                doc,
                "candidate.jd"@,
                window,
                "candidate.programid"@,
                among,
                depth,
            );
            lemma_operator(rules, program, "$in"@, BsonValue::List(values), depth);
            if is_among(rules, program, values) {
                let i = choose|i: int|
                    0 <= i < values.len() && (rules.equal)(program, Some(#[trigger] values[i]));
                assert(values[i] == BsonValue::Int32(ids@[i]));
            }
            if exists|i: int|
                0 <= i < ids@.len() && (rules.equal)(
                    program,
                    Some(BsonValue::Int32(#[trigger] ids@[i])),
                ) {
                let i = choose|i: int|
                    0 <= i < ids@.len() && (rules.equal)(
                        program,
                        Some(BsonValue::Int32(#[trigger] ids@[i])),
                    );
                assert(values[i] == BsonValue::Int32(ids@[i]));
            }
        },
    }
}

} // verus!
