//! The aggregation that gathers what the enrichment of LSST alerts needs.

use crate::document::{
    all_fields, bson_value, boolean, doc1, doc2, doc3, document_fields, embedded, int32, list0,
    list2, null, object1, text, with, BsonValue,
};
use mongodb::bson::{Bson, Document};
use vstd::prelude::*;

verus! {

/// The alerts with the given identifiers. None are given yet.
pub open spec fn match_stage() -> Seq<(Seq<char>, BsonValue)> {
    seq![
        (
            "$match"@,
            BsonValue::Fields(
                seq![
                    (
                        "_id"@,
                        BsonValue::Fields(seq![("$in"@, BsonValue::List(seq![]))]),
                    ),
                ],
            ),
        ),
    ]
}

/// The documents of another collection whose identifier is the value of a field.
pub open spec fn lookup_stage(
    collection: Seq<char>,
    local_field: Seq<char>,
    name: Seq<char>,
) -> Seq<(Seq<char>, BsonValue)> {
    seq![
        (
            "$lookup"@,
            BsonValue::Fields(
                seq![
                    ("from"@, BsonValue::Text(collection)),
                    ("localField"@, BsonValue::Text(local_field)),
                    ("foreignField"@, BsonValue::Text("_id"@)),
                    ("as"@, BsonValue::Text(name)),
                ],
            ),
        ),
    ]
}

/// One alert for each object found. An alert without an object is dropped.
pub open spec fn unwind_stage() -> Seq<(Seq<char>, BsonValue)> {
    seq![
        (
            "$unwind"@,
            BsonValue::Fields(
                seq![
                    ("path"@, BsonValue::Text("$aux"@)),
                    ("preserveNullAndEmptyArrays"@, BsonValue::Truth(false)),
                ],
            ),
        ),
    ]
}

/// An element of an array.
pub open spec fn element(array: BsonValue, index: i32) -> BsonValue {
    BsonValue::Fields(
        seq![("$arrayElemAt"@, BsonValue::List(seq![array, BsonValue::Int32(index)]))],
    )
}

/// A coordinate of the object of ZTF: the longitude, or the latitude.
pub open spec fn ztf_coordinate(index: i32) -> BsonValue {
    element(
        element(BsonValue::Text("$ztf_aux.coordinates.radec_geojson.coordinates"@), 0),
        index,
    )
}

/// The object of ZTF as it is handed on. Its right ascension is its longitude and half a circle.
pub open spec fn ztf_object() -> BsonValue {
    BsonValue::Fields(
        seq![
            ("objectId"@, element(BsonValue::Text("$ztf_aux._id"@), 0)),
            ("prv_candidates"@, element(BsonValue::Text("$ztf_aux.prv_candidates"@), 0)),
            ("prv_nondetections"@, element(BsonValue::Text("$ztf_aux.prv_nondetections"@), 0)),
            ("fp_hists"@, element(BsonValue::Text("$ztf_aux.fp_hists"@), 0)),
            (
                "ra"@,
                BsonValue::Fields(
                    seq![
                        (
                            "$add"@,
                            BsonValue::List(seq![ztf_coordinate(0), BsonValue::Int32(180)]),
                        ),
                    ],
                ),
            ),
            ("dec"@, ztf_coordinate(1)),
        ],
    )
}

/// The object of ZTF, if there is one, else nothing.
pub open spec fn ztf_match() -> BsonValue {
    BsonValue::Fields(
        seq![
            (
                "$cond"@,
                BsonValue::Fields(
                    seq![
                        (
                            "if"@,
                            BsonValue::Fields(
                                seq![
                                    (
                                        "$gt"@,
                                        BsonValue::List(
                                            seq![
                                                BsonValue::Fields(
                                                    seq![
                                                        ("$size"@, BsonValue::Text("$ztf_aux"@)),
                                                    ],
                                                ),
                                                BsonValue::Int32(0),
                                            ],
                                        ),
                                    ),
                                ],
                            ),
                        ),
                        ("then"@, ztf_object()),
                        ("else"@, BsonValue::Nothing),
                    ],
                ),
            ),
        ],
    )
}

/// What is handed on of an alert.
pub open spec fn project_stage() -> Seq<(Seq<char>, BsonValue)> {
    seq![
        (
            "$project"@,
            BsonValue::Fields(
                seq![
                    ("objectId"@, BsonValue::Int32(1)),
                    ("ssObjectId"@, BsonValue::Int32(1)),
                    ("ss_source"@, BsonValue::Int32(1)),
                    ("candidate"@, BsonValue::Int32(1)),
                    ("prv_candidates"@, BsonValue::Text("$aux.prv_candidates"@)),
                    ("fp_hists"@, BsonValue::Text("$aux.fp_hists"@)),
                    ("cross_matches"@, BsonValue::Text("$aux.cross_matches"@)),
                    ("survey_matches"@, BsonValue::Fields(seq![("ztf"@, ztf_match())])),
                ],
            ),
        ),
    ]
}

/// The stages, in order.
pub open spec fn lsst_alert_pipeline() -> Seq<Seq<(Seq<char>, BsonValue)>> {
    seq![
        match_stage(),
        lookup_stage("LSST_alerts_aux"@, "objectId"@, "aux"@),
        unwind_stage(),
        lookup_stage("ZTF_alerts_aux"@, "aux.aliases.ZTF.0"@, "ztf_aux"@),
        project_stage(),
    ]
}

fn lookup(collection: &str, local_field: &str, name: &str) -> (r: Document)
    ensures
        document_fields(r) == lookup_stage(collection@, local_field@, name@),
{
    proof {
        reveal_strlit("from");
        reveal_strlit("localField");
        reveal_strlit("foreignField");
        reveal_strlit("as");
        assert("from"@.len() == 4 && "localField"@.len() == 10 && "foreignField"@.len() == 12
            && "as"@.len() == 2);
    }
    let three = doc3(
        "from",
        text(collection),
        "localField",
        text(local_field),
        "foreignField",
        text("_id"),
    );
    let four = with(three, "as", text(name));
    assert(document_fields(four) =~= lookup_stage(collection@, local_field@, name@)[0].1->Fields_0);
    doc1("$lookup", embedded(four))
}

fn unwind() -> (r: Document)
    ensures
        document_fields(r) == unwind_stage(),
{
    proof {
        reveal_strlit("path");
        reveal_strlit("preserveNullAndEmptyArrays");
        assert("path"@.len() == 4 && "preserveNullAndEmptyArrays"@.len() == 26);
    }
    doc1(
        "$unwind",
        embedded(doc2("path", text("$aux"), "preserveNullAndEmptyArrays", boolean(false))),
    )
}

fn element_at(array: Bson, index: i32) -> (r: Bson)
    ensures
        bson_value(r) == element(bson_value(array), index),
{
    object1("$arrayElemAt", list2(array, int32(index)))
}

fn ztf_coordinate_at(index: i32) -> (r: Bson)
    ensures
        bson_value(r) == ztf_coordinate(index),
{
    element_at(
        element_at(text("$ztf_aux.coordinates.radec_geojson.coordinates"), 0),
        index,
    )
}

fn ztf_object_document() -> (r: Bson)
    ensures
        bson_value(r) == ztf_object(),
{
    proof {
        reveal_strlit("objectId");
        reveal_strlit("prv_candidates");
        reveal_strlit("prv_nondetections");
        reveal_strlit("fp_hists");
        reveal_strlit("ra");
        reveal_strlit("dec");
        assert("objectId"@[0] == 'o' && "fp_hists"@[0] == 'f' && "objectId"@.len() == 8);
        assert("prv_candidates"@.len() == 14 && "prv_nondetections"@.len() == 17);
        assert("fp_hists"@.len() == 8 && "ra"@.len() == 2 && "dec"@.len() == 3);
    }
    let three = doc3(
        "objectId",
        element_at(text("$ztf_aux._id"), 0),
        "prv_candidates",
        element_at(text("$ztf_aux.prv_candidates"), 0),
        "prv_nondetections",
        element_at(text("$ztf_aux.prv_nondetections"), 0),
    );
    let four = with(three, "fp_hists", element_at(text("$ztf_aux.fp_hists"), 0));
    let five = with(four, "ra", object1("$add", list2(ztf_coordinate_at(0), int32(180))));
    let six = with(five, "dec", ztf_coordinate_at(1));
    assert(document_fields(six) =~= ztf_object()->Fields_0);
    embedded(six)
}

fn ztf_match_document() -> (r: Bson)
    ensures
        bson_value(r) == ztf_match(),
{
    proof {
        reveal_strlit("if");
        reveal_strlit("then");
        reveal_strlit("else");
        assert("if"@.len() == 2 && "then"@.len() == 4 && "else"@.len() == 4);
        assert("then"@[0] == 't' && "else"@[0] == 'e');
    }
    let found = object1("$gt", list2(object1("$size", text("$ztf_aux")), int32(0)));
    object1(
        "$cond",
        embedded(doc3("if", found, "then", ztf_object_document(), "else", null())),
    )
}

fn project() -> (r: Document)
    ensures
        document_fields(r) == project_stage(),
{
    proof {
        reveal_strlit("objectId");
        reveal_strlit("ssObjectId");
        reveal_strlit("ss_source");
        reveal_strlit("candidate");
        reveal_strlit("prv_candidates");
        reveal_strlit("fp_hists");
        reveal_strlit("cross_matches");
        reveal_strlit("survey_matches");
        assert("objectId"@.len() == 8 && "ssObjectId"@.len() == 10 && "ss_source"@.len() == 9);
        assert("candidate"@.len() == 9 && "prv_candidates"@.len() == 14 && "fp_hists"@.len() == 8);
        assert("cross_matches"@.len() == 13 && "survey_matches"@.len() == 14);
        assert("objectId"@[0] == 'o' && "fp_hists"@[0] == 'f');
        assert("ss_source"@[0] == 's' && "candidate"@[0] == 'c');
        assert("prv_candidates"@[0] == 'p' && "survey_matches"@[0] == 's');
    }
    let three = doc3("objectId", int32(1), "ssObjectId", int32(1), "ss_source", int32(1));
    let four = with(three, "candidate", int32(1));
    let five = with(four, "prv_candidates", text("$aux.prv_candidates"));
    let six = with(five, "fp_hists", text("$aux.fp_hists"));
    let seven = with(six, "cross_matches", text("$aux.cross_matches"));
    let eight = with(seven, "survey_matches", object1("ztf", ztf_match_document()));
    assert(document_fields(eight) =~= project_stage()[0].1->Fields_0);
    doc1("$project", embedded(eight))
}

/// The aggregation that gathers, for alerts of LSST, their objects and the objects of ZTF that they
/// are known to be.
pub fn create_lsst_alert_pipeline() -> (r: Vec<Document>)
    ensures
        all_fields(r@) == lsst_alert_pipeline(),
{
    let stages: Vec<Document> = vec![
        doc1("$match", object1("_id", object1("$in", list0()))),
        lookup("LSST_alerts_aux", "objectId", "aux"),
        unwind(),
        lookup("ZTF_alerts_aux", "aux.aliases.ZTF.0", "ztf_aux"),
        project(),
    ];
    assert(all_fields(stages@) =~= lsst_alert_pipeline());
    stages
}

} // verus!
