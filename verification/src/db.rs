//! What is asked of the database: aggregation expressions over time series, indexes, counts.

use crate::document::{
    bson_value, bson_values, doc1, doc2, doc3, document_fields, documents_as_values, embedded,
    infinity, int32, list, list0, list1, list2, list_of_documents, object1, text, with, BsonValue,
};
use crate::query::CountQuery;
use crate::survey::Survey;
use crate::text::concat;
use mongodb::bson::spec::BinarySubtype;
use mongodb::bson::{Binary, Bson, Document};
use vstd::prelude::*;

verus! {

/// The first element of an array field, or the fallback where there is none.
pub open spec fn first_element_expr(field: Seq<char>, fallback: BsonValue) -> Seq<
    (Seq<char>, BsonValue),
> {
    seq![
        (
            "$ifNull"@,
            BsonValue::List(
                seq![
                    BsonValue::Fields(
                        seq![
                            (
                                "$arrayElemAt"@,
                                BsonValue::List(
                                    seq![BsonValue::Text("$"@ + field), BsonValue::Int32(0)],
                                ),
                            ),
                        ],
                    ),
                    fallback,
                ],
            ),
        ),
    ]
}

fn first_element(field: &str, fallback: Bson) -> (r: Document)
    ensures
        document_fields(r) == first_element_expr(field@, bson_value(fallback)),
{
    let path = concat("$", field);
    let element = object1("$arrayElemAt", list2(text(path.as_str()), int32(0)));
    doc1("$ifNull", list2(element, fallback))
}

/// The first element of an array field, or an empty array where there is none.
pub fn get_array_element(field: &str) -> (r: Document)
    ensures
        document_fields(r) == first_element_expr(field@, BsonValue::List(seq![])),
{
    first_element(field, list0())
}

/// The first element of an array field, or an empty document where there is none.
pub fn get_array_dict_element(field: &str) -> (r: Document)
    ensures
        document_fields(r) == first_element_expr(field@, BsonValue::Fields(seq![])),
{
    let empty = Document::new();
    assert(document_fields(empty) =~= seq![]);
    first_element(field, embedded(empty))
}

/// The stored points, or none, followed by the new ones.
pub open spec fn all_points_expr(array_field: Seq<char>, new_points: Seq<BsonValue>) -> BsonValue {
    BsonValue::Fields(
        seq![
            (
                "$concatArrays"@,
                BsonValue::List(
                    seq![
                        BsonValue::Fields(
                            seq![
                                (
                                    "$ifNull"@,
                                    BsonValue::List(
                                        seq![
                                            BsonValue::Text("$"@ + array_field),
                                            BsonValue::List(seq![]),
                                        ],
                                    ),
                                ),
                            ],
                        ),
                        BsonValue::List(new_points),
                    ],
                ),
            ),
        ],
    )
}

/// The points kept so far, with the next one behind them unless its time is among theirs.
pub open spec fn keep_first_expr(time_field: Seq<char>) -> BsonValue {
    BsonValue::Fields(
        seq![
            (
                "$cond"@,
                BsonValue::Fields(
                    seq![
                        (
                            "if"@,
                            BsonValue::Fields(
                                seq![
                                    (
                                        "$in"@,
                                        BsonValue::List(
                                            seq![
                                                BsonValue::Text("$$this."@ + time_field),
                                                BsonValue::Text("$$value."@ + time_field),
                                            ],
                                        ),
                                    ),
                                ],
                            ),
                        ),
                        ("then"@, BsonValue::Text("$$value"@)),
                        (
                            "else"@,
                            BsonValue::Fields(
                                seq![
                                    (
                                        "$concatArrays"@,
                                        BsonValue::List(
                                            seq![
                                                BsonValue::Text("$$value"@),
                                                BsonValue::List(
                                                    seq![BsonValue::Text("$$this"@)],
                                                ),
                                            ],
                                        ),
                                    ),
                                ],
                            ),
                        ),
                    ],
                ),
            ),
        ],
    )
}

/// Whether the time of a point is a finite number.
pub open spec fn finite_time_expr(time_field: Seq<char>) -> BsonValue {
    let time = BsonValue::Text("$$point."@ + time_field);
    BsonValue::Fields(
        seq![
            (
                "$and"@,
                BsonValue::List(
                    seq![
                        BsonValue::Fields(seq![("$isNumber"@, time)]),
                        BsonValue::Fields(seq![("$eq"@, BsonValue::List(seq![time, time]))]),
                        BsonValue::Fields(
                            seq![
                                (
                                    "$lt"@,
                                    BsonValue::List(
                                        seq![time, BsonValue::Infinity { negative: false }],
                                    ),
                                ),
                            ],
                        ),
                        BsonValue::Fields(
                            seq![
                                (
                                    "$gt"@,
                                    BsonValue::List(
                                        seq![time, BsonValue::Infinity { negative: true }],
                                    ),
                                ),
                            ],
                        ),
                    ],
                ),
            ),
        ],
    )
}

/// The stored points and the new ones, one per time, of finite times, in the order of time.
pub open spec fn updated_timeseries_expr(
    array_field: Seq<char>,
    time_field: Seq<char>,
    new_points: Seq<BsonValue>,
) -> Seq<(Seq<char>, BsonValue)> {
    let reduced = BsonValue::Fields(
        seq![
            (
                "$reduce"@,
                BsonValue::Fields(
                    seq![
                        ("input"@, all_points_expr(array_field, new_points)),
                        ("initialValue"@, BsonValue::List(seq![])),
                        ("in"@, keep_first_expr(time_field)),
                    ],
                ),
            ),
        ],
    );
    let filtered = BsonValue::Fields(
        seq![
            (
                "$filter"@,
                BsonValue::Fields(
                    seq![
                        ("input"@, reduced),
                        ("as"@, BsonValue::Text("point"@)),
                        ("cond"@, finite_time_expr(time_field)),
                    ],
                ),
            ),
        ],
    );
    seq![
        (
            "$sortArray"@,
            BsonValue::Fields(
                seq![
                    ("input"@, filtered),
                    ("sortBy"@, BsonValue::Fields(seq![(time_field, BsonValue::Int32(1))])),
                ],
            ),
        ),
    ]
}

fn all_points(array_field: &str, value: &Vec<Document>) -> (r: Bson)
    ensures
        bson_value(r) == all_points_expr(array_field@, documents_as_values(value@)),
{
    let path = concat("$", array_field);
    let stored = object1("$ifNull", list2(text(path.as_str()), list0()));
    object1("$concatArrays", list2(stored, list_of_documents(value)))
}

fn keep_first(time_field: &str) -> (r: Bson)
    ensures
        bson_value(r) == keep_first_expr(time_field@),
{
    let this = concat("$$this.", time_field);
    let kept = concat("$$value.", time_field);
    let known = object1("$in", list2(text(this.as_str()), text(kept.as_str())));
    let longer = object1("$concatArrays", list2(text("$$value"), list1(text("$$this"))));
    proof {
        reveal_strlit("if");
        reveal_strlit("then");
        reveal_strlit("else");
        assert("then"@[0] != "else"@[0]);
    }
    let choice = doc3("if", known, "then", text("$$value"), "else", longer);
    object1("$cond", embedded(choice))
}

fn finite_time(time_field: &str) -> (r: Bson)
    ensures
        bson_value(r) == finite_time_expr(time_field@),
{
    let time = concat("$$point.", time_field);
    let number = object1("$isNumber", text(time.as_str()));
    let itself = object1("$eq", list2(text(time.as_str()), text(time.as_str())));
    let below = object1("$lt", list2(text(time.as_str()), infinity(false)));
    let above = object1("$gt", list2(text(time.as_str()), infinity(true)));
    let ghost expected = seq![
        bson_value(number),
        bson_value(itself),
        bson_value(below),
        bson_value(above),
    ];
    let conditions: Vec<Bson> = vec![number, itself, below, above];
    assert(bson_values(conditions@) =~= expected);
    object1("$and", list(conditions))
}

/// Appends points to a stored time series: one point is kept per time, the first one met; points
/// whose time is no finite number are dropped; and the result is sorted by time.
pub fn update_timeseries_op(array_field: &str, time_field: &str, value: &Vec<Document>) -> (r:
    Document)
    ensures
        document_fields(r) == updated_timeseries_expr(
            array_field@,
            time_field@,
            documents_as_values(value@),
        ),
{
    proof {
        reveal_strlit("input");
        reveal_strlit("initialValue");
        reveal_strlit("in");
        reveal_strlit("as");
        reveal_strlit("cond");
        reveal_strlit("sortBy");
        assert("input"@.len() == 5 && "initialValue"@.len() == 12 && "in"@.len() == 2);
        assert("as"@.len() == 2 && "cond"@.len() == 4 && "sortBy"@.len() == 6);
    }
    let reduce = doc3(
        "input",
        all_points(array_field, value),
        "initialValue",
        list0(),
        "in",
        keep_first(time_field),
    );
    let filter = doc3(
        "input",
        object1("$reduce", embedded(reduce)),
        "as",
        text("point"),
        "cond",
        finite_time(time_field),
    );
    let sort = doc2(
        "input",
        object1("$filter", embedded(filter)),
        "sortBy",
        object1(time_field, int32(1)),
    );
    doc1("$sortArray", embedded(sort))
}

/// The two conditions of a time window: less than `time_window` before the candidate, and not
/// after it.
pub open spec fn window_conditions(candidate_jd_field: Seq<char>, time_window: i32) -> Seq<
    BsonValue,
> {
    let jd = BsonValue::Text("$"@ + candidate_jd_field);
    seq![
        BsonValue::Fields(
            seq![
                (
                    "$lt"@,
                    BsonValue::List(
                        seq![
                            BsonValue::Fields(
                                seq![
                                    (
                                        "$subtract"@,
                                        BsonValue::List(seq![jd, BsonValue::Text("$$x.jd"@)]),
                                    ),
                                ],
                            ),
                            BsonValue::Int32(time_window),
                        ],
                    ),
                ),
            ],
        ),
        BsonValue::Fields(
            seq![("$lte"@, BsonValue::List(seq![BsonValue::Text("$$x.jd"@), jd]))],
        ),
    ]
}

/// The further conditions, where there are any.
pub open spec fn optional_conditions_view(conditions: Option<Vec<Document>>) -> Seq<BsonValue> {
    match conditions {
        Some(docs) => documents_as_values(docs@),
        None => seq![],
    }
}

/// The points of a joined time series that meet the conditions.
pub open spec fn fetched_timeseries_expr(
    array_field: Seq<char>,
    conditions: Seq<BsonValue>,
) -> Seq<(Seq<char>, BsonValue)> {
    seq![
        (
            "$filter"@,
            BsonValue::Fields(
                seq![
                    (
                        "input"@,
                        BsonValue::Fields(
                            first_element_expr(array_field, BsonValue::List(seq![])),
                        ),
                    ),
                    ("as"@, BsonValue::Text("x"@)),
                    (
                        "cond"@,
                        BsonValue::Fields(seq![("$and"@, BsonValue::List(conditions))]),
                    ),
                ],
            ),
        ),
    ]
}

/// Filters a joined time series to a time window before, and up to, a candidate, and by further
/// conditions.
pub fn fetch_timeseries_op(
    array_field: &str,
    candidate_jd_field: &str,
    time_window: i32,
    optional_conditions: Option<Vec<Document>>,
) -> (r: Document)
    ensures
        document_fields(r) == fetched_timeseries_expr(
            array_field@,
            window_conditions(candidate_jd_field@, time_window) + optional_conditions_view(
                optional_conditions,
            ),
        ),
{
    let jd = concat("$", candidate_jd_field);
    let age = object1("$subtract", list2(text(jd.as_str()), text("$$x.jd")));
    let recent = doc1("$lt", list2(age, int32(time_window)));
    let past = doc1("$lte", list2(text("$$x.jd"), text(jd.as_str())));
    let mut conditions: Vec<Document> = vec![recent, past];
    let ghost window = window_conditions(candidate_jd_field@, time_window);
    assert(documents_as_values(conditions@) =~= window);
    if let Some(further) = optional_conditions {
        let mut docs = further;
        conditions.append(&mut docs);
    }
    assert(documents_as_values(conditions@) =~= window + optional_conditions_view(
        optional_conditions,
    ));
    proof {
        reveal_strlit("input");
        reveal_strlit("as");
        reveal_strlit("cond");
        assert("input"@.len() == 5 && "as"@.len() == 2 && "cond"@.len() == 4);
    }
    let filter = doc3(
        "input",
        embedded(get_array_element(array_field)),
        "as",
        text("x"),
        "cond",
        object1("$and", list_of_documents(&conditions)),
    );
    doc1("$filter", embedded(filter))
}

/// An index to create on a collection.
pub struct IndexRequest {
    pub collection: String,
    pub keys: Document,
    pub unique: bool,
}

/// What an index request asks for.
pub struct IndexRequestView {
    pub collection: Seq<char>,
    pub keys: Seq<(Seq<char>, BsonValue)>,
    pub unique: bool,
}

impl View for IndexRequest {
    type V = IndexRequestView;

    open spec fn view(&self) -> IndexRequestView {
        IndexRequestView {
            collection: self.collection@,
            keys: document_fields(self.keys),
            unique: self.unique,
        }
    }
}

/// Ascending order by one field.
pub open spec fn ascending(field: Seq<char>) -> Seq<(Seq<char>, BsonValue)> {
    seq![(field, BsonValue::Int32(1))]
}

/// A spherical index on the position, with the identifier behind it.
pub open spec fn position_index() -> Seq<(Seq<char>, BsonValue)> {
    seq![
        ("coordinates.radec_geojson"@, BsonValue::Text("2dsphere"@)),
        ("_id"@, BsonValue::Int32(1)),
    ]
}

/// The name of the nearest solar system object and its distance, of the entries of one array.
pub open spec fn nearest_sso_index(name: Seq<char>, distance: Seq<char>) -> Seq<
    (Seq<char>, BsonValue),
> {
    seq![(name, BsonValue::Int32(1)), (distance, BsonValue::Int32(1))]
}

pub open spec fn plain_index(
    collection: Seq<char>,
    keys: Seq<(Seq<char>, BsonValue)>,
) -> IndexRequestView {
    IndexRequestView { collection, keys, unique: false }
}

/// The indexes of a survey: positions on both collections and objects on the alerts; for LSST the
/// solar system object of an alert and the designation of an object; for ZTF the nearest solar
/// system object of each entry.
pub open spec fn survey_indexes(survey: Survey) -> Seq<IndexRequestView> {
    let alerts = survey.label() + "_alerts"@;
    let aux = survey.label() + "_alerts_aux"@;
    let common = seq![
        plain_index(alerts, position_index()),
        plain_index(aux, position_index()),
        plain_index(alerts, ascending("objectId"@)),
    ];
    match survey {
        Survey::Lsst => common + seq![
            plain_index(alerts, ascending("ss_object_id"@)),
            plain_index(aux, ascending("designation"@)),
        ],
        Survey::Ztf => common + seq![
            plain_index(
                aux,
                nearest_sso_index("prv_candidates.ssnamenr"@, "prv_candidates.ssdistnr"@),
            ),
            plain_index(
                aux,
                nearest_sso_index("prv_nondetections.ssnamenr"@, "prv_nondetections.ssdistnr"@),
            ),
        ],
        Survey::Decam => common,
    }
}

pub open spec fn index_views(requests: Seq<IndexRequest>) -> Seq<IndexRequestView> {
    requests.map_values(|request: IndexRequest| request@)
}

fn index(collection: String, keys: Document) -> (r: IndexRequest)
    ensures
        r@ == plain_index(collection@, document_fields(keys)),
{
    IndexRequest { collection, keys, unique: false }
}

fn position_keys() -> (r: Document)
    ensures
        document_fields(r) == position_index(),
{
    proof {
        reveal_strlit("coordinates.radec_geojson");
        reveal_strlit("_id");
        assert("coordinates.radec_geojson"@.len() == 25 && "_id"@.len() == 3);
    }
    doc2("coordinates.radec_geojson", text("2dsphere"), "_id", int32(1))
}

/// The indexes that the collections of a survey need, in the order of their creation.
pub fn initialize_survey_indexes(survey: &Survey) -> (r: Vec<IndexRequest>)
    ensures
        index_views(r@) == survey_indexes(*survey),
{
    let mut requests: Vec<IndexRequest> = vec![
        index(survey.alerts_collection(), position_keys()),
        index(survey.aux_collection(), position_keys()),
        index(survey.alerts_collection(), doc1("objectId", int32(1))),
    ];
    if *survey == Survey::Lsst {
        requests.push(index(survey.alerts_collection(), doc1("ss_object_id", int32(1))));
        requests.push(index(survey.aux_collection(), doc1("designation", int32(1))));
    }
    if *survey == Survey::Ztf {
        proof {
            reveal_strlit("prv_candidates.ssnamenr");
            reveal_strlit("prv_candidates.ssdistnr");
            reveal_strlit("prv_nondetections.ssnamenr");
            reveal_strlit("prv_nondetections.ssdistnr");
            assert("prv_candidates.ssnamenr"@[17] != "prv_candidates.ssdistnr"@[17]);
            assert("prv_nondetections.ssnamenr"@[20] != "prv_nondetections.ssdistnr"@[20]);
        }
        let detections = doc2(
            "prv_candidates.ssnamenr",
            int32(1),
            "prv_candidates.ssdistnr",
            int32(1),
        );
        requests.push(index(survey.aux_collection(), detections));
        let nondetections = doc2(
            "prv_nondetections.ssnamenr",
            int32(1),
            "prv_nondetections.ssdistnr",
            int32(1),
        );
        requests.push(index(survey.aux_collection(), nondetections));
    }
    assert(index_views(requests@) =~= survey_indexes(*survey));
    requests
}

/// Which alerts belong to a night: those of its window of time and, where programs are given, of
/// these.
pub open spec fn night_filter(
    start_jd: BsonValue,
    end_jd: BsonValue,
    programids: Option<Seq<i32>>,
) -> Seq<(Seq<char>, BsonValue)> {
    let window = seq![
        ("candidate.jd"@, BsonValue::Fields(seq![("$gte"@, start_jd), ("$lt"@, end_jd)])),
    ];
    match programids {
        Some(ids) => window.push(
            (
                "candidate.programid"@,
                BsonValue::Fields(
                    seq![("$in"@, BsonValue::List(ids.map_values(|id: i32| BsonValue::Int32(id))))],
                ),
            ),
        ),
        None => window,
    }
}

/// The count of the alerts of a survey in a night, whose window starts at `start_jd` and ends
/// before `end_jd`. Where programs are given it is restricted to alerts of these; where none are,
/// as for a survey without programs, every alert counts.
pub fn count_alerts_for_night(
    survey: &Survey,
    start_jd: Bson,
    end_jd: Bson,
    programids: Option<&[i32]>,
) -> (r: CountQuery)
    ensures
        r.collection@ == survey.label() + "_alerts"@,
        document_fields(r.filter) == night_filter(
            bson_value(start_jd),
            bson_value(end_jd),
            match programids {
                Some(ids) => Some(ids@),
                None => None,
            },
        ),
{
    proof {
        reveal_strlit("$gte");
        reveal_strlit("$lt");
        reveal_strlit("candidate.jd");
        reveal_strlit("candidate.programid");
        assert("$gte"@.len() == 4 && "$lt"@.len() == 3);
        assert("candidate.jd"@.len() == 12 && "candidate.programid"@.len() == 19);
    }
    let window = doc2("$gte", start_jd, "$lt", end_jd);
    let mut filter = doc1("candidate.jd", embedded(window));
    if let Some(ids) = programids {
        let mut values: Vec<Bson> = Vec::new();
        let n: usize = ids.len();
        for i in 0..n
            invariant
                n == ids@.len(),
                values@.len() == i,
                forall|j: int|
                    0 <= j < i ==> bson_value(#[trigger] values@[j]) == BsonValue::Int32(
                        ids@[j],
                    ),
        {
            values.push(int32(ids[i]));
        }
        assert(bson_values(values@) =~= ids@.map_values(|id: i32| BsonValue::Int32(id)));
        filter = with(filter, "candidate.programid", object1("$in", list(values)));
    }
    CountQuery { collection: survey.alerts_collection(), filter }
}

/// Naming programs only adds a condition to the count, on the program of an alert.
pub proof fn law_programs_restrict_the_count(
    start_jd: BsonValue,
    end_jd: BsonValue,
    programids: Seq<i32>,
)
    ensures
        night_filter(start_jd, end_jd, None).is_prefix_of(
            night_filter(start_jd, end_jd, Some(programids)),
        ),
        night_filter(start_jd, end_jd, Some(programids)).len() == night_filter(
            start_jd,
            end_jd,
            None,
        ).len() + 1,
        night_filter(start_jd, end_jd, Some(programids)).last().0 == "candidate.programid"@,
{
    let open_count = night_filter(start_jd, end_jd, None);
    let restricted = night_filter(start_jd, end_jd, Some(programids));
    assert(open_count =~= restricted.subrange(0, open_count.len() as int));
}

/// The binary value type of `mongodb::bson`: bytes and the number of their subtype.
#[verifier::external_type_specification]
#[verifier::external_body]
pub struct ExBinary(Binary);

/// The bytes of a binary value.
pub uninterp spec fn binary_bytes(value: Binary) -> Seq<u8>;

/// The number of the subtype of a binary value.
pub uninterp spec fn binary_subtype(value: Binary) -> u8;

/// The fields of `Binary` hold the bytes and the subtype that `BinarySubtype::from` gives for the
/// number.
#[verifier::external_body]
fn binary(subtype: u8, bytes: Vec<u8>) -> (r: Binary)
    ensures
        binary_bytes(r) == bytes@,
        binary_subtype(r) == subtype,
{
    Binary { subtype: BinarySubtype::from(subtype), bytes }
}

/// An image cutout as a binary value of the generic subtype.
pub fn cutout2bsonbinary(cutout: Vec<u8>) -> (r: Binary)
    ensures
        binary_bytes(r) == cutout@,
        binary_subtype(r) == 0,
{
    binary(0, cutout)
}

} // verus!
