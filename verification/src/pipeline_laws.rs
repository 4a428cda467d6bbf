//! What is gathered for the enrichment of an alert: laws on what the aggregation makes of it.

use crate::document::{all_fields, field_value, BsonValue};
use crate::meaning::{
    after_stage, after_stage_all, aggregated, all_at_path, at_path, at_place, bears, evaluated,
    lemma_one_condition, literal, marked, projected, value_of, with_field, Rules,
};
use crate::pipeline::{
    create_lsst_alert_pipeline, element, lookup_stage, match_stage, project_stage, unwind_stage,
    ztf_coordinate, ztf_match, ztf_object,
};
use crate::timeseries_laws::{
    lemma_field2, lemma_field3, lemma_field_path, lemma_operation, lemma_operator_names,
    lemma_split, operation,
};
use mongodb::bson::Document;
use vstd::prelude::*;

verus! {

proof fn lemma_after_one(
    rules: Rules,
    stored: spec_fn(Seq<char>) -> Seq<BsonValue>,
    doc: Seq<(Seq<char>, BsonValue)>,
    stage: Seq<(Seq<char>, BsonValue)>,
    depth: nat,
)
    ensures
        after_stage_all(rules, stored, seq![doc], stage, depth) == after_stage(
            rules,
            stored,
            doc,
            stage,
            depth,
        ),
{
    let docs = seq![doc];
    assert(docs.drop_last() =~= seq![]);
    assert(after_stage_all(rules, stored, docs.drop_last(), stage, depth) =~= seq![]);
    assert(after_stage_all(rules, stored, docs, stage, depth) =~= after_stage(
        rules,
        stored,
        doc,
        stage,
        depth,
    ));
}

proof fn lemma_after_each(
    rules: Rules,
    stored: spec_fn(Seq<char>) -> Seq<BsonValue>,
    docs: Seq<Seq<(Seq<char>, BsonValue)>>,
    stage: Seq<(Seq<char>, BsonValue)>,
    depth: nat,
)
    requires
        forall|i: int|
            0 <= i < docs.len() ==> after_stage(
                rules,
                stored,
                #[trigger] docs[i],
                stage,
                depth,
            ).len() == 1,
    ensures
        ({
            let all = after_stage_all(rules, stored, docs, stage, depth);
            &&& all.len() == docs.len()
            &&& forall|i: int|
                0 <= i < docs.len() ==> #[trigger] all[i] == after_stage(
                    rules,
                    stored,
                    docs[i],
                    stage,
                    depth,
                )[0]
        }),
    decreases docs.len(),
{
    if docs.len() > 0 {
        let less = docs.drop_last();
        assert forall|i: int| 0 <= i < less.len() implies after_stage(
            rules,
            stored,
            #[trigger] less[i],
            stage,
            depth,
        ).len() == 1 by {
            assert(less[i] == docs[i]);
        }
        lemma_after_each(rules, stored, less, stage, depth);
        let last = docs[docs.len() - 1];
        assert(docs.last() == last);
        let all = after_stage_all(rules, stored, docs, stage, depth);
        assert forall|i: int| 0 <= i < docs.len() implies #[trigger] all[i] == after_stage(
            rules,
            stored,
            docs[i],
            stage,
            depth,
        )[0] by {
            if i < less.len() {
                assert(less[i] == docs[i]);
            }
        }
    }
}

spec fn distinct(fields: Seq<(Seq<char>, BsonValue)>) -> bool {
    forall|i: int, j: int|
        0 <= i < j < fields.len() ==> (#[trigger] fields[i]).0 != (#[trigger] fields[j]).0
}

proof fn lemma_absent(fields: Seq<(Seq<char>, BsonValue)>, key: Seq<char>)
    requires
        forall|i: int| 0 <= i < fields.len() ==> (#[trigger] fields[i]).0 != key,
    ensures
        field_value(fields, key) is None,
    decreases fields.len(),
{
    if fields.len() > 0 {
        let less = fields.drop_first();
        assert forall|i: int| 0 <= i < less.len() implies (#[trigger] less[i]).0 != key by {
            assert(less[i] == fields[i + 1]);
        }
        lemma_absent(less, key);
    }
}

proof fn lemma_present(fields: Seq<(Seq<char>, BsonValue)>, k: int)
    requires
        distinct(fields),
        0 <= k < fields.len(),
    ensures
        field_value(fields, fields[k].0) == Some(fields[k].1),
    decreases fields.len(),
{
    if k > 0 {
        let less = fields.drop_first();
        assert forall|i: int, j: int| 0 <= i < j < less.len() implies (#[trigger] less[i]).0 != (
        #[trigger] less[j]).0 by {
            assert(less[i] == fields[i + 1] && less[j] == fields[j + 1]);
        }
        lemma_present(less, k - 1);
        assert(less[k - 1] == fields[k]);
        assert(fields[0].0 != fields[k].0);
    }
}

proof fn lemma_put_before(
    entry: (Seq<char>, BsonValue),
    fields: Seq<(Seq<char>, BsonValue)>,
    key: Seq<char>,
)
    ensures
        field_value(seq![entry] + fields, key) == if entry.0 == key {
            Some(entry.1)
        } else {
            field_value(fields, key)
        },
{
    let all = seq![entry] + fields;
    assert(all[0] == entry);
    assert(all.drop_first() =~= fields);
}

proof fn lemma_evaluated(
    rules: Rules,
    doc: BsonValue,
    variables: Map<Seq<char>, BsonValue>,
    fields: Seq<(Seq<char>, BsonValue)>,
    depth: nat,
    key: Seq<char>,
)
    requires
        distinct(fields),
    ensures
        field_value(evaluated(rules, doc, variables, fields, depth), key) == match field_value(
            fields,
            key,
        ) {
            Some(expression) => value_of(rules, doc, variables, expression, depth),
            None => None,
        },
    decreases fields.len(),
{
    if fields.len() > 0 {
        let less = fields.drop_first();
        assert forall|i: int, j: int| 0 <= i < j < less.len() implies (#[trigger] less[i]).0 != (
        #[trigger] less[j]).0 by {
            assert(less[i] == fields[i + 1] && less[j] == fields[j + 1]);
        }
        lemma_evaluated(rules, doc, variables, less, depth, key);
        let further = evaluated(rules, doc, variables, less, depth);
        if let Some(value) = value_of(rules, doc, variables, fields[0].1, depth) {
            lemma_put_before((fields[0].0, value), further, key);
        }
        if fields[0].0 == key {
            assert forall|i: int| 0 <= i < less.len() implies (#[trigger] less[i]).0 != key by {
                assert(less[i] == fields[i + 1]);
            }
            lemma_absent(less, key);
        }
    }
}

proof fn lemma_projected(
    rules: Rules,
    doc: Seq<(Seq<char>, BsonValue)>,
    fields: Seq<(Seq<char>, BsonValue)>,
    depth: nat,
    key: Seq<char>,
)
    requires
        distinct(fields),
    ensures
        field_value(projected(rules, doc, fields, depth), key) == match field_value(fields, key) {
            Some(expression) => if expression == BsonValue::Int32(1) {
                field_value(doc, key)
            } else {
                value_of(rules, BsonValue::Fields(doc), Map::empty(), expression, depth)
            },
            None => None,
        },
    decreases fields.len(),
{
    if fields.len() > 0 {
        let less = fields.drop_first();
        assert forall|i: int, j: int| 0 <= i < j < less.len() implies (#[trigger] less[i]).0 != (
        #[trigger] less[j]).0 by {
            assert(less[i] == fields[i + 1] && less[j] == fields[j + 1]);
        }
        lemma_projected(rules, doc, less, depth, key);
        let further = projected(rules, doc, less, depth);
        let value = if fields[0].1 == BsonValue::Int32(1) {
            field_value(doc, fields[0].0)
        } else {
            value_of(rules, BsonValue::Fields(doc), Map::empty(), fields[0].1, depth)
        };
        if let Some(value) = value {
            lemma_put_before((fields[0].0, value), further, key);
        }
        if fields[0].0 == key {
            assert forall|i: int| 0 <= i < less.len() implies (#[trigger] less[i]).0 != key by {
                assert(less[i] == fields[i + 1]);
            }
            lemma_absent(less, key);
        }
    }
}

/// Whether counts are in the order of the numbers.
pub open spec fn counts_are_ordered(rules: Rules) -> bool {
    forall|a: i32, b: i32| #[trigger]
        (rules.less)(Some(BsonValue::Int32(a)), Some(BsonValue::Int32(b))) == (a < b)
}

proof fn lemma_stage_names()
    ensures
        "$match"@.len() == 6,
        "$lookup"@.len() == 7 && "$lookup"@[1] == 'l',
        "$unwind"@.len() == 7 && "$unwind"@[1] == 'u',
        "$project"@.len() == 8,
{
    reveal_strlit("$match");
    reveal_strlit("$lookup");
    reveal_strlit("$unwind");
    reveal_strlit("$project");
}

proof fn lemma_lookup(
    rules: Rules,
    stored: spec_fn(Seq<char>) -> Seq<BsonValue>,
    doc: Seq<(Seq<char>, BsonValue)>,
    collection: Seq<char>,
    local: Seq<char>,
    name: Seq<char>,
    depth: nat,
)
    ensures
        after_stage(rules, stored, doc, lookup_stage(collection, local, name), depth) == seq![
            with_field(
                doc,
                name,
                BsonValue::List(
                    stored(collection).filter(
                        bears(rules, "_id"@, at_place(BsonValue::Fields(doc), local)),
                    ),
                ),
            ),
        ],
{
    lemma_stage_names();
    reveal_strlit("from");
    reveal_strlit("localField");
    reveal_strlit("foreignField");
    reveal_strlit("as");
    let stage = lookup_stage(collection, local, name);
    let argument = stage[0].1->Fields_0;
    assert("from"@.len() == 4 && "localField"@.len() == 10 && "foreignField"@.len() == 12
        && "as"@.len() == 2);
    assert(distinct(argument));
    lemma_present(argument, 0);
    lemma_present(argument, 1);
    lemma_present(argument, 2);
    lemma_present(argument, 3);
}

proof fn lemma_unwind(
    rules: Rules,
    stored: spec_fn(Seq<char>) -> Seq<BsonValue>,
    doc: Seq<(Seq<char>, BsonValue)>,
    values: Seq<BsonValue>,
    depth: nat,
)
    requires
        field_value(doc, "aux"@) == Some(BsonValue::List(values)),
    ensures
        after_stage(rules, stored, doc, unwind_stage(), depth) == values.map_values(
            |value: BsonValue| with_field(doc, "aux"@, value),
        ),
{
    lemma_stage_names();
    reveal_strlit("path");
    reveal_strlit("preserveNullAndEmptyArrays");
    reveal_strlit("$aux");
    reveal_strlit("aux");
    let argument = unwind_stage()[0].1->Fields_0;
    assert("path"@.len() == 4 && "preserveNullAndEmptyArrays"@.len() == 26);
    lemma_field2(
        "path"@,
        BsonValue::Text("$aux"@),
        "preserveNullAndEmptyArrays"@,
        BsonValue::Truth(false),
    );
    assert("$aux"@.skip(1) =~= "aux"@);
    assert(after_stage(rules, stored, doc, unwind_stage(), depth) =~= values.map_values(
        |value: BsonValue| with_field(doc, "aux"@, value),
    ));
}

proof fn lemma_element(
    rules: Rules,
    doc: BsonValue,
    variables: Map<Seq<char>, BsonValue>,
    array: BsonValue,
    index: i32,
    depth: nat,
)
    requires
        depth > 1,
    ensures
        value_of(rules, doc, variables, element(array, index), depth) == match value_of(
            rules,
            doc,
            variables,
            array,
            (depth - 1) as nat,
        ) {
            Some(BsonValue::List(values)) => if 0 <= index < values.len() {
                Some(values[index as int])
            } else {
                None
            },
            _ => Some(BsonValue::Nothing),
        },
{
    lemma_operator_names();
    let argument = BsonValue::List(seq![array, BsonValue::Int32(index)]);
    lemma_operation(rules, doc, variables, "$arrayElemAt"@, argument, depth);
    assert(element(array, index) == operation("$arrayElemAt"@, argument));
}

/// The first of what the objects that were found hold in a field is what the one that was found
/// holds there.
proof fn lemma_ztf_field(
    rules: Rules,
    doc: Seq<(Seq<char>, BsonValue)>,
    z: BsonValue,
    path: Seq<char>,
    field: Seq<char>,
    depth: nat,
)
    requires
        field_value(doc, "ztf_aux"@) == Some(BsonValue::List(seq![z])),
        path == "$ztf_aux."@ + field,
        depth > 2,
    ensures
        value_of(
            rules,
            BsonValue::Fields(doc),
            Map::empty(),
            element(BsonValue::Text(path), 0),
            depth,
        ) == at_path(z, field),
{
    reveal_strlit("$ztf_aux.");
    reveal_strlit("ztf_aux");
    reveal_strlit("$");
    let inner = "ztf_aux"@ + seq!['.'] + field;
    assert(path =~= "$"@ + inner);
    assert(inner[0] == 'z');
    let whole = BsonValue::Fields(doc);
    lemma_field_path(rules, whole, Map::empty(), inner, (depth - 1) as nat);
    lemma_split("ztf_aux"@, field);
    lemma_element(rules, whole, Map::empty(), BsonValue::Text(path), 0, depth);
    let values = seq![z];
    assert(values.subrange(0, 0) =~= seq![]);
    reveal_with_fuel(all_at_path, 2);
    assert(all_at_path(values.subrange(0, 0), field) =~= seq![]);
    assert(at_path(BsonValue::List(values), field) == Some(
        BsonValue::List(all_at_path(values, field)),
    ));
}

/// Whether fields are an object of ZTF as it is handed on: the identifier of the object, the
/// measurements that it holds, and its place, where it has one.
pub open spec fn is_handed_on(
    rules: Rules,
    shown: Seq<(Seq<char>, BsonValue)>,
    z: BsonValue,
) -> bool {
    &&& field_value(shown, "objectId"@) == at_path(z, "_id"@)
    &&& field_value(shown, "prv_candidates"@) == at_path(z, "prv_candidates"@)
    &&& field_value(shown, "prv_nondetections"@) == at_path(z, "prv_nondetections"@)
    &&& field_value(shown, "fp_hists"@) == at_path(z, "fp_hists"@)
    &&& match at_path(z, "coordinates.radec_geojson.coordinates"@) {
        Some(BsonValue::List(place)) => place.len() == 2 ==> {
            &&& field_value(shown, "ra"@) == (rules.sum)(
                Some(place[0]),
                Some(BsonValue::Int32(180)),
            )
            &&& field_value(shown, "dec"@) == Some(place[1])
        },
        _ => true,
    }
}

proof fn lemma_ztf_object(
    rules: Rules,
    doc: Seq<(Seq<char>, BsonValue)>,
    z: BsonValue,
    depth: nat,
) -> (shown: Seq<(Seq<char>, BsonValue)>)
    requires
        field_value(doc, "ztf_aux"@) == Some(BsonValue::List(seq![z])),
        depth > 7,
    ensures
        value_of(rules, BsonValue::Fields(doc), Map::empty(), ztf_object(), depth) == Some(
            BsonValue::Fields(shown),
        ),
        is_handed_on(rules, shown, z),
{
    reveal_strlit("objectId");
    reveal_strlit("prv_candidates");
    reveal_strlit("prv_nondetections");
    reveal_strlit("fp_hists");
    reveal_strlit("ra");
    reveal_strlit("dec");
    reveal_strlit("_id");
    reveal_strlit("coordinates.radec_geojson.coordinates");
    reveal_strlit("$ztf_aux.");
    reveal_strlit("$ztf_aux._id");
    reveal_strlit("$ztf_aux.prv_candidates");
    reveal_strlit("$ztf_aux.prv_nondetections");
    reveal_strlit("$ztf_aux.fp_hists");
    reveal_strlit("$ztf_aux.coordinates.radec_geojson.coordinates");
    lemma_operator_names();
    let whole = BsonValue::Fields(doc);
    let none = Map::<Seq<char>, BsonValue>::empty();
    let fields = ztf_object()->Fields_0;
    let less = (depth - 1) as nat;
    assert("objectId"@[0] == 'o' && "fp_hists"@[0] == 'f' && "objectId"@.len() == 8);
    assert("prv_candidates"@.len() == 14 && "prv_nondetections"@.len() == 17);
    assert("fp_hists"@.len() == 8 && "ra"@.len() == 2 && "dec"@.len() == 3);
    assert(distinct(fields));
    let first = element(BsonValue::Text("$ztf_aux._id"@), 0);
    assert(!literal(first)) by {
        assert(first->Fields_0[0].0 == "$arrayElemAt"@);
    }
    assert(fields[0].1 == first);
    assert(!literal(ztf_object()));
    let shown = evaluated(rules, whole, none, fields, less);
    assert("$ztf_aux._id"@ =~= "$ztf_aux."@ + "_id"@);
    assert("$ztf_aux.prv_candidates"@ =~= "$ztf_aux."@ + "prv_candidates"@);
    assert("$ztf_aux.prv_nondetections"@ =~= "$ztf_aux."@ + "prv_nondetections"@);
    assert("$ztf_aux.fp_hists"@ =~= "$ztf_aux."@ + "fp_hists"@);
    let place = "coordinates.radec_geojson.coordinates"@;
    let path = "$ztf_aux.coordinates.radec_geojson.coordinates"@;
    assert(path =~= "$ztf_aux."@ + place);
    lemma_present(fields, 0);
    lemma_present(fields, 1);
    lemma_present(fields, 2);
    lemma_present(fields, 3);
    lemma_present(fields, 4);
    lemma_present(fields, 5);
    lemma_evaluated(rules, whole, none, fields, less, "objectId"@);
    lemma_evaluated(rules, whole, none, fields, less, "prv_candidates"@);
    lemma_evaluated(rules, whole, none, fields, less, "prv_nondetections"@);
    lemma_evaluated(rules, whole, none, fields, less, "fp_hists"@);
    lemma_evaluated(rules, whole, none, fields, less, "ra"@);
    lemma_evaluated(rules, whole, none, fields, less, "dec"@);
    lemma_ztf_field(rules, doc, z, "$ztf_aux._id"@, "_id"@, less);
    lemma_ztf_field(rules, doc, z, "$ztf_aux.prv_candidates"@, "prv_candidates"@, less);
    lemma_ztf_field(rules, doc, z, "$ztf_aux.prv_nondetections"@, "prv_nondetections"@, less);
    lemma_ztf_field(rules, doc, z, "$ztf_aux.fp_hists"@, "fp_hists"@, less);
    let inner = element(BsonValue::Text(path), 0);
    // The latitude stands one level deep, the longitude under a sum.
    lemma_ztf_field(rules, doc, z, path, place, (less - 1) as nat);
    lemma_element(rules, whole, none, inner, 1, less);
    let under = (less - 1) as nat;
    lemma_ztf_field(rules, doc, z, path, place, (under - 1) as nat);
    lemma_element(rules, whole, none, inner, 0, under);
    let argument = BsonValue::List(seq![ztf_coordinate(0), BsonValue::Int32(180)]);
    lemma_operation(rules, whole, none, "$add"@, argument, less);
    assert(fields[4].1 == operation("$add"@, argument));
    assert(argument->List_0[0] == ztf_coordinate(0));
    assert(argument->List_0[1] == BsonValue::Int32(180));
    shown
}

/// Whether a value is what is handed on of the objects of ZTF that were found: nothing where none
/// was, else the object.
pub open spec fn is_handed_on_of(
    rules: Rules,
    value: BsonValue,
    found: Seq<BsonValue>,
) -> bool {
    if found.len() == 0 {
        value == BsonValue::Nothing
    } else {
        value is Fields && is_handed_on(rules, value->Fields_0, found[0])
    }
}

proof fn lemma_ztf_match(
    rules: Rules,
    doc: Seq<(Seq<char>, BsonValue)>,
    found: Seq<BsonValue>,
    depth: nat,
) -> (value: BsonValue)
    requires
        counts_are_ordered(rules),
        field_value(doc, "ztf_aux"@) == Some(BsonValue::List(found)),
        found.len() <= 1,
        depth > 8,
    ensures
        value_of(rules, BsonValue::Fields(doc), Map::empty(), ztf_match(), depth) == Some(value),
        is_handed_on_of(rules, value, found),
{
    reveal_strlit("if");
    reveal_strlit("then");
    reveal_strlit("else");
    reveal_strlit("$ztf_aux");
    reveal_strlit("ztf_aux");
    reveal_strlit("$");
    assert("if"@.len() == 2 && "then"@.len() == 4 && "else"@.len() == 4);
    assert("then"@[0] == 't' && "else"@[0] == 'e');
    lemma_operator_names();
    let whole = BsonValue::Fields(doc);
    let none = Map::<Seq<char>, BsonValue>::empty();
    let less = (depth - 1) as nat;
    let argument = ztf_match()->Fields_0[0].1;
    assert(ztf_match() == operation("$cond"@, argument));
    lemma_operation(rules, whole, none, "$cond"@, argument, depth);
    let size = operation("$size"@, BsonValue::Text("$ztf_aux"@));
    let compared = BsonValue::List(seq![size, BsonValue::Int32(0)]);
    let found_any = operation("$gt"@, compared);
    lemma_field3(
        "if"@,
        found_any,
        "then"@,
        ztf_object(),
        "else"@,
        BsonValue::Nothing,
    );
    lemma_operation(rules, whole, none, "$gt"@, compared, less);
    assert(compared->List_0[0] == size && compared->List_0[1] == BsonValue::Int32(0));
    let lesser = (less - 1) as nat;
    lemma_operation(rules, whole, none, "$size"@, BsonValue::Text("$ztf_aux"@), lesser);
    assert("$ztf_aux"@ =~= "$"@ + "ztf_aux"@);
    lemma_field_path(rules, whole, none, "ztf_aux"@, (lesser - 1) as nat);
    lemma_split("ztf_aux"@, seq![]);
    assert(value_of(rules, whole, none, size, lesser) == Some(
        BsonValue::Int32(found.len() as i32),
    ));
    if found.len() == 0 {
        BsonValue::Nothing
    } else {
        assert(found =~= seq![found[0]]);
        let shown = lemma_ztf_object(rules, doc, found[0], less);
        BsonValue::Fields(shown)
    }
}

/// Whether a document is an alert with what is known of it: its own fields, the measurements and
/// the catalogue matches of its object, and the object of ZTF that it is known to be.
pub open spec fn is_gathered(
    rules: Rules,
    gathered: Seq<(Seq<char>, BsonValue)>,
    alert: Seq<(Seq<char>, BsonValue)>,
    object: BsonValue,
    found: Seq<BsonValue>,
) -> bool {
    let matches = field_value(gathered, "survey_matches"@);
    &&& field_value(gathered, "_id"@) == field_value(alert, "_id"@)
    &&& field_value(gathered, "objectId"@) == field_value(alert, "objectId"@)
    &&& field_value(gathered, "ssObjectId"@) == field_value(alert, "ssObjectId"@)
    &&& field_value(gathered, "ss_source"@) == field_value(alert, "ss_source"@)
    &&& field_value(gathered, "candidate"@) == field_value(alert, "candidate"@)
    &&& field_value(gathered, "prv_candidates"@) == at_path(object, "prv_candidates"@)
    &&& field_value(gathered, "fp_hists"@) == at_path(object, "fp_hists"@)
    &&& field_value(gathered, "cross_matches"@) == at_path(object, "cross_matches"@)
    &&& matches is Some && matches->Some_0 is Fields
    &&& field_value(matches->Some_0->Fields_0, "ztf"@) is Some
    &&& is_handed_on_of(rules, field_value(matches->Some_0->Fields_0, "ztf"@)->Some_0, found)
}

proof fn lemma_aux_field(
    rules: Rules,
    doc: Seq<(Seq<char>, BsonValue)>,
    object: BsonValue,
    path: Seq<char>,
    field: Seq<char>,
    depth: nat,
)
    requires
        field_value(doc, "aux"@) == Some(object),
        path == "$aux."@ + field,
        depth > 0,
    ensures
        value_of(rules, BsonValue::Fields(doc), Map::empty(), BsonValue::Text(path), depth)
            == at_path(object, field),
{
    reveal_strlit("$aux.");
    reveal_strlit("aux");
    reveal_strlit("$");
    let inner = "aux"@ + seq!['.'] + field;
    assert(path =~= "$"@ + inner);
    assert(inner[0] == 'a');
    lemma_field_path(rules, BsonValue::Fields(doc), Map::empty(), inner, depth);
    lemma_split("aux"@, field);
}

proof fn lemma_project(
    rules: Rules,
    stored: spec_fn(Seq<char>) -> Seq<BsonValue>,
    doc: Seq<(Seq<char>, BsonValue)>,
    alert: Seq<(Seq<char>, BsonValue)>,
    object: BsonValue,
    found: Seq<BsonValue>,
    depth: nat,
)
    requires
        counts_are_ordered(rules),
        forall|key: Seq<char>|
            key != "aux"@ && key != "ztf_aux"@ ==> #[trigger] field_value(doc, key) == field_value(
                alert,
                key,
            ),
        field_value(doc, "aux"@) == Some(object),
        field_value(doc, "ztf_aux"@) == Some(BsonValue::List(found)),
        found.len() <= 1,
        depth > 9,
    ensures
        after_stage(rules, stored, doc, project_stage(), depth).len() == 1,
        is_gathered(
            rules,
            after_stage(rules, stored, doc, project_stage(), depth)[0],
            alert,
            object,
            found,
        ),
{
    lemma_stage_names();
    reveal_strlit("_id");
    reveal_strlit("aux");
    reveal_strlit("ztf_aux");
    reveal_strlit("objectId");
    reveal_strlit("ssObjectId");
    reveal_strlit("ss_source");
    reveal_strlit("candidate");
    reveal_strlit("prv_candidates");
    reveal_strlit("fp_hists");
    reveal_strlit("cross_matches");
    reveal_strlit("survey_matches");
    reveal_strlit("ztf");
    reveal_strlit("$aux.");
    reveal_strlit("$aux.prv_candidates");
    reveal_strlit("$aux.fp_hists");
    reveal_strlit("$aux.cross_matches");
    assert("_id"@.len() == 3 && "_id"@[0] == '_' && "aux"@.len() == 3 && "aux"@[0] == 'a');
    assert("ztf_aux"@.len() == 7);
    assert("objectId"@.len() == 8 && "ssObjectId"@.len() == 10 && "ss_source"@.len() == 9);
    assert("candidate"@.len() == 9 && "prv_candidates"@.len() == 14 && "fp_hists"@.len() == 8);
    assert("cross_matches"@.len() == 13 && "survey_matches"@.len() == 14);
    assert("objectId"@[0] == 'o' && "fp_hists"@[0] == 'f');
    assert("ss_source"@[0] == 's' && "candidate"@[0] == 'c');
    assert("prv_candidates"@[0] == 'p' && "survey_matches"@[0] == 's');
    let fields = project_stage()[0].1->Fields_0;
    assert(distinct(fields));
    lemma_present(fields, 0);
    lemma_present(fields, 1);
    lemma_present(fields, 2);
    lemma_present(fields, 3);
    lemma_present(fields, 4);
    lemma_present(fields, 5);
    lemma_present(fields, 6);
    lemma_present(fields, 7);
    lemma_absent(fields, "_id"@);
    lemma_projected(rules, doc, fields, depth, "_id"@);
    lemma_projected(rules, doc, fields, depth, "objectId"@);
    lemma_projected(rules, doc, fields, depth, "ssObjectId"@);
    lemma_projected(rules, doc, fields, depth, "ss_source"@);
    lemma_projected(rules, doc, fields, depth, "candidate"@);
    lemma_projected(rules, doc, fields, depth, "prv_candidates"@);
    lemma_projected(rules, doc, fields, depth, "fp_hists"@);
    lemma_projected(rules, doc, fields, depth, "cross_matches"@);
    lemma_projected(rules, doc, fields, depth, "survey_matches"@);
    assert("$aux.prv_candidates"@ =~= "$aux."@ + "prv_candidates"@);
    assert("$aux.fp_hists"@ =~= "$aux."@ + "fp_hists"@);
    assert("$aux.cross_matches"@ =~= "$aux."@ + "cross_matches"@);
    lemma_aux_field(rules, doc, object, "$aux.prv_candidates"@, "prv_candidates"@, depth);
    lemma_aux_field(rules, doc, object, "$aux.fp_hists"@, "fp_hists"@, depth);
    lemma_aux_field(rules, doc, object, "$aux.cross_matches"@, "cross_matches"@, depth);
    let whole = BsonValue::Fields(doc);
    let none = Map::<Seq<char>, BsonValue>::empty();
    let less = (depth - 1) as nat;
    let value = lemma_ztf_match(rules, doc, found, less);
    let inner = seq![("ztf"@, ztf_match())];
    lemma_operator_names();
    assert(!literal(ztf_match())) by {
        assert(ztf_match()->Fields_0[0].0 == "$cond"@);
    }
    assert(inner[0].1 == ztf_match());
    assert(!literal(BsonValue::Fields(inner)));
    assert(!marked("ztf"@));
    assert(distinct(inner));
    lemma_evaluated(rules, whole, none, inner, less, "ztf"@);
    lemma_present(inner, 0);
    let shown = projected(rules, doc, fields, depth);
    if let Some(id) = field_value(doc, "_id"@) {
        let entry = ("_id"@, id);
        lemma_put_before(entry, shown, "_id"@);
        lemma_put_before(entry, shown, "objectId"@);
        lemma_put_before(entry, shown, "ssObjectId"@);
        lemma_put_before(entry, shown, "ss_source"@);
        lemma_put_before(entry, shown, "candidate"@);
        lemma_put_before(entry, shown, "prv_candidates"@);
        lemma_put_before(entry, shown, "fp_hists"@);
        lemma_put_before(entry, shown, "cross_matches"@);
        lemma_put_before(entry, shown, "survey_matches"@);
    }
}

/// An alert is gathered once with each object of LSST that bears its object identifier, and with
/// the object of ZTF that bears the first name that this object has there, if there is one.
/// Identifiers in ZTF are taken to belong to one object each.
pub proof fn law_an_alert_is_gathered_with_its_objects(
    rules: Rules,
    stored: spec_fn(Seq<char>) -> Seq<BsonValue>,
    alert: Seq<(Seq<char>, BsonValue)>,
    r: Vec<Document>,
    depth: nat,
)
    requires
        call_ensures(create_lsst_alert_pipeline, (), r),
        counts_are_ordered(rules),
        forall|id: Option<BsonValue>|
            stored("ZTF_alerts_aux"@).filter(#[trigger] bears(rules, "_id"@, id)).len() <= 1,
        depth > 9,
    ensures
        ({
            let objects = stored("LSST_alerts_aux"@).filter(
                bears(rules, "_id"@, field_value(alert, "objectId"@)),
            );
            let gathered = aggregated(rules, stored, seq![alert], all_fields(r@).skip(1), depth);
            &&& gathered.len() == objects.len()
            &&& forall|i: int|
                0 <= i < objects.len() ==> is_gathered(
                    rules,
                    #[trigger] gathered[i],
                    alert,
                    objects[i],
                    stored("ZTF_alerts_aux"@).filter(
                        bears(rules, "_id"@, at_place(objects[i], "aliases.ZTF.0"@)),
                    ),
                )
        }),
{
    reveal_strlit("objectId");
    reveal_strlit("aux");
    reveal_strlit("ztf_aux");
    reveal_strlit("aliases.ZTF.0");
    reveal_strlit("aux.aliases.ZTF.0");
    let stages = all_fields(r@).skip(1);
    let first = lookup_stage("LSST_alerts_aux"@, "objectId"@, "aux"@);
    let third = lookup_stage("ZTF_alerts_aux"@, "aux.aliases.ZTF.0"@, "ztf_aux"@);
    assert(stages =~= seq![first, unwind_stage(), third, project_stage()]);
    let id = field_value(alert, "objectId"@);
    let objects = stored("LSST_alerts_aux"@).filter(bears(rules, "_id"@, id));
    let one = with_field(alert, "aux"@, BsonValue::List(objects));
    lemma_lookup(rules, stored, alert, "LSST_alerts_aux"@, "objectId"@, "aux"@, depth);
    lemma_split("objectId"@, seq![]);
    lemma_after_one(rules, stored, alert, first, depth);
    lemma_put_before(("aux"@, BsonValue::List(objects)), alert, "aux"@);
    lemma_unwind(rules, stored, one, objects, depth);
    lemma_after_one(rules, stored, one, unwind_stage(), depth);
    let two = objects.map_values(|value: BsonValue| with_field(one, "aux"@, value));
    assert forall|i: int| 0 <= i < two.len() implies after_stage(
        rules,
        stored,
        #[trigger] two[i],
        third,
        depth,
    ) == seq![
        with_field(
            two[i],
            "ztf_aux"@,
            BsonValue::List(
                stored("ZTF_alerts_aux"@).filter(
                    bears(rules, "_id"@, at_place(objects[i], "aliases.ZTF.0"@)),
                ),
            ),
        ),
    ] by {
        lemma_lookup(
            rules,
            stored,
            two[i],
            "ZTF_alerts_aux"@,
            "aux.aliases.ZTF.0"@,
            "ztf_aux"@,
            depth,
        );
        assert("aux.aliases.ZTF.0"@ =~= "aux"@ + seq!['.'] + "aliases.ZTF.0"@);
        lemma_split("aux"@, "aliases.ZTF.0"@);
        lemma_put_before(("aux"@, objects[i]), one, "aux"@);
    }
    lemma_after_each(rules, stored, two, third, depth);
    let three = after_stage_all(rules, stored, two, third, depth);
    assert forall|i: int| 0 <= i < three.len() implies after_stage(
        rules,
        stored,
        #[trigger] three[i],
        project_stage(),
        depth,
    ).len() == 1 && is_gathered(
        rules,
        after_stage(rules, stored, three[i], project_stage(), depth)[0],
        alert,
        objects[i],
        stored("ZTF_alerts_aux"@).filter(
            bears(rules, "_id"@, at_place(objects[i], "aliases.ZTF.0"@)),
        ),
    ) by {
        let found = stored("ZTF_alerts_aux"@).filter(
            bears(rules, "_id"@, at_place(objects[i], "aliases.ZTF.0"@)),
        );
        let doc = three[i];
        assert(doc == with_field(two[i], "ztf_aux"@, BsonValue::List(found)));
        assert(two[i] == with_field(one, "aux"@, objects[i]));
        assert("aux"@.len() != "ztf_aux"@.len());
        assert forall|key: Seq<char>|
            key != "aux"@ && key != "ztf_aux"@ implies #[trigger] field_value(doc, key)
            == field_value(alert, key) by {
            lemma_put_before(("ztf_aux"@, BsonValue::List(found)), two[i], key);
            lemma_put_before(("aux"@, objects[i]), one, key);
            lemma_put_before(("aux"@, BsonValue::List(objects)), alert, key);
        }
        lemma_put_before(("ztf_aux"@, BsonValue::List(found)), two[i], "aux"@);
        lemma_put_before(("ztf_aux"@, BsonValue::List(found)), two[i], "ztf_aux"@);
        lemma_put_before(("aux"@, objects[i]), one, "aux"@);
        lemma_project(rules, stored, doc, alert, objects[i], found, depth);
    }
    lemma_after_each(rules, stored, three, project_stage(), depth);
    let four = after_stage_all(rules, stored, three, project_stage(), depth);
    assert(stages.drop_first() =~= seq![unwind_stage(), third, project_stage()]);
    assert(stages.drop_first().drop_first() =~= seq![third, project_stage()]);
    assert(stages.drop_first().drop_first().drop_first() =~= seq![project_stage()]);
    assert(stages.drop_first().drop_first().drop_first().drop_first() =~= seq![]);
    reveal_with_fuel(aggregated, 6);
    assert(aggregated(rules, stored, seq![alert], stages, depth) == four);
}

/// As it is made, the aggregation asks for no alert: which are gathered is told by the identifiers
/// that are put into its first stage.
pub proof fn law_no_alert_is_asked_for_yet(
    rules: Rules,
    stored: spec_fn(Seq<char>) -> Seq<BsonValue>,
    alert: Seq<(Seq<char>, BsonValue)>,
    r: Vec<Document>,
    depth: nat,
)
    requires
        call_ensures(create_lsst_alert_pipeline, (), r),
    ensures
        r@.len() == 5,
        after_stage(rules, stored, alert, all_fields(r@)[0], depth).len() == 0,
{
    lemma_operator_names();
    reveal_strlit("_id");
    reveal_strlit("$or");
    let asked = BsonValue::Fields(seq![("$in"@, BsonValue::List(seq![]))]);
    assert("_id"@[0] != "$or"@[0]);
    lemma_one_condition(rules, BsonValue::Fields(alert), "_id"@, asked, depth);
    assert(asked->Fields_0[0].0 == "$in"@);
    assert(all_fields(r@).len() == r@.len());
    assert(all_fields(r@)[0] == match_stage());
    reveal_strlit("$nearSphere");
    assert("$nearSphere"@.len() != "$in"@.len());
    lemma_absent(asked->Fields_0, "$nearSphere"@);
}

} // verus!
