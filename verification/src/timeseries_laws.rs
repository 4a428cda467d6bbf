//! What is stored and fetched: laws on what the expressions over time series come to on a document.

use crate::db::{
    binary_bytes, binary_subtype, cutout2bsonbinary, fetch_timeseries_op, fetched_timeseries_expr,
    finite_time_expr, first_element_expr, get_array_dict_element, get_array_element,
    keep_first_expr, optional_conditions_view, update_timeseries_op, updated_timeseries_expr,
    window_conditions,
};
use crate::document::{document_fields, documents_as_values, field_value, BsonValue};
use crate::meaning::{
    all_at_path, applied, at_path, head, is_among, literal, marked, passes, reduced, rest, truthy,
    value_of, Rules,
};
use mongodb::bson::{Binary, Document};
use vstd::prelude::*;

verus! {

pub(crate) proof fn lemma_operator_names()
    ensures
        "$concatArrays"@.len() == 13 && "$concatArrays"@[0] == '$',
        "$ifNull"@.len() == 7 && "$ifNull"@[0] == '$' && "$ifNull"@[1] == 'i',
        "$arrayElemAt"@.len() == 12 && "$arrayElemAt"@[0] == '$',
        "$in"@.len() == 3 && "$in"@[0] == '$' && "$in"@[1] == 'i',
        "$eq"@.len() == 3 && "$eq"@[0] == '$' && "$eq"@[1] == 'e',
        "$lt"@.len() == 3 && "$lt"@[0] == '$' && "$lt"@[1] == 'l',
        "$gt"@.len() == 3 && "$gt"@[0] == '$' && "$gt"@[1] == 'g',
        "$lte"@.len() == 4 && "$lte"@[0] == '$' && "$lte"@[1] == 'l',
        "$add"@.len() == 4 && "$add"@[0] == '$' && "$add"@[1] == 'a' && "$add"@[2] == 'd',
        "$size"@.len() == 5 && "$size"@[0] == '$' && "$size"@[1] == 's',
        "$subtract"@.len() == 9 && "$subtract"@[0] == '$' && "$subtract"@[1] == 's',
        "$isNumber"@.len() == 9 && "$isNumber"@[0] == '$' && "$isNumber"@[1] == 'i',
        "$and"@.len() == 4 && "$and"@[0] == '$' && "$and"@[1] == 'a' && "$and"@[2] == 'n',
        "$cond"@.len() == 5 && "$cond"@[0] == '$' && "$cond"@[1] == 'c',
        "$reduce"@.len() == 7 && "$reduce"@[0] == '$' && "$reduce"@[1] == 'r',
        "$filter"@.len() == 7 && "$filter"@[0] == '$' && "$filter"@[1] == 'f',
        "$sortArray"@.len() == 10 && "$sortArray"@[0] == '$',
{
    reveal_strlit("$concatArrays");
    reveal_strlit("$ifNull");
    reveal_strlit("$arrayElemAt");
    reveal_strlit("$in");
    reveal_strlit("$eq");
    reveal_strlit("$lt");
    reveal_strlit("$gt");
    reveal_strlit("$lte");
    reveal_strlit("$add");
    reveal_strlit("$size");
    reveal_strlit("$subtract");
    reveal_strlit("$isNumber");
    reveal_strlit("$and");
    reveal_strlit("$cond");
    reveal_strlit("$reduce");
    reveal_strlit("$filter");
    reveal_strlit("$sortArray");
}

pub open spec fn operation(operator: Seq<char>, argument: BsonValue) -> BsonValue {
    BsonValue::Fields(seq![(operator, argument)])
}

pub open spec fn operation2(operator: Seq<char>, a: BsonValue, b: BsonValue) -> BsonValue {
    operation(operator, BsonValue::List(seq![a, b]))
}

pub(crate) proof fn lemma_operation(
    rules: Rules,
    doc: BsonValue,
    variables: Map<Seq<char>, BsonValue>,
    operator: Seq<char>,
    argument: BsonValue,
    depth: nat,
)
    requires
        marked(operator),
        depth > 0,
    ensures
        value_of(rules, doc, variables, operation(operator, argument), depth) == applied(
            rules,
            doc,
            variables,
            operator,
            argument,
            (depth - 1) as nat,
        ),
{
    let fields = seq![(operator, argument)];
    assert(fields[0].0 == operator);
    assert(!literal(operation(operator, argument)));
}

pub(crate) proof fn lemma_field3(
    a: Seq<char>,
    x: BsonValue,
    b: Seq<char>,
    y: BsonValue,
    c: Seq<char>,
    z: BsonValue,
)
    requires
        a != b,
        a != c,
        b != c,
    ensures
        field_value(seq![(a, x), (b, y), (c, z)], a) == Some(x),
        field_value(seq![(a, x), (b, y), (c, z)], b) == Some(y),
        field_value(seq![(a, x), (b, y), (c, z)], c) == Some(z),
{
    let fields = seq![(a, x), (b, y), (c, z)];
    assert(fields.drop_first() =~= seq![(b, y), (c, z)]);
    assert(fields.drop_first().drop_first() =~= seq![(c, z)]);
    assert(fields.drop_first()[0] == (b, y));
    assert(fields.drop_first().drop_first()[0] == (c, z));
    reveal_with_fuel(field_value, 4);
}

pub(crate) proof fn lemma_field2(a: Seq<char>, x: BsonValue, b: Seq<char>, y: BsonValue)
    requires
        a != b,
    ensures
        field_value(seq![(a, x), (b, y)], a) == Some(x),
        field_value(seq![(a, x), (b, y)], b) == Some(y),
{
    let fields = seq![(a, x), (b, y)];
    assert(fields.drop_first() =~= seq![(b, y)]);
    assert(fields.drop_first()[0] == (b, y));
    reveal_with_fuel(field_value, 3);
}

pub open spec fn no_dot(name: Seq<char>) -> bool {
    forall|i: int| 0 <= i < name.len() ==> #[trigger] name[i] != '.'
}

pub(crate) proof fn lemma_split(name: Seq<char>, further: Seq<char>)
    requires
        no_dot(name),
    ensures
        head(name) == name,
        rest(name) is None,
        head(name + seq!['.'] + further) == name,
        rest(name + seq!['.'] + further) == Some(further),
    decreases name.len(),
{
    let whole = name + seq!['.'] + further;
    if name.len() == 0 {
        assert(whole[0] == '.');
        assert(whole.drop_first() =~= further);
        assert(name =~= seq![]);
    } else {
        let less = name.drop_first();
        assert forall|i: int| 0 <= i < less.len() implies #[trigger] less[i] != '.' by {
            assert(less[i] == name[i + 1]);
        }
        lemma_split(less, further);
        assert(whole.drop_first() =~= less + seq!['.'] + further);
        assert(whole[0] == name[0]);
        assert(seq![name[0]] + less =~= name);
    }
}

proof fn lemma_variable_path(
    rules: Rules,
    doc: BsonValue,
    variables: Map<Seq<char>, BsonValue>,
    prefix: Seq<char>,
    name: Seq<char>,
    further: Seq<char>,
    depth: nat,
)
    requires
        prefix == seq!['$', '$'] + name + seq!['.'],
        no_dot(name),
        depth > 0,
    ensures
        value_of(rules, doc, variables, BsonValue::Text(prefix + further), depth) == at_path(
            variables[name],
            further,
        ),
{
    let path = prefix + further;
    assert(path[0] == '$' && path[1] == '$');
    assert(path.skip(2) =~= name + seq!['.'] + further);
    lemma_split(name, further);
}

proof fn lemma_variable_alone(
    rules: Rules,
    doc: BsonValue,
    variables: Map<Seq<char>, BsonValue>,
    path: Seq<char>,
    name: Seq<char>,
    depth: nat,
)
    requires
        path == seq!['$', '$'] + name,
        no_dot(name),
        depth > 0,
    ensures
        value_of(rules, doc, variables, BsonValue::Text(path), depth) == Some(variables[name]),
{
    assert(path[0] == '$' && path[1] == '$');
    assert(path.skip(2) =~= name);
    lemma_split(name, seq![]);
}

pub(crate) proof fn lemma_field_path(
    rules: Rules,
    doc: BsonValue,
    variables: Map<Seq<char>, BsonValue>,
    field: Seq<char>,
    depth: nat,
)
    requires
        !marked(field),
        depth > 0,
    ensures
        value_of(rules, doc, variables, BsonValue::Text("$"@ + field), depth) == at_path(
            doc,
            field,
        ),
{
    reveal_strlit("$");
    let path = "$"@ + field;
    assert(path[0] == '$');
    assert(path.len() > 1 ==> path[1] == field[0]);
    assert(path.skip(1) =~= field);
}

proof fn lemma_names()
    ensures
        "$$this."@ == seq!['$', '$'] + "this"@ + seq!['.'],
        "$$value."@ == seq!['$', '$'] + "value"@ + seq!['.'],
        "$$point."@ == seq!['$', '$'] + "point"@ + seq!['.'],
        "$$value"@ == seq!['$', '$'] + "value"@,
        "$$this"@ == seq!['$', '$'] + "this"@,
        no_dot("this"@),
        no_dot("value"@),
        no_dot("point"@),
        no_dot("x"@),
        "this"@ != "value"@,
{
    reveal_strlit("$$this.");
    reveal_strlit("$$value.");
    reveal_strlit("$$point.");
    reveal_strlit("$$value");
    reveal_strlit("$$this");
    reveal_strlit("this");
    reveal_strlit("value");
    reveal_strlit("point");
    reveal_strlit("x");
    assert("$$this."@ =~= seq!['$', '$'] + "this"@ + seq!['.']);
    assert("$$value."@ =~= seq!['$', '$'] + "value"@ + seq!['.']);
    assert("$$point."@ =~= seq!['$', '$'] + "point"@ + seq!['.']);
    assert("$$value"@ =~= seq!['$', '$'] + "value"@);
    assert("$$this"@ =~= seq!['$', '$'] + "this"@);
    assert("this"@.len() != "value"@.len());
}

/// Whether the time of a point is among those of others.
pub open spec fn time_is_taken(
    rules: Rules,
    point: BsonValue,
    others: Seq<BsonValue>,
    time_field: Seq<char>,
) -> bool {
    exists|i: int|
        0 <= i < others.len() && at_path(#[trigger] others[i], time_field) is Some
            && (rules.equal)(at_path(point, time_field), at_path(others[i], time_field))
}

/// Of points, the first of each time, in order.
pub open spec fn first_of_each_time(
    rules: Rules,
    points: Seq<BsonValue>,
    time_field: Seq<char>,
) -> Seq<BsonValue>
    decreases points.len(),
{
    if points.len() == 0 {
        seq![]
    } else {
        let before = first_of_each_time(rules, points.drop_last(), time_field);
        if time_is_taken(rules, points.last(), before, time_field) {
            before
        } else {
            before.push(points.last())
        }
    }
}

/// Whether the time of a point is a number, and a finite one.
pub open spec fn has_finite_time(rules: Rules, point: BsonValue, time_field: Seq<char>) -> bool {
    let time = at_path(point, time_field);
    &&& (rules.is_number)(time)
    &&& (rules.equal)(time, time)
    &&& (rules.less)(time, Some(BsonValue::Infinity { negative: false }))
    &&& (rules.less)(Some(BsonValue::Infinity { negative: true }), time)
}

/// The points that a document holds in a field: none, where it holds nothing there.
pub open spec fn points_in(doc: BsonValue, array_field: Seq<char>) -> Seq<BsonValue> {
    match at_path(doc, array_field) {
        Some(BsonValue::List(points)) => points,
        _ => seq![],
    }
}

/// Whether a document holds a list in a field, or nothing.
pub open spec fn holds_points(doc: BsonValue, array_field: Seq<char>) -> bool {
    match at_path(doc, array_field) {
        Some(BsonValue::List(_)) => true,
        Some(BsonValue::Nothing) => true,
        None => true,
        _ => false,
    }
}

proof fn lemma_all_at_path(values: Seq<BsonValue>, path: Seq<char>, held: BsonValue)
    ensures
        all_at_path(values, path).contains(held) <==> exists|i: int|
            0 <= i < values.len() && at_path(#[trigger] values[i], path) == Some(held),
    decreases values.len(),
{
    if values.len() > 0 {
        let n = values.len() - 1;
        let less = values.subrange(0, n);
        let before = all_at_path(less, path);
        let after = all_at_path(values, path);
        lemma_all_at_path(less, path, held);
        if before.contains(held) {
            let i = choose|i: int|
                0 <= i < less.len() && at_path(#[trigger] less[i], path) == Some(held);
            assert(values[i] == less[i]);
            let k = choose|k: int| 0 <= k < before.len() && before[k] == held;
            assert(after[k] == held);
        }
        if after.contains(held) {
            let k = choose|k: int| 0 <= k < after.len() && after[k] == held;
            if k < before.len() {
                assert(before[k] == held);
            } else {
                assert(at_path(values[n], path) == Some(held));
            }
        }
        if exists|i: int| 0 <= i < values.len() && at_path(#[trigger] values[i], path) == Some(held) {
            let i = choose|i: int|
                0 <= i < values.len() && at_path(#[trigger] values[i], path) == Some(held);
            if i < n {
                assert(less[i] == values[i]);
            } else {
                assert(after[before.len() as int] == held);
            }
        }
    }
}

proof fn lemma_among_times(
    rules: Rules,
    point: BsonValue,
    others: Seq<BsonValue>,
    time_field: Seq<char>,
)
    ensures
        is_among(rules, at_path(point, time_field), all_at_path(others, time_field))
            == time_is_taken(rules, point, others, time_field),
{
    let times = all_at_path(others, time_field);
    let time = at_path(point, time_field);
    if is_among(rules, time, times) {
        let k = choose|k: int|
            0 <= k < times.len() && (rules.equal)(time, Some(#[trigger] times[k]));
        lemma_all_at_path(others, time_field, times[k]);
        assert(times.contains(times[k]));
        let i = choose|i: int|
            0 <= i < others.len() && at_path(#[trigger] others[i], time_field) == Some(times[k]);
        assert(at_path(others[i], time_field) is Some);
    }
    if time_is_taken(rules, point, others, time_field) {
        let i = choose|i: int|
            0 <= i < others.len() && at_path(#[trigger] others[i], time_field) is Some
                && (rules.equal)(time, at_path(others[i], time_field));
        let held = at_path(others[i], time_field)->Some_0;
        lemma_all_at_path(others, time_field, held);
        let k = choose|k: int| 0 <= k < times.len() && times[k] == held;
        assert((rules.equal)(time, Some(times[k])));
    }
}

proof fn lemma_keep_first(
    rules: Rules,
    doc: BsonValue,
    variables: Map<Seq<char>, BsonValue>,
    point: BsonValue,
    kept: Seq<BsonValue>,
    time_field: Seq<char>,
    depth: nat,
)
    requires
        depth >= 4,
        variables["this"@] == point,
        variables["value"@] == BsonValue::List(kept),
    ensures
        value_of(rules, doc, variables, keep_first_expr(time_field), depth) == Some(
            BsonValue::List(
                if time_is_taken(rules, point, kept, time_field) {
                    kept
                } else {
                    kept.push(point)
                },
            ),
        ),
{
    lemma_operator_names();
    lemma_names();
    let this_time = BsonValue::Text("$$this."@ + time_field);
    let kept_times = BsonValue::Text("$$value."@ + time_field);
    let known = operation2("$in"@, this_time, kept_times);
    let all = BsonValue::Text("$$value"@);
    let alone = BsonValue::List(seq![BsonValue::Text("$$this"@)]);
    let longer = operation2("$concatArrays"@, all, alone);
    let d1 = (depth - 1) as nat;
    let d2 = (depth - 2) as nat;
    let d3 = (depth - 3) as nat;
    reveal_strlit("if");
    reveal_strlit("then");
    reveal_strlit("else");
    assert("if"@.len() == 2 && "then"@.len() == 4 && "else"@.len() == 4);
    assert("then"@[0] == 't' && "else"@[0] == 'e');
    lemma_field3("if"@, known, "then"@, all, "else"@, longer);
    let choice = BsonValue::Fields(seq![("if"@, known), ("then"@, all), ("else"@, longer)]);
    assert(keep_first_expr(time_field) == operation("$cond"@, choice));
    lemma_operation(rules, doc, variables, "$cond"@, choice, depth);
    // whether the time is known
    let pair = BsonValue::List(seq![this_time, kept_times]);
    lemma_operation(rules, doc, variables, "$in"@, pair, d1);
    lemma_variable_path(rules, doc, variables, "$$this."@, "this"@, time_field, d2);
    lemma_variable_path(rules, doc, variables, "$$value."@, "value"@, time_field, d2);
    assert(pair->List_0[0] == this_time && pair->List_0[1] == kept_times);
    lemma_among_times(rules, point, kept, time_field);
    assert(value_of(rules, doc, variables, known, d1) == Some(
        BsonValue::Truth(time_is_taken(rules, point, kept, time_field)),
    ));
    // the points as they are
    lemma_variable_alone(rules, doc, variables, "$$value"@, "value"@, d1);
    // the points with the next one
    let both = BsonValue::List(seq![all, alone]);
    lemma_operation(rules, doc, variables, "$concatArrays"@, both, d1);
    lemma_variable_alone(rules, doc, variables, "$$value"@, "value"@, d2);
    lemma_variable_alone(rules, doc, variables, "$$this"@, "this"@, d3);
    assert(both->List_0[0] == all && both->List_0[1] == alone);
    assert(alone->List_0[0] == BsonValue::Text("$$this"@));
    assert(!literal(BsonValue::Text("$$this"@))) by {
        assert("$$this"@[0] == '$');
    }
    assert(!literal(alone));
    assert(value_of(rules, doc, variables, alone, d2)->Some_0->List_0 =~= seq![point]);
    assert(value_of(rules, doc, variables, alone, d2) == Some(BsonValue::List(seq![point])));
    assert(kept + seq![point] =~= kept.push(point));
    assert(value_of(rules, doc, variables, longer, d1) == Some(BsonValue::List(kept.push(point))));
}

proof fn lemma_reduced(
    rules: Rules,
    doc: BsonValue,
    variables: Map<Seq<char>, BsonValue>,
    points: Seq<BsonValue>,
    time_field: Seq<char>,
    depth: nat,
)
    requires
        depth >= 4,
    ensures
        reduced(
            rules,
            doc,
            variables,
            points,
            BsonValue::List(seq![]),
            keep_first_expr(time_field),
            depth,
        ) == BsonValue::List(first_of_each_time(rules, points, time_field)),
    decreases points.len(),
{
    if points.len() > 0 {
        lemma_reduced(rules, doc, variables, points.drop_last(), time_field, depth);
        lemma_names();
        let before = first_of_each_time(rules, points.drop_last(), time_field);
        let inner = variables.insert("this"@, points.last()).insert(
            "value"@,
            BsonValue::List(before),
        );
        lemma_keep_first(rules, doc, inner, points.last(), before, time_field, depth);
    }
}

proof fn lemma_finite_time(
    rules: Rules,
    doc: BsonValue,
    variables: Map<Seq<char>, BsonValue>,
    time_field: Seq<char>,
    depth: nat,
)
    requires
        depth >= 3,
    ensures
        truthy(value_of(rules, doc, variables, finite_time_expr(time_field), depth))
            == has_finite_time(rules, variables["point"@], time_field),
{
    lemma_operator_names();
    lemma_names();
    let point = variables["point"@];
    let time = BsonValue::Text("$$point."@ + time_field);
    let most = BsonValue::Infinity { negative: false };
    let least = BsonValue::Infinity { negative: true };
    let number = operation("$isNumber"@, time);
    let itself = operation2("$eq"@, time, time);
    let below = operation2("$lt"@, time, most);
    let above = operation2("$gt"@, time, least);
    let all = seq![number, itself, below, above];
    let d1 = (depth - 1) as nat;
    let d2 = (depth - 2) as nat;
    assert(finite_time_expr(time_field) == operation("$and"@, BsonValue::List(all)));
    lemma_operation(rules, doc, variables, "$and"@, BsonValue::List(all), depth);
    lemma_variable_path(rules, doc, variables, "$$point."@, "point"@, time_field, d2);
    lemma_operation(rules, doc, variables, "$isNumber"@, time, d1);
    lemma_operation(rules, doc, variables, "$eq"@, BsonValue::List(seq![time, time]), d1);
    lemma_operation(rules, doc, variables, "$lt"@, BsonValue::List(seq![time, most]), d1);
    lemma_operation(rules, doc, variables, "$gt"@, BsonValue::List(seq![time, least]), d1);
    assert(all[0] == number && all[1] == itself && all[2] == below && all[3] == above);
    let held = |i: int| truthy(value_of(rules, doc, variables, all[i], d1));
    let t = at_path(point, time_field);
    assert(held(0) == (rules.is_number)(t));
    assert(held(1) == (rules.equal)(t, t)) by {
        assert(seq![time, time][0] == time && seq![time, time][1] == time);
    }
    assert(held(2) == (rules.less)(t, Some(most))) by {
        assert(seq![time, most][0] == time && seq![time, most][1] == most);
    }
    assert(held(3) == (rules.less)(Some(least), t)) by {
        assert(seq![time, least][0] == time && seq![time, least][1] == least);
    }
    if has_finite_time(rules, point, time_field) {
        assert forall|i: int| 0 <= i < all.len() implies truthy(
            value_of(rules, doc, variables, #[trigger] all[i], d1),
        ) by {
            assert(i == 0 || i == 1 || i == 2 || i == 3);
            assert(held(i));
        }
    } else {
        assert(!held(0) || !held(1) || !held(2) || !held(3));
    }
}

/// An update of a time series gives, on any document, what the document holds in the field and the
/// new points behind it, of each time the first, those whose time is a finite number, sorted by the
/// time.
proof fn lemma_update(
    rules: Rules,
    doc: BsonValue,
    array_field: Seq<char>,
    time_field: Seq<char>,
    new_points: Seq<BsonValue>,
    depth: nat,
)
    requires
        depth >= 7,
        !marked(array_field),
        holds_points(doc, array_field),
        forall|i: int| 0 <= i < new_points.len() ==> literal(#[trigger] new_points[i]),
    ensures
        value_of(
            rules,
            doc,
            Map::empty(),
            BsonValue::Fields(updated_timeseries_expr(array_field, time_field, new_points)),
            depth,
        ) == Some(
            BsonValue::List(
                (rules.sorted)(
                    first_of_each_time(
                        rules,
                        points_in(doc, array_field) + new_points,
                        time_field,
                    ).filter(|point: BsonValue| has_finite_time(rules, point, time_field)),
                    seq![(time_field, BsonValue::Int32(1))],
                ),
            ),
        ),
{
    lemma_operator_names();
    lemma_names();
    let none = Map::<Seq<char>, BsonValue>::empty();
    let d1 = (depth - 1) as nat;
    let d2 = (depth - 2) as nat;
    let d3 = (depth - 3) as nat;
    let d4 = (depth - 4) as nat;
    let d5 = (depth - 5) as nat;
    reveal_strlit("input");
    reveal_strlit("initialValue");
    reveal_strlit("in");
    reveal_strlit("as");
    reveal_strlit("cond");
    reveal_strlit("sortBy");
    assert("input"@.len() == 5 && "initialValue"@.len() == 12 && "in"@.len() == 2);
    assert("as"@.len() == 2 && "cond"@.len() == 4 && "sortBy"@.len() == 6);
    let empty = BsonValue::List(seq![]);
    // the stored points and the new ones
    let path = BsonValue::Text("$"@ + array_field);
    let stored = operation2("$ifNull"@, path, empty);
    let added = BsonValue::List(new_points);
    let all = operation2("$concatArrays"@, stored, added);
    let points = points_in(doc, array_field) + new_points;
    lemma_field_path(rules, doc, none, array_field, d5);
    lemma_operation(rules, doc, none, "$ifNull"@, BsonValue::List(seq![path, empty]), d4);
    assert(seq![path, empty][0] == path && seq![path, empty][1] == empty);
    assert(value_of(rules, doc, none, stored, d4) == Some(
        BsonValue::List(points_in(doc, array_field)),
    ));
    lemma_operation(rules, doc, none, "$concatArrays"@, BsonValue::List(seq![stored, added]), d3);
    assert(seq![stored, added][0] == stored && seq![stored, added][1] == added);
    assert(literal(added));
    assert(value_of(rules, doc, none, all, d3) == Some(BsonValue::List(points)));
    // one for each time
    let keep = keep_first_expr(time_field);
    let steps = BsonValue::Fields(seq![("input"@, all), ("initialValue"@, empty), ("in"@, keep)]);
    let once = operation("$reduce"@, steps);
    lemma_field3("input"@, all, "initialValue"@, empty, "in"@, keep);
    lemma_operation(rules, doc, none, "$reduce"@, steps, d2);
    lemma_reduced(rules, doc, none, points, time_field, d3);
    let kept = first_of_each_time(rules, points, time_field);
    assert(value_of(rules, doc, none, once, d2) == Some(BsonValue::List(kept)));
    // those of finite times
    let name = BsonValue::Text("point"@);
    let condition = finite_time_expr(time_field);
    let choice = BsonValue::Fields(seq![("input"@, once), ("as"@, name), ("cond"@, condition)]);
    let finite = operation("$filter"@, choice);
    lemma_field3("input"@, once, "as"@, name, "cond"@, condition);
    lemma_operation(rules, doc, none, "$filter"@, choice, d1);
    let met = passes(rules, doc, none, "point"@, condition, d2);
    let wanted = |point: BsonValue| has_finite_time(rules, point, time_field);
    assert forall|value: BsonValue| #[trigger] met(value) == wanted(value) by {
        lemma_finite_time(rules, doc, none.insert("point"@, value), time_field, d2);
    }
    assert(met =~= wanted);
    assert(value_of(rules, doc, none, finite, d1) == Some(BsonValue::List(kept.filter(met))));
    // in order
    let by = BsonValue::Fields(seq![(time_field, BsonValue::Int32(1))]);
    let sort = BsonValue::Fields(seq![("input"@, finite), ("sortBy"@, by)]);
    lemma_field2("input"@, finite, "sortBy"@, by);
    lemma_operation(rules, doc, none, "$sortArray"@, sort, depth);
    assert(BsonValue::Fields(updated_timeseries_expr(array_field, time_field, new_points))
        == operation("$sortArray"@, sort));
}

/// No time is kept twice.
pub proof fn law_no_time_is_kept_twice(
    rules: Rules,
    points: Seq<BsonValue>,
    time_field: Seq<char>,
    i: int,
    j: int,
)
    requires
        0 <= i < j < first_of_each_time(rules, points, time_field).len(),
        at_path(first_of_each_time(rules, points, time_field)[i], time_field) is Some,
    ensures
        !(rules.equal)(
            at_path(first_of_each_time(rules, points, time_field)[j], time_field),
            at_path(first_of_each_time(rules, points, time_field)[i], time_field),
        ),
    decreases points.len(),
{
    let before = first_of_each_time(rules, points.drop_last(), time_field);
    if j < before.len() {
        law_no_time_is_kept_twice(rules, points.drop_last(), time_field, i, j);
    } else {
        assert(at_path(before[i], time_field) is Some);
    }
}

/// Points that already have each time once are all kept.
pub proof fn law_points_of_different_times_are_kept(
    rules: Rules,
    points: Seq<BsonValue>,
    time_field: Seq<char>,
)
    requires
        forall|i: int, j: int|
            0 <= i < j < points.len() ==> !(rules.equal)(
                at_path(#[trigger] points[j], time_field),
                at_path(#[trigger] points[i], time_field),
            ),
    ensures
        first_of_each_time(rules, points, time_field) == points,
    decreases points.len(),
{
    if points.len() > 0 {
        let less = points.drop_last();
        assert forall|i: int, j: int| 0 <= i < j < less.len() implies !(rules.equal)(
            at_path(#[trigger] less[j], time_field),
            at_path(#[trigger] less[i], time_field),
        ) by {
            assert(less[i] == points[i] && less[j] == points[j]);
        }
        law_points_of_different_times_are_kept(rules, less, time_field);
        if time_is_taken(rules, points.last(), less, time_field) {
            let i = choose|i: int|
                0 <= i < less.len() && at_path(#[trigger] less[i], time_field) is Some
                    && (rules.equal)(
                    at_path(points.last(), time_field),
                    at_path(less[i], time_field),
                );
            assert(points[i] == less[i] && points[points.len() - 1] == points.last());
        }
        assert(less.push(points.last()) =~= points);
    }
}

proof fn lemma_filter_keeps_all(points: Seq<BsonValue>, wanted: spec_fn(BsonValue) -> bool)
    requires
        forall|i: int| 0 <= i < points.len() ==> wanted(#[trigger] points[i]),
    ensures
        points.filter(wanted) == points,
    decreases points.len(),
{
    reveal(Seq::filter);
    if points.len() > 0 {
        let less = points.drop_last();
        assert forall|i: int| 0 <= i < less.len() implies wanted(#[trigger] less[i]) by {
            assert(less[i] == points[i]);
        }
        lemma_filter_keeps_all(less, wanted);
        assert(wanted(points[points.len() - 1]));
        assert(less.push(points.last()) =~= points);
    }
}

/// An update with no new points gives back what the field holds, in the order of the time, where
/// that has one point per time and finite times.
proof fn lemma_update_with_nothing(
    rules: Rules,
    doc: BsonValue,
    array_field: Seq<char>,
    time_field: Seq<char>,
    depth: nat,
)
    requires
        depth >= 7,
        !marked(array_field),
        holds_points(doc, array_field),
        ({
            let points = points_in(doc, array_field);
            &&& forall|i: int, j: int|
                0 <= i < j < points.len() ==> !(rules.equal)(
                    at_path(#[trigger] points[j], time_field),
                    at_path(#[trigger] points[i], time_field),
                )
            &&& forall|i: int|
                0 <= i < points.len() ==> has_finite_time(
                    rules,
                    #[trigger] points[i],
                    time_field,
                )
        }),
    ensures
        value_of(
            rules,
            doc,
            Map::empty(),
            BsonValue::Fields(updated_timeseries_expr(array_field, time_field, seq![])),
            depth,
        ) == Some(
            BsonValue::List(
                (rules.sorted)(
                    points_in(doc, array_field),
                    seq![(time_field, BsonValue::Int32(1))],
                ),
            ),
        ),
{
    let points = points_in(doc, array_field);
    lemma_update(rules, doc, array_field, time_field, seq![], depth);
    assert(points + Seq::<BsonValue>::empty() =~= points);
    law_points_of_different_times_are_kept(rules, points, time_field);
    lemma_filter_keeps_all(
        points,
        |point: BsonValue| has_finite_time(rules, point, time_field),
    );
}

/// Updates of different fields, by different times or with different points are different updates.
proof fn lemma_updates_differ(
    array_a: Seq<char>,
    array_b: Seq<char>,
    time_a: Seq<char>,
    time_b: Seq<char>,
    points_a: Seq<BsonValue>,
    points_b: Seq<BsonValue>,
)
    requires
        updated_timeseries_expr(array_a, time_a, points_a) == updated_timeseries_expr(
            array_b,
            time_b,
            points_b,
        ),
    ensures
        array_a == array_b,
        time_a == time_b,
        points_a == points_b,
{
    let a = updated_timeseries_expr(array_a, time_a, points_a)[0].1->Fields_0;
    let b = updated_timeseries_expr(array_b, time_b, points_b)[0].1->Fields_0;
    assert(a[1].1->Fields_0[0].0 == time_a && b[1].1->Fields_0[0].0 == time_b);
    let all_a = a[0].1->Fields_0[0].1->Fields_0[0].1->Fields_0[0].1->Fields_0[0].1->Fields_0[0].1->List_0;
    let all_b = b[0].1->Fields_0[0].1->Fields_0[0].1->Fields_0[0].1->Fields_0[0].1->Fields_0[0].1->List_0;
    assert(all_a == all_b);
    assert(all_a[1]->List_0 == points_a && all_b[1]->List_0 == points_b);
    let path_a = all_a[0]->Fields_0[0].1->List_0[0]->Text_0;
    let path_b = all_b[0]->Fields_0[0].1->List_0[0]->Text_0;
    assert(path_a == "$"@ + array_a && path_b == "$"@ + array_b);
    reveal_strlit("$");
    assert(path_a.skip(1) =~= array_a);
    assert(path_b.skip(1) =~= array_b);
}

/// What the first element of what a document holds in a field is, or the fallback: where there is
/// no list, no element, or nothing in its place.
pub open spec fn first_or(
    doc: BsonValue,
    field: Seq<char>,
    fallback: BsonValue,
) -> BsonValue {
    match at_path(doc, field) {
        Some(BsonValue::List(values)) => if values.len() > 0 && values[0] != BsonValue::Nothing {
            values[0]
        } else {
            fallback
        },
        _ => fallback,
    }
}

/// The expression for the first element of a field gives, on any document, the first element of
/// that field, or the fallback.
proof fn lemma_first_element(
    rules: Rules,
    doc: BsonValue,
    variables: Map<Seq<char>, BsonValue>,
    field: Seq<char>,
    fallback: BsonValue,
    depth: nat,
)
    requires
        depth >= 3,
        !marked(field),
        literal(fallback),
    ensures
        value_of(
            rules,
            doc,
            variables,
            BsonValue::Fields(first_element_expr(field, fallback)),
            depth,
        ) == Some(first_or(doc, field, fallback)),
{
    lemma_operator_names();
    let path = BsonValue::Text("$"@ + field);
    let zero = BsonValue::Int32(0);
    let element = operation2("$arrayElemAt"@, path, zero);
    let d1 = (depth - 1) as nat;
    lemma_field_path(rules, doc, variables, field, (depth - 2) as nat);
    lemma_operation(rules, doc, variables, "$arrayElemAt"@, BsonValue::List(seq![path, zero]), d1);
    assert(seq![path, zero][0] == path && seq![path, zero][1] == zero);
    lemma_operation(
        rules,
        doc,
        variables,
        "$ifNull"@,
        BsonValue::List(seq![element, fallback]),
        depth,
    );
    assert(seq![element, fallback][0] == element && seq![element, fallback][1] == fallback);
    assert(BsonValue::Fields(first_element_expr(field, fallback)) == operation2(
        "$ifNull"@,
        element,
        fallback,
    ));
}

/// Whether a point lies in a window: it was taken less than so long before the time of the
/// candidate, and not after it.
pub open spec fn lies_in_window(
    rules: Rules,
    doc: BsonValue,
    point: BsonValue,
    candidate_jd_field: Seq<char>,
    time_window: i32,
) -> bool {
    let taken = at_path(point, "jd"@);
    let now = at_path(doc, candidate_jd_field);
    &&& (rules.less)((rules.difference)(now, taken), Some(BsonValue::Int32(time_window)))
    &&& (rules.at_most)(taken, now)
}

proof fn lemma_window(
    rules: Rules,
    doc: BsonValue,
    variables: Map<Seq<char>, BsonValue>,
    candidate_jd_field: Seq<char>,
    time_window: i32,
    depth: nat,
)
    requires
        depth >= 3,
        !marked(candidate_jd_field),
    ensures
        ({
            let conditions = window_conditions(candidate_jd_field, time_window);
            &&& conditions.len() == 2
            &&& (truthy(value_of(rules, doc, variables, conditions[0], depth)) && truthy(
                value_of(rules, doc, variables, conditions[1], depth),
            )) == lies_in_window(
                rules,
                doc,
                variables["x"@],
                candidate_jd_field,
                time_window,
            )
        }),
{
    lemma_operator_names();
    lemma_names();
    reveal_strlit("$$x.jd");
    reveal_strlit("x");
    reveal_strlit("jd");
    let prefix = seq!['$', '$'] + "x"@ + seq!['.'];
    assert("$$x.jd"@ =~= prefix + "jd"@);
    let d1 = (depth - 1) as nat;
    let d2 = (depth - 2) as nat;
    let taken = BsonValue::Text("$$x.jd"@);
    let now = BsonValue::Text("$"@ + candidate_jd_field);
    let window = BsonValue::Int32(time_window);
    let age = operation2("$subtract"@, now, taken);
    lemma_variable_path(rules, doc, variables, prefix, "x"@, "jd"@, d1);
    lemma_variable_path(rules, doc, variables, prefix, "x"@, "jd"@, d2);
    lemma_field_path(rules, doc, variables, candidate_jd_field, d1);
    lemma_field_path(rules, doc, variables, candidate_jd_field, d2);
    lemma_operation(rules, doc, variables, "$subtract"@, BsonValue::List(seq![now, taken]), d1);
    assert(seq![now, taken][0] == now && seq![now, taken][1] == taken);
    lemma_operation(rules, doc, variables, "$lt"@, BsonValue::List(seq![age, window]), depth);
    assert(seq![age, window][0] == age && seq![age, window][1] == window);
    lemma_operation(rules, doc, variables, "$lte"@, BsonValue::List(seq![taken, now]), depth);
    assert(seq![taken, now][0] == taken && seq![taken, now][1] == now);
    let conditions = window_conditions(candidate_jd_field, time_window);
    assert(conditions[0] == operation2("$lt"@, age, window));
    assert(conditions[1] == operation2("$lte"@, taken, now));
}

/// A fetch of a time series gives, on any document, the points of the first list that the document
/// holds in the field which lie in the window before the time of the candidate and of which every
/// further condition is true.
proof fn lemma_fetch(
    rules: Rules,
    doc: BsonValue,
    array_field: Seq<char>,
    candidate_jd_field: Seq<char>,
    time_window: i32,
    further: Seq<BsonValue>,
    points: Seq<BsonValue>,
    depth: nat,
)
    requires
        depth >= 5,
        !marked(array_field),
        !marked(candidate_jd_field),
        first_or(doc, array_field, BsonValue::List(seq![])) == BsonValue::List(points),
    ensures
        value_of(
            rules,
            doc,
            Map::empty(),
            BsonValue::Fields(
                fetched_timeseries_expr(
                    array_field,
                    window_conditions(candidate_jd_field, time_window) + further,
                ),
            ),
            depth,
        ) == Some(
            BsonValue::List(
                points.filter(
                    |point: BsonValue|
                        lies_in_window(rules, doc, point, candidate_jd_field, time_window) && (
                        forall|k: int|
                            0 <= k < further.len() ==> truthy(
                                value_of(
                                    rules,
                                    doc,
                                    Map::empty().insert("x"@, point),
                                    #[trigger] further[k],
                                    (depth - 2) as nat,
                                ),
                            )),
                ),
            ),
        ),
{
    lemma_operator_names();
    let none = Map::<Seq<char>, BsonValue>::empty();
    let d1 = (depth - 1) as nat;
    let d2 = (depth - 2) as nat;
    reveal_strlit("input");
    reveal_strlit("as");
    reveal_strlit("cond");
    assert("input"@.len() == 5 && "as"@.len() == 2 && "cond"@.len() == 4);
    let empty = BsonValue::List(seq![]);
    let input = BsonValue::Fields(first_element_expr(array_field, empty));
    lemma_first_element(rules, doc, none, array_field, empty, d1);
    let window = window_conditions(candidate_jd_field, time_window);
    let conditions = window + further;
    let all = operation("$and"@, BsonValue::List(conditions));
    let name = BsonValue::Text("x"@);
    let choice = BsonValue::Fields(seq![("input"@, input), ("as"@, name), ("cond"@, all)]);
    lemma_field3("input"@, input, "as"@, name, "cond"@, all);
    lemma_operation(rules, doc, none, "$filter"@, choice, depth);
    assert(BsonValue::Fields(fetched_timeseries_expr(array_field, conditions)) == operation(
        "$filter"@,
        choice,
    ));
    let met = passes(rules, doc, none, "x"@, all, d1);
    let wanted = |point: BsonValue|
        lies_in_window(rules, doc, point, candidate_jd_field, time_window) && (forall|k: int|
            0 <= k < further.len() ==> truthy(
                value_of(rules, doc, none.insert("x"@, point), #[trigger] further[k], d2),
            ));
    assert forall|point: BsonValue| #[trigger] met(point) == wanted(point) by {
        let inner = none.insert("x"@, point);
        lemma_operation(rules, doc, inner, "$and"@, BsonValue::List(conditions), d1);
        lemma_window(rules, doc, inner, candidate_jd_field, time_window, d2);
        assert(conditions[0] == window[0] && conditions[1] == window[1]);
        if wanted(point) {
            assert forall|i: int| 0 <= i < conditions.len() implies truthy(
                value_of(rules, doc, inner, #[trigger] conditions[i], d2),
            ) by {
                if i >= 2 {
                    assert(conditions[i] == further[i - 2]);
                }
            }
        }
        if met(point) {
            assert forall|k: int| 0 <= k < further.len() implies truthy(
                value_of(rules, doc, inner, #[trigger] further[k], d2),
            ) by {
                assert(conditions[k + 2] == further[k]);
            }
        }
    }
    assert(met =~= wanted);
}

/// What documents hold, each as a value.
pub open spec fn values_of(docs: Seq<Document>) -> Seq<BsonValue> {
    Seq::new(docs.len(), |i: int| BsonValue::Fields(document_fields(docs[i])))
}

/// An update of a time series gives, on any document, what the document holds in the field that is
/// named and the new points behind it, of each time the first, those whose time is a finite number,
/// sorted by the time.
pub proof fn law_an_update_keeps_one_point_per_time(
    array_field: &str,
    time_field: &str,
    value: Vec<Document>,
    r: Document,
    rules: Rules,
    doc: BsonValue,
    depth: nat,
)
    requires
        call_ensures(update_timeseries_op, (array_field, time_field, &value), r),
        depth >= 7,
        !marked(array_field@),
        holds_points(doc, array_field@),
        forall|i: int| 0 <= i < value@.len() ==> literal(#[trigger] values_of(value@)[i]),
    ensures
        value_of(rules, doc, Map::empty(), BsonValue::Fields(document_fields(r)), depth) == Some(
            BsonValue::List(
                (rules.sorted)(
                    first_of_each_time(
                        rules,
                        points_in(doc, array_field@) + values_of(value@),
                        time_field@,
                    ).filter(|point: BsonValue| has_finite_time(rules, point, time_field@)),
                    seq![(time_field@, BsonValue::Int32(1))],
                ),
            ),
        ),
{
    assert(documents_as_values(value@) =~= values_of(value@));
    lemma_update(rules, doc, array_field@, time_field@, values_of(value@), depth);
}

/// An update with no new points gives back what the field that is named holds, in the order of the
/// time, where that has one point per time and finite times.
pub proof fn law_an_update_with_nothing_gives_the_field_back(
    array_field: &str,
    time_field: &str,
    value: Vec<Document>,
    r: Document,
    rules: Rules,
    doc: BsonValue,
    depth: nat,
)
    requires
        call_ensures(update_timeseries_op, (array_field, time_field, &value), r),
        value@.len() == 0,
        depth >= 7,
        !marked(array_field@),
        holds_points(doc, array_field@),
        ({
            let points = points_in(doc, array_field@);
            &&& forall|i: int, j: int|
                0 <= i < j < points.len() ==> !(rules.equal)(
                    at_path(#[trigger] points[j], time_field@),
                    at_path(#[trigger] points[i], time_field@),
                )
            &&& forall|i: int|
                0 <= i < points.len() ==> has_finite_time(
                    rules,
                    #[trigger] points[i],
                    time_field@,
                )
        }),
    ensures
        value_of(rules, doc, Map::empty(), BsonValue::Fields(document_fields(r)), depth) == Some(
            BsonValue::List(
                (rules.sorted)(
                    points_in(doc, array_field@),
                    seq![(time_field@, BsonValue::Int32(1))],
                ),
            ),
        ),
{
    assert(documents_as_values(value@) =~= seq![]);
    lemma_update_with_nothing(rules, doc, array_field@, time_field@, depth);
}

/// An update reads the field that it names and no other: on two documents that hold the same there,
/// it gives the same, whatever else they hold.
pub proof fn law_an_update_reads_its_field_alone(
    array_field: &str,
    time_field: &str,
    value: Vec<Document>,
    r: Document,
    rules: Rules,
    doc_a: BsonValue,
    doc_b: BsonValue,
    depth: nat,
)
    requires
        call_ensures(update_timeseries_op, (array_field, time_field, &value), r),
        depth >= 7,
        !marked(array_field@),
        holds_points(doc_a, array_field@),
        at_path(doc_a, array_field@) == at_path(doc_b, array_field@),
        forall|i: int| 0 <= i < value@.len() ==> literal(#[trigger] values_of(value@)[i]),
    ensures
        value_of(rules, doc_a, Map::empty(), BsonValue::Fields(document_fields(r)), depth)
            == value_of(
            rules,
            doc_b,
            Map::empty(),
            BsonValue::Fields(document_fields(r)),
            depth,
        ),
{
    law_an_update_keeps_one_point_per_time(
        array_field,
        time_field,
        value,
        r,
        rules,
        doc_a,
        depth,
    );
    law_an_update_keeps_one_point_per_time(
        array_field,
        time_field,
        value,
        r,
        rules,
        doc_b,
        depth,
    );
}

/// Updates of different fields, by different times or with different points are different updates.
pub proof fn law_different_updates_differ(
    array_a: &str,
    time_a: &str,
    value_a: Vec<Document>,
    a: Document,
    array_b: &str,
    time_b: &str,
    value_b: Vec<Document>,
    b: Document,
)
    requires
        call_ensures(update_timeseries_op, (array_a, time_a, &value_a), a),
        call_ensures(update_timeseries_op, (array_b, time_b, &value_b), b),
        document_fields(a) == document_fields(b),
    ensures
        array_a@ == array_b@,
        time_a@ == time_b@,
        values_of(value_a@) == values_of(value_b@),
{
    assert(documents_as_values(value_a@) =~= values_of(value_a@));
    assert(documents_as_values(value_b@) =~= values_of(value_b@));
    lemma_updates_differ(
        array_a@,
        array_b@,
        time_a@,
        time_b@,
        values_of(value_a@),
        values_of(value_b@),
    );
}

/// The expressions for the first element of a field give, on any document, the first element of the
/// field that is named, or else an empty list, or an empty document.
pub proof fn law_the_first_element_is_that_of_the_field(
    field: &str,
    or_list: Document,
    or_document: Document,
    rules: Rules,
    doc: BsonValue,
    variables: Map<Seq<char>, BsonValue>,
    depth: nat,
)
    requires
        call_ensures(get_array_element, (field,), or_list),
        call_ensures(get_array_dict_element, (field,), or_document),
        depth >= 3,
        !marked(field@),
    ensures
        value_of(rules, doc, variables, BsonValue::Fields(document_fields(or_list)), depth)
            == Some(first_or(doc, field@, BsonValue::List(seq![]))),
        value_of(rules, doc, variables, BsonValue::Fields(document_fields(or_document)), depth)
            == Some(first_or(doc, field@, BsonValue::Fields(seq![]))),
{
    lemma_first_element(rules, doc, variables, field@, BsonValue::List(seq![]), depth);
    lemma_first_element(rules, doc, variables, field@, BsonValue::Fields(seq![]), depth);
}

/// A fetch of a time series gives, on any document, the points of the first list that the document
/// holds in the field that is named which lie in the window before the time of the candidate and of
/// which every further condition is true.
pub proof fn law_a_fetch_gives_the_window(
    array_field: &str,
    candidate_jd_field: &str,
    time_window: i32,
    optional_conditions: Option<Vec<Document>>,
    r: Document,
    rules: Rules,
    doc: BsonValue,
    points: Seq<BsonValue>,
    depth: nat,
)
    requires
        call_ensures(
            fetch_timeseries_op,
            (array_field, candidate_jd_field, time_window, optional_conditions),
            r,
        ),
        depth >= 5,
        !marked(array_field@),
        !marked(candidate_jd_field@),
        first_or(doc, array_field@, BsonValue::List(seq![])) == BsonValue::List(points),
    ensures
        ({
            let further = match optional_conditions {
                Some(docs) => values_of(docs@),
                None => seq![],
            };
            value_of(rules, doc, Map::empty(), BsonValue::Fields(document_fields(r)), depth)
                == Some(
                BsonValue::List(
                    points.filter(
                        |point: BsonValue|
                            lies_in_window(
                                rules,
                                doc,
                                point,
                                candidate_jd_field@,
                                time_window,
                            ) && (forall|k: int|
                                0 <= k < further.len() ==> truthy(
                                    value_of(
                                        rules,
                                        doc,
                                        Map::empty().insert("x"@, point),
                                        #[trigger] further[k],
                                        (depth - 2) as nat,
                                    ),
                                )),
                    ),
                ),
            )
        }),
{
    let further = match optional_conditions {
        Some(docs) => values_of(docs@),
        None => seq![],
    };
    assert(optional_conditions_view(optional_conditions) =~= further);
    lemma_fetch(
        rules,
        doc,
        array_field@,
        candidate_jd_field@,
        time_window,
        further,
        points,
        depth,
    );
}

/// A cutout is stored byte by byte, as a generic binary value.
pub proof fn law_a_cutout_keeps_its_bytes(cutout: Vec<u8>, r: Binary)
    requires
        call_ensures(cutout2bsonbinary, (cutout,), r),
    ensures
        binary_bytes(r) == cutout@,
        binary_subtype(r) == 0,
{
}

} // verus!
