//! What the expressions and the conditions that are put to the database mean.
//!
//! An expression has a value on a document, and a condition holds of a document or does not. Only the
//! operators that are used here have a meaning. How the database compares values, what it makes of
//! numbers and how it sorts is left open: it is given by [`Rules`], and what is said holds under
//! any.

use crate::document::{field_value, BsonValue};
use vstd::prelude::*;

verus! {

/// How values are compared, reckoned with and sorted. A value that is missing is `None`.
pub struct Rules {
    pub is_number: spec_fn(Option<BsonValue>) -> bool,
    pub equal: spec_fn(Option<BsonValue>, Option<BsonValue>) -> bool,
    pub less: spec_fn(Option<BsonValue>, Option<BsonValue>) -> bool,
    pub at_most: spec_fn(Option<BsonValue>, Option<BsonValue>) -> bool,
    pub difference: spec_fn(Option<BsonValue>, Option<BsonValue>) -> Option<BsonValue>,
    pub sum: spec_fn(Option<BsonValue>, Option<BsonValue>) -> Option<BsonValue>,
    /// Values in the order of a list of fields.
    pub sorted: spec_fn(Seq<BsonValue>, Seq<(Seq<char>, BsonValue)>) -> Seq<BsonValue>,
    /// Whether a value is a text that a pattern fits.
    pub fits: spec_fn(Option<BsonValue>, BsonValue) -> bool,
    /// Whether a value is a place at most so far from a point.
    pub within: spec_fn(Option<BsonValue>, BsonValue, BsonValue) -> bool,
}

/// A path up to its first dot.
pub open spec fn head(path: Seq<char>) -> Seq<char>
    decreases path.len(),
{
    if path.len() == 0 || path[0] == '.' {
        seq![]
    } else {
        seq![path[0]] + head(path.drop_first())
    }
}

/// What follows the first dot of a path, if there is one.
pub open spec fn rest(path: Seq<char>) -> Option<Seq<char>>
    decreases path.len(),
{
    if path.len() == 0 {
        None
    } else if path[0] == '.' {
        Some(path.drop_first())
    } else {
        rest(path.drop_first())
    }
}

/// What follows a dot is shorter than the path.
pub proof fn lemma_rest_is_shorter(path: Seq<char>)
    ensures
        rest(path) is Some ==> rest(path)->Some_0.len() < path.len(),
    decreases path.len(),
{
    if path.len() > 0 && path[0] != '.' {
        lemma_rest_is_shorter(path.drop_first());
    }
}

/// What a value holds at a path. Of a list it is the list of what its elements hold there.
pub open spec fn at_path(value: BsonValue, path: Seq<char>) -> Option<BsonValue>
    decreases path.len(), value,
{
    proof {
        lemma_rest_is_shorter(path);
    }
    match value {
        BsonValue::Fields(fields) => match field_value(fields, head(path)) {
            Some(held) => match rest(path) {
                Some(further) => at_path(held, further),
                None => Some(held),
            },
            None => None,
        },
        BsonValue::List(values) => Some(BsonValue::List(all_at_path(values, path))),
        _ => None,
    }
}

/// What values hold at a path, one after the other, without those that hold nothing there.
pub open spec fn all_at_path(values: Seq<BsonValue>, path: Seq<char>) -> Seq<BsonValue>
    decreases path.len(), values,
{
    if values.len() == 0 {
        seq![]
    } else {
        let before = all_at_path(values.subrange(0, values.len() - 1), path);
        match at_path(values[values.len() - 1], path) {
            Some(held) => before.push(held),
            None => before,
        }
    }
}

/// Whether a text or a key has a meaning of its own in an expression.
pub open spec fn marked(s: Seq<char>) -> bool {
    s.len() > 0 && s[0] == '$'
}

/// Whether an expression stands for itself.
pub open spec fn literal(value: BsonValue) -> bool
    decreases value,
{
    match value {
        BsonValue::Text(s) => !marked(s),
        BsonValue::List(values) => forall|i: int|
            0 <= i < values.len() ==> literal(#[trigger] values[i]),
        BsonValue::Fields(fields) => forall|i: int|
            0 <= i < fields.len() ==> !marked((#[trigger] fields[i]).0) && literal(fields[i].1),
        _ => true,
    }
}

/// A value in a list: what is missing is nothing there.
pub open spec fn or_nothing(value: Option<BsonValue>) -> BsonValue {
    match value {
        Some(value) => value,
        None => BsonValue::Nothing,
    }
}

/// Whether a value counts as true.
pub open spec fn truthy(value: Option<BsonValue>) -> bool {
    match value {
        Some(BsonValue::Truth(b)) => b,
        Some(BsonValue::Int32(n)) => n != 0,
        Some(BsonValue::Nothing) => false,
        Some(_) => true,
        None => false,
    }
}

pub open spec fn truth(b: bool) -> Option<BsonValue> {
    Some(BsonValue::Truth(b))
}

/// Whether a value is among those of a list.
pub open spec fn is_among(
    rules: Rules,
    value: Option<BsonValue>,
    values: Seq<BsonValue>,
) -> bool {
    exists|i: int| 0 <= i < values.len() && (rules.equal)(value, Some(#[trigger] values[i]))
}

/// What a variable of an expression holds, or what it holds at a path.
pub open spec fn variable(variables: Map<Seq<char>, BsonValue>, path: Seq<char>) -> Option<
    BsonValue,
> {
    match rest(path) {
        Some(further) => at_path(variables[head(path)], further),
        None => Some(variables[head(path)]),
    }
}

/// The value of an expression on a document, its operators nested at most so deep.
pub open spec fn value_of(
    rules: Rules,
    doc: BsonValue,
    variables: Map<Seq<char>, BsonValue>,
    expression: BsonValue,
    depth: nat,
) -> Option<BsonValue>
    decreases depth, 0int, 0int,
{
    if literal(expression) {
        Some(expression)
    } else if depth == 0 {
        None
    } else {
        match expression {
            BsonValue::Text(path) => if path.len() > 1 && path[1] == '$' {
                variable(variables, path.skip(2))
            } else {
                at_path(doc, path.skip(1))
            },
            BsonValue::List(values) => Some(
                BsonValue::List(
                    Seq::new(
                        values.len(),
                        |i: int|
                            or_nothing(
                                value_of(rules, doc, variables, values[i], (depth - 1) as nat),
                            ),
                    ),
                ),
            ),
            BsonValue::Fields(fields) => if fields.len() == 1 && marked(fields[0].0) {
                applied(rules, doc, variables, fields[0].0, fields[0].1, (depth - 1) as nat)
            } else {
                Some(
                    BsonValue::Fields(evaluated(rules, doc, variables, fields, (depth - 1) as nat)),
                )
            },
            _ => None,
        }
    }
}

/// Fields with the values of their expressions. One without a value is left out.
pub open spec fn evaluated(
    rules: Rules,
    doc: BsonValue,
    variables: Map<Seq<char>, BsonValue>,
    fields: Seq<(Seq<char>, BsonValue)>,
    depth: nat,
) -> Seq<(Seq<char>, BsonValue)>
    decreases depth, 1int, fields.len(),
{
    if fields.len() == 0 {
        seq![]
    } else {
        let further = evaluated(rules, doc, variables, fields.drop_first(), depth);
        match value_of(rules, doc, variables, fields[0].1, depth) {
            Some(value) => seq![(fields[0].0, value)] + further,
            None => further,
        }
    }
}

/// A list gone through from the first to the last, with a value that each of them changes.
pub open spec fn reduced(
    rules: Rules,
    doc: BsonValue,
    variables: Map<Seq<char>, BsonValue>,
    values: Seq<BsonValue>,
    initial: BsonValue,
    expression: BsonValue,
    depth: nat,
) -> BsonValue
    decreases depth, 1int, values.len(),
{
    if values.len() == 0 {
        initial
    } else {
        let before = reduced(
            rules,
            doc,
            variables,
            values.drop_last(),
            initial,
            expression,
            depth,
        );
        or_nothing(
            value_of(
                rules,
                doc,
                variables.insert("this"@, values.last()).insert("value"@, before),
                expression,
                depth,
            ),
        )
    }
}

/// Whether a condition is true of a value that a variable holds.
pub open spec fn passes(
    rules: Rules,
    doc: BsonValue,
    variables: Map<Seq<char>, BsonValue>,
    name: Seq<char>,
    condition: BsonValue,
    depth: nat,
) -> spec_fn(BsonValue) -> bool
    decreases depth, 1int, 0int,
{
    |value: BsonValue|
        truthy(value_of(rules, doc, variables.insert(name, value), condition, depth))
}

/// The value of an operator applied to its argument.
pub open spec fn applied(
    rules: Rules,
    doc: BsonValue,
    variables: Map<Seq<char>, BsonValue>,
    operator: Seq<char>,
    argument: BsonValue,
    depth: nat,
) -> Option<BsonValue>
    decreases depth, 2int, 0int,
{
    let parts = argument->List_0;
    let a = value_of(rules, doc, variables, parts[0], depth);
    let b = value_of(rules, doc, variables, parts[1], depth);
    let two = argument is List && parts.len() == 2;
    let named = argument->Fields_0;
    if operator == "$concatArrays"@ && two {
        match (a, b) {
            (Some(BsonValue::List(x)), Some(BsonValue::List(y))) => Some(BsonValue::List(x + y)),
            _ => Some(BsonValue::Nothing),
        }
    } else if operator == "$ifNull"@ && two {
        if a is None || a == Some(BsonValue::Nothing) {
            b
        } else {
            a
        }
    } else if operator == "$arrayElemAt"@ && two {
        match (a, b) {
            (Some(BsonValue::List(x)), Some(BsonValue::Int32(i))) => if 0 <= i < x.len() {
                Some(x[i as int])
            } else {
                None
            },
            _ => Some(BsonValue::Nothing),
        }
    } else if operator == "$in"@ && two {
        match b {
            Some(BsonValue::List(y)) => truth(is_among(rules, a, y)),
            _ => None,
        }
    } else if operator == "$eq"@ && two {
        truth((rules.equal)(a, b))
    } else if operator == "$lt"@ && two {
        truth((rules.less)(a, b))
    } else if operator == "$gt"@ && two {
        truth((rules.less)(b, a))
    } else if operator == "$lte"@ && two {
        truth((rules.at_most)(a, b))
    } else if operator == "$subtract"@ && two {
        (rules.difference)(a, b)
    } else if operator == "$add"@ && two {
        (rules.sum)(a, b)
    } else if operator == "$size"@ {
        match value_of(rules, doc, variables, argument, depth) {
            Some(BsonValue::List(values)) => Some(BsonValue::Int32(values.len() as i32)),
            _ => None,
        }
    } else if operator == "$isNumber"@ {
        truth((rules.is_number)(value_of(rules, doc, variables, argument, depth)))
    } else if operator == "$and"@ && argument is List {
        truth(
            forall|i: int|
                0 <= i < parts.len() ==> truthy(
                    value_of(rules, doc, variables, #[trigger] parts[i], depth),
                ),
        )
    } else if operator == "$cond"@ && argument is Fields {
        if truthy(value_of(rules, doc, variables, or_nothing(field_value(named, "if"@)), depth)) {
            value_of(rules, doc, variables, or_nothing(field_value(named, "then"@)), depth)
        } else {
            value_of(rules, doc, variables, or_nothing(field_value(named, "else"@)), depth)
        }
    } else if operator == "$reduce"@ && argument is Fields {
        match value_of(rules, doc, variables, or_nothing(field_value(named, "input"@)), depth) {
            Some(BsonValue::List(values)) => Some(
                reduced(
                    rules,
                    doc,
                    variables,
                    values,
                    or_nothing(
                        value_of(
                            rules,
                            doc,
                            variables,
                            or_nothing(field_value(named, "initialValue"@)),
                            depth,
                        ),
                    ),
                    or_nothing(field_value(named, "in"@)),
                    depth,
                ),
            ),
            _ => Some(BsonValue::Nothing),
        }
    } else if operator == "$filter"@ && argument is Fields {
        match value_of(rules, doc, variables, or_nothing(field_value(named, "input"@)), depth) {
            Some(BsonValue::List(values)) => Some(
                BsonValue::List(
                    values.filter(
                        passes(
                            rules,
                            doc,
                            variables,
                            or_nothing(field_value(named, "as"@))->Text_0,
                            or_nothing(field_value(named, "cond"@)),
                            depth,
                        ),
                    ),
                ),
            ),
            _ => Some(BsonValue::Nothing),
        }
    } else if operator == "$sortArray"@ && argument is Fields {
        match value_of(rules, doc, variables, or_nothing(field_value(named, "input"@)), depth) {
            Some(BsonValue::List(values)) => Some(
                BsonValue::List(
                    (rules.sorted)(values, or_nothing(field_value(named, "sortBy"@))->Fields_0),
                ),
            ),
            _ => Some(BsonValue::Nothing),
        }
    } else {
        None
    }
}

/// Whether a condition on one value holds: it has the value, or meets what the operators ask of it.
pub open spec fn value_meets(
    rules: Rules,
    value: Option<BsonValue>,
    condition: BsonValue,
    depth: nat,
) -> bool
    decreases depth, 0int,
{
    match condition {
        BsonValue::Fields(asked) => if asked.len() > 0 && marked(asked[0].0) {
            if field_value(asked, "$nearSphere"@) is Some {
                (rules.within)(
                    value,
                    or_nothing(field_value(asked, "$nearSphere"@)),
                    or_nothing(field_value(asked, "$maxDistance"@)),
                )
            } else {
                depth > 0 && forall|i: int|
                    0 <= i < asked.len() ==> operator_holds(
                        rules,
                        value,
                        (#[trigger] asked[i]).0,
                        asked[i].1,
                        (depth - 1) as nat,
                    )
            }
        } else {
            (rules.equal)(value, Some(condition))
        },
        _ => (rules.equal)(value, Some(condition)),
    }
}

/// Whether an operator of a condition holds of a value.
pub open spec fn operator_holds(
    rules: Rules,
    value: Option<BsonValue>,
    operator: Seq<char>,
    argument: BsonValue,
    depth: nat,
) -> bool
    decreases depth, 2int,
{
    if operator == "$in"@ {
        argument is List && is_among(rules, value, argument->List_0)
    } else if operator == "$lt"@ {
        (rules.less)(value, Some(argument))
    } else if operator == "$lte"@ {
        (rules.at_most)(value, Some(argument))
    } else if operator == "$gte"@ {
        (rules.at_most)(Some(argument), value)
    } else if operator == "$regex"@ {
        (rules.fits)(value, argument)
    } else if operator == "$geoWithin"@ {
        let circle = or_nothing(field_value(argument->Fields_0, "$centerSphere"@))->List_0;
        (rules.within)(value, circle[0], circle[1])
    } else if operator == "$elemMatch"@ {
        argument is Fields && match value {
            Some(BsonValue::List(values)) => exists|i: int|
                0 <= i < values.len() && meets(
                    rules,
                    #[trigger] values[i],
                    argument->Fields_0,
                    depth,
                ),
            _ => false,
        }
    } else {
        false
    }
}

/// Whether a document meets every one of the conditions.
pub open spec fn meets(
    rules: Rules,
    doc: BsonValue,
    conditions: Seq<(Seq<char>, BsonValue)>,
    depth: nat,
) -> bool
    decreases depth, 1int,
{
    forall|i: int|
        0 <= i < conditions.len() ==> {
            if (#[trigger] conditions[i]).0 == "$or"@ {
                depth > 0 && exists|k: int|
                    0 <= k < conditions[i].1->List_0.len() && meets(
                        rules,
                        doc,
                        (#[trigger] conditions[i].1->List_0[k])->Fields_0,
                        (depth - 1) as nat,
                    )
            } else {
                value_meets(rules, at_path(doc, conditions[i].0), conditions[i].1, depth)
            }
        }
}

/// A document whose fields a list of fields was set in.
pub open spec fn with_set(
    doc: Seq<(Seq<char>, BsonValue)>,
    key: Seq<char>,
    update: Seq<(Seq<char>, BsonValue)>,
) -> Option<BsonValue> {
    match field_value(or_nothing(field_value(update, "$set"@))->Fields_0, key) {
        Some(value) => Some(value),
        None => field_value(doc, key),
    }
}

/// What a document holds at a path, where the first element of a list goes by the name 0.
pub open spec fn at_place(value: BsonValue, path: Seq<char>) -> Option<BsonValue>
    decreases path.len(),
{
    proof {
        lemma_rest_is_shorter(path);
    }
    let held = match value {
        BsonValue::Fields(fields) => field_value(fields, head(path)),
        BsonValue::List(values) => if head(path) == "0"@ && values.len() > 0 {
            Some(values[0])
        } else {
            None
        },
        _ => None,
    };
    match (held, rest(path)) {
        (Some(held), Some(further)) => at_place(held, further),
        _ => held,
    }
}

/// Whether a document bears a value at a path.
pub open spec fn bears(rules: Rules, path: Seq<char>, value: Option<BsonValue>) -> spec_fn(
    BsonValue,
) -> bool {
    |doc: BsonValue| (rules.equal)(at_path(doc, path), value)
}

/// A document in which a field has a value. What it had there before stands behind it, where it is
/// not read.
pub open spec fn with_field(
    doc: Seq<(Seq<char>, BsonValue)>,
    key: Seq<char>,
    value: BsonValue,
) -> Seq<(Seq<char>, BsonValue)> {
    seq![(key, value)] + doc
}

/// The fields that are handed on of a document: of one that is marked by a 1 the value that it has,
/// of another the value of its expression.
pub open spec fn projected(
    rules: Rules,
    doc: Seq<(Seq<char>, BsonValue)>,
    fields: Seq<(Seq<char>, BsonValue)>,
    depth: nat,
) -> Seq<(Seq<char>, BsonValue)>
    decreases fields.len(),
{
    if fields.len() == 0 {
        seq![]
    } else {
        let further = projected(rules, doc, fields.drop_first(), depth);
        let value = if fields[0].1 == BsonValue::Int32(1) {
            field_value(doc, fields[0].0)
        } else {
            value_of(rules, BsonValue::Fields(doc), Map::empty(), fields[0].1, depth)
        };
        match value {
            Some(value) => seq![(fields[0].0, value)] + further,
            None => further,
        }
    }
}

/// What a stage of an aggregation makes of a document, where `stored` is what each collection
/// holds. The identifier is handed on whether it is asked for or not.
pub open spec fn after_stage(
    rules: Rules,
    stored: spec_fn(Seq<char>) -> Seq<BsonValue>,
    doc: Seq<(Seq<char>, BsonValue)>,
    stage: Seq<(Seq<char>, BsonValue)>,
    depth: nat,
) -> Seq<Seq<(Seq<char>, BsonValue)>> {
    let operator = stage[0].0;
    let argument = stage[0].1->Fields_0;
    if operator == "$match"@ {
        if meets(rules, BsonValue::Fields(doc), argument, depth) {
            seq![doc]
        } else {
            seq![]
        }
    } else if operator == "$lookup"@ {
        let collection = or_nothing(field_value(argument, "from"@))->Text_0;
        let local = or_nothing(field_value(argument, "localField"@))->Text_0;
        let foreign = or_nothing(field_value(argument, "foreignField"@))->Text_0;
        let name = or_nothing(field_value(argument, "as"@))->Text_0;
        let found = stored(collection).filter(
            bears(rules, foreign, at_place(BsonValue::Fields(doc), local)),
        );
        seq![with_field(doc, name, BsonValue::List(found))]
    } else if operator == "$unwind"@ {
        let name = or_nothing(field_value(argument, "path"@))->Text_0.skip(1);
        let kept = field_value(argument, "preserveNullAndEmptyArrays"@) == Some(
            BsonValue::Truth(true),
        );
        match field_value(doc, name) {
            Some(BsonValue::List(values)) => if values.len() == 0 && kept {
                seq![doc]
            } else {
                values.map_values(|value: BsonValue| with_field(doc, name, value))
            },
            Some(BsonValue::Nothing) | None => if kept {
                seq![doc]
            } else {
                seq![]
            },
            Some(_) => seq![doc],
        }
    } else {
        let shown = projected(rules, doc, argument, depth);
        match field_value(doc, "_id"@) {
            Some(id) => seq![seq![("_id"@, id)] + shown],
            None => seq![shown],
        }
    }
}

/// What a stage makes of documents, one after the other.
pub open spec fn after_stage_all(
    rules: Rules,
    stored: spec_fn(Seq<char>) -> Seq<BsonValue>,
    docs: Seq<Seq<(Seq<char>, BsonValue)>>,
    stage: Seq<(Seq<char>, BsonValue)>,
    depth: nat,
) -> Seq<Seq<(Seq<char>, BsonValue)>>
    decreases docs.len(),
{
    if docs.len() == 0 {
        seq![]
    } else {
        after_stage_all(rules, stored, docs.drop_last(), stage, depth) + after_stage(
            rules,
            stored,
            docs.last(),
            stage,
            depth,
        )
    }
}

/// What an aggregation makes of documents.
pub open spec fn aggregated(
    rules: Rules,
    stored: spec_fn(Seq<char>) -> Seq<BsonValue>,
    docs: Seq<Seq<(Seq<char>, BsonValue)>>,
    stages: Seq<Seq<(Seq<char>, BsonValue)>>,
    depth: nat,
) -> Seq<Seq<(Seq<char>, BsonValue)>>
    decreases stages.len(),
{
    if stages.len() == 0 {
        docs
    } else {
        aggregated(
            rules,
            stored,
            after_stage_all(rules, stored, docs, stages[0], depth),
            stages.drop_first(),
            depth,
        )
    }
}

pub(crate) proof fn lemma_one_condition(
    rules: Rules,
    doc: BsonValue,
    key: Seq<char>,
    condition: BsonValue,
    depth: nat,
)
    requires
        key != "$or"@,
    ensures
        meets(rules, doc, seq![(key, condition)], depth) == value_meets(
            rules,
            at_path(doc, key),
            condition,
            depth,
        ),
{
    let conditions = seq![(key, condition)];
    assert(conditions[0] == (key, condition));
}

pub(crate) proof fn lemma_two_conditions(
    rules: Rules,
    doc: BsonValue,
    key1: Seq<char>,
    condition1: BsonValue,
    key2: Seq<char>,
    condition2: BsonValue,
    depth: nat,
)
    requires
        key1 != "$or"@,
        key2 != "$or"@,
    ensures
        meets(rules, doc, seq![(key1, condition1), (key2, condition2)], depth) == (value_meets(
            rules,
            at_path(doc, key1),
            condition1,
            depth,
        ) && value_meets(rules, at_path(doc, key2), condition2, depth)),
{
    let conditions = seq![(key1, condition1), (key2, condition2)];
    assert(conditions[0] == (key1, condition1));
    assert(conditions[1] == (key2, condition2));
    if value_meets(rules, at_path(doc, key1), condition1, depth) && value_meets(
        rules,
        at_path(doc, key2),
        condition2,
        depth,
    ) {
        assert(meets(rules, doc, conditions, depth));
    }
}

} // verus!
