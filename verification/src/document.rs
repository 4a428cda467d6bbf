//! BSON documents: what they hold, and how they are built and read.
//!
//! The documents are those of `mongodb::bson`. What Verus is told of them is in the trusted items
//! of this file, over the two names [`document_fields`] and [`bson_value`].

use mongodb::bson::{Bson, Document};
use vstd::prelude::*;

verus! {

/// The document type of `mongodb::bson`: fields in the order of their insertion.
#[verifier::external_type_specification]
#[verifier::external_body]
pub struct ExDocument(Document);

/// The value type of `mongodb::bson`.
#[verifier::external_type_specification]
#[verifier::external_body]
pub struct ExBson(Bson);

/// What a BSON value holds.
pub enum BsonValue {
    Text(Seq<char>),
    Int32(i32),
    Int64(i64),
    Truth(bool),
    Nothing,
    /// The double that is larger, or smaller, than every number.
    Infinity { negative: bool },
    List(Seq<BsonValue>),
    Fields(Seq<(Seq<char>, BsonValue)>),
    /// A value of any other kind, told apart from the others of these kinds by a number.
    Other(nat),
}

/// The fields of a document, in order.
pub uninterp spec fn document_fields(doc: Document) -> Seq<(Seq<char>, BsonValue)>;

/// What a value holds.
pub uninterp spec fn bson_value(value: Bson) -> BsonValue;

/// Whether a field has the key.
pub open spec fn has_field(fields: Seq<(Seq<char>, BsonValue)>, key: Seq<char>) -> bool {
    exists|i: int| 0 <= i < fields.len() && #[trigger] fields[i].0 == key
}

/// The value of the field with the key.
pub open spec fn field_value(fields: Seq<(Seq<char>, BsonValue)>, key: Seq<char>) -> Option<
    BsonValue,
>
    decreases fields.len(),
{
    if fields.len() == 0 {
        None
    } else if fields[0].0 == key {
        Some(fields[0].1)
    } else {
        field_value(fields.drop_first(), key)
    }
}

/// What the values of a list hold.
pub open spec fn bson_values(values: Seq<Bson>) -> Seq<BsonValue> {
    values.map_values(|value: Bson| bson_value(value))
}

/// What the documents of a list hold, each as a value.
pub open spec fn documents_as_values(docs: Seq<Document>) -> Seq<BsonValue> {
    docs.map_values(|doc: Document| BsonValue::Fields(document_fields(doc)))
}

/// What the documents of a list hold.
pub open spec fn all_fields(docs: Seq<Document>) -> Seq<Seq<(Seq<char>, BsonValue)>> {
    docs.map_values(|doc: Document| document_fields(doc))
}

/// What a document that may be missing holds.
pub open spec fn optional_fields(doc: Option<Document>) -> Option<Seq<(Seq<char>, BsonValue)>> {
    match doc {
        Some(doc) => Some(document_fields(doc)),
        None => None,
    }
}

/// `Document::new` makes a document without fields.
pub assume_specification[ Document::new ]() -> (doc: Document)
    ensures
        document_fields(doc) == Seq::<(Seq<char>, BsonValue)>::empty(),
;

/// `Document::clone` copies every field, in order.
pub assume_specification[ <Document as Clone>::clone ](doc: &Document) -> (r: Document)
    ensures
        document_fields(r) == document_fields(*doc),
;

/// `Bson::clone` copies what the value holds.
pub assume_specification[ <Bson as Clone>::clone ](value: &Bson) -> (r: Bson)
    ensures
        bson_value(r) == bson_value(*value),
;

/// `Document::insert` puts a field whose key the document does not have behind the others.
#[verifier::external_body]
fn insert(doc: &mut Document, key: &str, value: Bson)
    requires
        !has_field(document_fields(*old(doc)), key@),
    ensures
        document_fields(*final(doc)) == document_fields(*old(doc)).push((key@, bson_value(value))),
{
    doc.insert(key, value);
}

/// `Document::get` finds the value of the field with the key, if there is one.
#[verifier::external_body]
pub(crate) fn get<'a>(doc: &'a Document, key: &str) -> (r: Option<&'a Bson>)
    ensures
        match r {
            Some(value) => field_value(document_fields(*doc), key@) == Some(bson_value(*value)),
            None => field_value(document_fields(*doc), key@) is None,
        },
{
    doc.get(key)
}

/// `Document::iter` hands out the fields in order, and no key twice.
#[verifier::external_body]
pub(crate) fn entries(doc: &Document) -> (r: Vec<(&String, &Bson)>)
    ensures
        r@.len() == document_fields(*doc).len(),
        forall|i: int|
            0 <= i < r@.len() ==> document_fields(*doc)[i] == (
                (#[trigger] r@[i]).0@,
                bson_value(*r@[i].1),
            ),
        forall|i: int, j: int|
            0 <= i < j < r@.len() ==> (#[trigger] r@[i]).0@ != (#[trigger] r@[j]).0@,
{
    doc.iter().collect()
}

/// `Bson::String` holds the text.
#[verifier::external_body]
fn bson_string(s: String) -> (r: Bson)
    ensures
        bson_value(r) == BsonValue::Text(s@),
{
    Bson::String(s)
}

/// `Bson::Int32` holds the number.
#[verifier::external_body]
pub(crate) fn int32(n: i32) -> (r: Bson)
    ensures
        bson_value(r) == BsonValue::Int32(n),
{
    Bson::Int32(n)
}

/// `Bson::Int64` holds the number.
#[verifier::external_body]
pub(crate) fn int64(n: i64) -> (r: Bson)
    ensures
        bson_value(r) == BsonValue::Int64(n),
{
    Bson::Int64(n)
}

/// `Bson::Boolean` holds the truth value.
#[verifier::external_body]
pub(crate) fn boolean(b: bool) -> (r: Bson)
    ensures
        bson_value(r) == BsonValue::Truth(b),
{
    Bson::Boolean(b)
}

/// `Bson::Null` holds nothing.
#[verifier::external_body]
pub(crate) fn null() -> (r: Bson)
    ensures
        bson_value(r) == BsonValue::Nothing,
{
    Bson::Null
}

/// `Bson::Array` holds the values, in order.
#[verifier::external_body]
pub(crate) fn list(values: Vec<Bson>) -> (r: Bson)
    ensures
        bson_value(r) == BsonValue::List(bson_values(values@)),
{
    Bson::Array(values)
}

/// `Bson::Document` holds the fields of the document.
#[verifier::external_body]
pub(crate) fn embedded(doc: Document) -> (r: Bson)
    ensures
        bson_value(r) == BsonValue::Fields(document_fields(doc)),
{
    Bson::Document(doc)
}

/// `Bson::try_from` of the extended JSON object with the one key `$numberDouble` makes the double
/// that the text names, and `Infinity` and `-Infinity` name the two infinities.
#[verifier::external_body]
fn extended_json_double(text: &str) -> (r: Bson)
    requires
        text@ == "Infinity"@ || text@ == "-Infinity"@,
    ensures
        text@ == "Infinity"@ ==> bson_value(r) == (BsonValue::Infinity { negative: false }),
        text@ == "-Infinity"@ ==> bson_value(r) == (BsonValue::Infinity { negative: true }),
{
    Bson::try_from(serde_json::Value::from_iter([("$numberDouble", text)])).unwrap()
}

/// `Bson::as_str` gives the text of a string, and nothing for other kinds of values.
pub assume_specification[ Bson::as_str ](value: &Bson) -> (r: Option<&str>)
    ensures
        match r {
            Some(text) => bson_value(*value) == BsonValue::Text(text@),
            None => !(bson_value(*value) is Text),
        },
;

/// `Bson::as_array` gives the values of an array, and nothing for other kinds of values.
pub assume_specification[ Bson::as_array ](value: &Bson) -> (r: Option<&Vec<Bson>>)
    ensures
        match r {
            Some(values) => bson_value(*value) == BsonValue::List(bson_values(values@)),
            None => !(bson_value(*value) is List),
        },
;

/// `Bson::as_document` gives an embedded document, and nothing for other kinds of values.
pub assume_specification[ Bson::as_document ](value: &Bson) -> (r: Option<&Document>)
    ensures
        match r {
            Some(doc) => bson_value(*value) == BsonValue::Fields(document_fields(*doc)),
            None => !(bson_value(*value) is Fields),
        },
;

/// The text as a value.
pub(crate) fn text(s: &str) -> (r: Bson)
    ensures
        bson_value(r) == BsonValue::Text(s@),
{
    bson_string(s.to_owned())
}

/// One of the two infinities.
pub(crate) fn infinity(negative: bool) -> (r: Bson)
    ensures
        bson_value(r) == (BsonValue::Infinity { negative }),
{
    proof {
        reveal_strlit("Infinity");
        reveal_strlit("-Infinity");
    }
    if negative {
        extended_json_double("-Infinity")
    } else {
        extended_json_double("Infinity")
    }
}

/// A list of no values.
pub(crate) fn list0() -> (r: Bson)
    ensures
        bson_value(r) == BsonValue::List(seq![]),
{
    let values: Vec<Bson> = Vec::new();
    assert(bson_values(values@) =~= seq![]);
    list(values)
}

/// A list of one value.
pub(crate) fn list1(a: Bson) -> (r: Bson)
    ensures
        bson_value(r) == BsonValue::List(seq![bson_value(a)]),
{
    let values: Vec<Bson> = vec![a];
    assert(bson_values(values@) =~= seq![bson_value(a)]);
    list(values)
}

/// A list of two values.
pub(crate) fn list2(a: Bson, b: Bson) -> (r: Bson)
    ensures
        bson_value(r) == BsonValue::List(seq![bson_value(a), bson_value(b)]),
{
    let values: Vec<Bson> = vec![a, b];
    assert(bson_values(values@) =~= seq![bson_value(a), bson_value(b)]);
    list(values)
}

/// A list of documents, each copied.
pub(crate) fn list_of_documents(docs: &Vec<Document>) -> (r: Bson)
    ensures
        bson_value(r) == BsonValue::List(documents_as_values(docs@)),
{
    let mut values: Vec<Bson> = Vec::new();
    let n: usize = docs.len();
    for i in 0..n
        invariant
            n == docs@.len(),
            values@.len() == i,
            forall|j: int|
                0 <= j < i ==> bson_value(#[trigger] values@[j]) == BsonValue::Fields(
                    document_fields(docs@[j]),
                ),
    {
        values.push(embedded(docs[i].clone()));
    }
    assert(bson_values(values@) =~= documents_as_values(docs@));
    list(values)
}

/// The document with the further field behind the others.
pub(crate) fn with(doc: Document, key: &str, value: Bson) -> (r: Document)
    requires
        !has_field(document_fields(doc), key@),
    ensures
        document_fields(r) == document_fields(doc).push((key@, bson_value(value))),
{
    let mut out = doc;
    insert(&mut out, key, value);
    out
}

/// A document of one field.
pub(crate) fn doc1(key: &str, value: Bson) -> (r: Document)
    ensures
        document_fields(r) == seq![(key@, bson_value(value))],
{
    let doc = with(Document::new(), key, value);
    assert(document_fields(doc) =~= seq![(key@, bson_value(value))]);
    doc
}

/// A document of two fields.
pub(crate) fn doc2(key1: &str, value1: Bson, key2: &str, value2: Bson) -> (r: Document)
    requires
        key1@ != key2@,
    ensures
        document_fields(r) == seq![(key1@, bson_value(value1)), (key2@, bson_value(value2))],
{
    let doc = with(doc1(key1, value1), key2, value2);
    assert(document_fields(doc) =~= seq![
        (key1@, bson_value(value1)),
        (key2@, bson_value(value2)),
    ]);
    doc
}

/// A document of three fields.
pub(crate) fn doc3(
    key1: &str,
    value1: Bson,
    key2: &str,
    value2: Bson,
    key3: &str,
    value3: Bson,
) -> (r: Document)
    requires
        key1@ != key2@,
        key1@ != key3@,
        key2@ != key3@,
    ensures
        document_fields(r) == seq![
            (key1@, bson_value(value1)),
            (key2@, bson_value(value2)),
            (key3@, bson_value(value3)),
        ],
{
    let doc = with(doc2(key1, value1, key2, value2), key3, value3);
    assert(document_fields(doc) =~= seq![
        (key1@, bson_value(value1)),
        (key2@, bson_value(value2)),
        (key3@, bson_value(value3)),
    ]);
    doc
}

/// A value that is a document of one field.
pub(crate) fn object1(key: &str, value: Bson) -> (r: Bson)
    ensures
        bson_value(r) == BsonValue::Fields(seq![(key@, bson_value(value))]),
{
    embedded(doc1(key, value))
}

} // verus!
