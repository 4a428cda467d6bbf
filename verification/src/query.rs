//! Requests to the database, and what came back of them.

use crate::document::{document_fields, optional_fields, BsonValue};
use mongodb::bson::Document;
use vstd::prelude::*;

verus! {

/// A search of a collection.
pub struct FindQuery {
    pub collection: String,
    pub filter: Document,
    pub sort: Option<Document>,
    pub projection: Option<Document>,
    pub limit: Option<i64>,
}

/// What a search asks for.
pub struct FindQueryView {
    pub collection: Seq<char>,
    pub filter: Seq<(Seq<char>, BsonValue)>,
    pub sort: Option<Seq<(Seq<char>, BsonValue)>>,
    pub projection: Option<Seq<(Seq<char>, BsonValue)>>,
    pub limit: Option<i64>,
}

impl View for FindQuery {
    type V = FindQueryView;

    open spec fn view(&self) -> FindQueryView {
        FindQueryView {
            collection: self.collection@,
            filter: document_fields(self.filter),
            sort: optional_fields(self.sort),
            projection: optional_fields(self.projection),
            limit: self.limit,
        }
    }
}

/// A search of a collection for one document.
pub struct FindOneQuery {
    pub collection: String,
    pub filter: Document,
    pub projection: Option<Document>,
}

/// What a search for one document asks for.
pub struct FindOneQueryView {
    pub collection: Seq<char>,
    pub filter: Seq<(Seq<char>, BsonValue)>,
    pub projection: Option<Seq<(Seq<char>, BsonValue)>>,
}

impl View for FindOneQuery {
    type V = FindOneQueryView;

    open spec fn view(&self) -> FindOneQueryView {
        FindOneQueryView {
            collection: self.collection@,
            filter: document_fields(self.filter),
            projection: optional_fields(self.projection),
        }
    }
}

/// What came of a search: it could not be made, or these rows were read, up to a failure if there
/// was one.
pub enum Rows<T> {
    NotOpened { error: String },
    Read { rows: Vec<T>, failure: Option<String> },
}

/// A count of the documents of a collection.
pub struct CountQuery {
    pub collection: String,
    pub filter: Document,
}

} // verus!
