//! Conditions on the place of an object, as the database understands them.

use crate::document::{bson_value, doc1, doc2, document_fields, embedded, list2, object1, BsonValue};
use mongodb::bson::{Bson, Document};
use vstd::prelude::*;

verus! {

/// The objects near a point, nearest first, up to a distance in radians.
pub open spec fn near_filter(
    longitude: BsonValue,
    latitude: BsonValue,
    max_distance: BsonValue,
) -> Seq<(Seq<char>, BsonValue)> {
    seq![
        (
            "coordinates.radec_geojson"@,
            BsonValue::Fields(
                seq![
                    ("$nearSphere"@, BsonValue::List(seq![longitude, latitude])),
                    ("$maxDistance"@, max_distance),
                ],
            ),
        ),
    ]
}

/// The objects within a distance in radians of a point, in no order.
pub open spec fn within_filter(
    longitude: BsonValue,
    latitude: BsonValue,
    radius: BsonValue,
) -> Seq<(Seq<char>, BsonValue)> {
    seq![
        (
            "coordinates.radec_geojson"@,
            BsonValue::Fields(
                seq![
                    (
                        "$geoWithin"@,
                        BsonValue::Fields(
                            seq![
                                (
                                    "$centerSphere"@,
                                    BsonValue::List(
                                        seq![BsonValue::List(seq![longitude, latitude]), radius],
                                    ),
                                ),
                            ],
                        ),
                    ),
                ],
            ),
        ),
    ]
}

pub(crate) fn near(longitude: Bson, latitude: Bson, max_distance: Bson) -> (r: Document)
    ensures
        document_fields(r) == near_filter(
            bson_value(longitude),
            bson_value(latitude),
            bson_value(max_distance),
        ),
{
    proof {
        reveal_strlit("$nearSphere");
        reveal_strlit("$maxDistance");
        assert("$nearSphere"@[1] == 'n' && "$maxDistance"@[1] == 'm');
    }
    let condition = doc2(
        "$nearSphere",
        list2(longitude, latitude),
        "$maxDistance",
        max_distance,
    );
    doc1("coordinates.radec_geojson", embedded(condition))
}

pub(crate) fn within(longitude: Bson, latitude: Bson, radius: Bson) -> (r: Document)
    ensures
        document_fields(r) == within_filter(
            bson_value(longitude),
            bson_value(latitude),
            bson_value(radius),
        ),
{
    let circle = object1("$centerSphere", list2(list2(longitude, latitude), radius));
    doc1("coordinates.radec_geojson", object1("$geoWithin", circle))
}

} // verus!
