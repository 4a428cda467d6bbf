//! The indexes of the surveys and the searches that rely on them.

use crate::db::{index_views, initialize_survey_indexes, survey_indexes, IndexRequest};
use crate::document::{document_fields, BsonValue};
use crate::geo::{near_filter, within_filter};
use crate::search::{lsst_designation_filter, sighting_condition};
use crate::survey::Survey;
use vstd::prelude::*;

verus! {

/// Whether a survey has an index on a collection whose keys begin so.
pub open spec fn has_index(survey: Survey, collection: Seq<char>, keys: Seq<Seq<char>>) -> bool {
    exists|i: int|
        0 <= i < survey_indexes(survey).len() && begins(
            #[trigger] survey_indexes(survey)[i].keys,
            keys,
        ) && survey_indexes(survey)[i].collection == collection
}

/// Whether the keys of fields begin so.
pub open spec fn begins(fields: Seq<(Seq<char>, BsonValue)>, keys: Seq<Seq<char>>) -> bool {
    &&& keys.len() <= fields.len()
    &&& forall|i: int| 0 <= i < keys.len() ==> (#[trigger] fields[i]).0 == keys[i]
}

/// The search around a point and the search within a circle go by the place of an object, and every
/// survey has an index on it, for its objects and for its alerts.
pub proof fn law_places_are_indexed(
    survey: Survey,
    longitude: BsonValue,
    latitude: BsonValue,
    radius: BsonValue,
)
    ensures
        near_filter(longitude, latitude, radius).len() == 1,
        within_filter(longitude, latitude, radius).len() == 1,
        has_index(
            survey,
            survey.label() + "_alerts_aux"@,
            seq![near_filter(longitude, latitude, radius)[0].0],
        ),
        has_index(
            survey,
            survey.label() + "_alerts_aux"@,
            seq![within_filter(longitude, latitude, radius)[0].0],
        ),
        has_index(
            survey,
            survey.label() + "_alerts"@,
            seq![near_filter(longitude, latitude, radius)[0].0],
        ),
{
    let keys = seq!["coordinates.radec_geojson"@];
    assert(seq![near_filter(longitude, latitude, radius)[0].0] =~= keys);
    assert(seq![within_filter(longitude, latitude, radius)[0].0] =~= keys);
    assert(begins(survey_indexes(survey)[0].keys, keys));
    assert(begins(survey_indexes(survey)[1].keys, keys));
}

/// The alerts of an object are found by an index, in every survey.
pub proof fn law_objects_of_alerts_are_indexed(survey: Survey)
    ensures
        has_index(survey, survey.label() + "_alerts"@, seq!["objectId"@]),
{
    assert(begins(survey_indexes(survey)[2].keys, seq!["objectId"@]));
}

/// A designation is found by an index: in LSST by the one field that is asked for, in ZTF by the
/// two fields together that one measurement is asked for, detected or not.
pub proof fn law_designations_are_indexed(designation: Seq<char>, uncertainty: BsonValue)
    ensures
        lsst_designation_filter(designation).len() == 1,
        has_index(
            Survey::Lsst,
            "LSST"@ + "_alerts_aux"@,
            seq![lsst_designation_filter(designation)[0].0],
        ),
        ({
            let asked = sighting_condition(designation, uncertainty)->Fields_0;
            &&& asked.len() == 2
            &&& has_index(
                Survey::Ztf,
                "ZTF"@ + "_alerts_aux"@,
                seq![
                    "prv_candidates"@ + "."@ + asked[0].0,
                    "prv_candidates"@ + "."@ + asked[1].0,
                ],
            )
            &&& has_index(
                Survey::Ztf,
                "ZTF"@ + "_alerts_aux"@,
                seq![
                    "prv_nondetections"@ + "."@ + asked[0].0,
                    "prv_nondetections"@ + "."@ + asked[1].0,
                ],
            )
        }),
{
    assert(begins(survey_indexes(Survey::Lsst)[4].keys, seq!["designation"@]));
    assert(seq![lsst_designation_filter(designation)[0].0] =~= seq!["designation"@]);
    reveal_strlit(".");
    reveal_strlit("ssnamenr");
    reveal_strlit("ssdistnr");
    reveal_strlit("prv_candidates");
    reveal_strlit("prv_nondetections");
    reveal_strlit("prv_candidates.ssnamenr");
    reveal_strlit("prv_candidates.ssdistnr");
    reveal_strlit("prv_nondetections.ssnamenr");
    reveal_strlit("prv_nondetections.ssdistnr");
    assert("prv_candidates"@ + "."@ + "ssnamenr"@ =~= "prv_candidates.ssnamenr"@);
    assert("prv_candidates"@ + "."@ + "ssdistnr"@ =~= "prv_candidates.ssdistnr"@);
    assert("prv_nondetections"@ + "."@ + "ssnamenr"@ =~= "prv_nondetections.ssnamenr"@);
    assert("prv_nondetections"@ + "."@ + "ssdistnr"@ =~= "prv_nondetections.ssdistnr"@);
    let asked = sighting_condition(designation, uncertainty)->Fields_0;
    assert(begins(
        survey_indexes(Survey::Ztf)[3].keys,
        seq!["prv_candidates"@ + "."@ + asked[0].0, "prv_candidates"@ + "."@ + asked[1].0],
    ));
    assert(begins(
        survey_indexes(Survey::Ztf)[4].keys,
        seq!["prv_nondetections"@ + "."@ + asked[0].0, "prv_nondetections"@ + "."@ + asked[1].0],
    ));
}

/// Whether an index with these keys is asked for on a collection.
pub open spec fn is_asked_for(
    requests: Seq<IndexRequest>,
    collection: Seq<char>,
    keys: Seq<(Seq<char>, BsonValue)>,
) -> bool {
    exists|i: int|
        0 <= i < requests.len() && (#[trigger] requests[i]).collection@ == collection
            && document_fields(requests[i].keys) == keys
}

/// What is asked for a survey are the indexes that its searches rely on, on its own two collections
/// and no others, and none that would keep two documents apart.
pub proof fn law_the_indexes_asked_for_serve_the_searches(survey: Survey, r: Vec<IndexRequest>)
    requires
        call_ensures(initialize_survey_indexes, (&survey,), r),
    ensures
        ({
            let name = match survey {
                Survey::Ztf => "ZTF"@,
                Survey::Lsst => "LSST"@,
                Survey::Decam => "DECAM"@,
            };
            let one = BsonValue::Int32(1);
            let place = seq![
                ("coordinates.radec_geojson"@, BsonValue::Text("2dsphere"@)),
                ("_id"@, one),
            ];
            &&& r@.len() == if survey == Survey::Decam {
                3int
            } else {
                5int
            }
            &&& forall|i: int|
                0 <= i < r@.len() ==> !(#[trigger] r@[i]).unique && (r@[i].collection@ == name
                    + "_alerts"@ || r@[i].collection@ == name + "_alerts_aux"@)
            &&& is_asked_for(r@, name + "_alerts"@, place)
            &&& is_asked_for(r@, name + "_alerts_aux"@, place)
            &&& is_asked_for(r@, name + "_alerts"@, seq![("objectId"@, one)])
            &&& survey == Survey::Lsst ==> {
                &&& is_asked_for(r@, "LSST"@ + "_alerts"@, seq![("ss_object_id"@, one)])
                &&& is_asked_for(r@, "LSST"@ + "_alerts_aux"@, seq![("designation"@, one)])
            }
            &&& survey == Survey::Ztf ==> {
                &&& is_asked_for(
                    r@,
                    "ZTF"@ + "_alerts_aux"@,
                    seq![("prv_candidates.ssnamenr"@, one), ("prv_candidates.ssdistnr"@, one)],
                )
                &&& is_asked_for(
                    r@,
                    "ZTF"@ + "_alerts_aux"@,
                    seq![
                        ("prv_nondetections.ssnamenr"@, one),
                        ("prv_nondetections.ssdistnr"@, one),
                    ],
                )
            }
        }),
{
    let views = index_views(r@);
    assert(views == survey_indexes(survey));
    assert(r@.len() == views.len());
    assert forall|i: int| 0 <= i < r@.len() implies views[i].collection
        == (#[trigger] r@[i]).collection@ && views[i].keys == document_fields(r@[i].keys)
        && views[i].unique == r@[i].unique by {}
    let a = r@[0];
    let b = r@[1];
    let c = r@[2];
    let d = r@[3];
    let e = r@[4];
}

} // verus!
