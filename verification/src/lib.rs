//! Decisions of an astronomical alert service: what a request for objects of the ZTF and LSST
//! surveys asks of the database, what it is answered, and how an LSST alert is enriched.
//!
//! Nothing here talks to a database or a network. Each module decides, from plain values and
//! from what the database returned, what to ask next or what to answer.

pub mod condition_laws;
pub mod cone_laws;
pub mod cone_search;
pub mod curve_laws;
pub mod db;
pub mod document;
pub mod enrichment;
pub mod enrichment_laws;
pub mod fits;
pub mod fits_laws;
pub mod footprint;
pub mod footprint_laws;
pub mod geo;
pub mod ieee;
pub mod index_laws;
pub mod json;
pub mod lookup_laws;
pub mod meaning;
pub mod number_laws;
pub mod object_id;
pub mod object_id_laws;
pub mod object_lookup;
pub mod photometry;
pub mod pipeline;
pub mod pipeline_laws;
pub mod position_search;
pub mod query;
pub mod ranking;
pub mod refusal_laws;
pub mod reply;
pub mod search;
pub mod search_laws;
pub mod sky;
pub mod sso;
pub mod survey;
pub mod text;
pub mod timeseries_laws;
pub mod xmatch;
pub mod xmatch_laws;

