//! The surveys, and the collections that hold their alerts.

use crate::text::concat;
use vstd::prelude::*;

verus! {

/// A survey whose alerts the service holds.
#[derive(Debug, Clone, Copy, PartialEq, Eq, Structural, Hash)]
pub enum Survey {
    Ztf,
    Lsst,
    Decam,
}

impl Survey {
    /// The name by which the survey is written and its collections begin.
    pub open spec fn label(self) -> Seq<char> {
        match self {
            Survey::Ztf => "ZTF"@,
            Survey::Lsst => "LSST"@,
            Survey::Decam => "DECAM"@,
        }
    }

    /// The name by which the survey is written.
    pub fn name(&self) -> (r: &'static str)
        ensures
            r@ == self.label(),
    {
        match self {
            Survey::Ztf => "ZTF",
            Survey::Lsst => "LSST",
            Survey::Decam => "DECAM",
        }
    }

    /// The collection with one document per alert.
    pub fn alerts_collection(&self) -> (r: String)
        ensures
            r@ == self.label() + "_alerts"@,
    {
        concat(self.name(), "_alerts")
    }

    /// The collection with one document per object.
    pub fn aux_collection(&self) -> (r: String)
        ensures
            r@ == self.label() + "_alerts_aux"@,
    {
        concat(self.name(), "_alerts_aux")
    }
}

} // verus!
