//! Solar system objects: what Rubin says of the one that a detection is associated with.

use crate::ieee::Float32;
use crate::text::optional_text;
use vstd::prelude::*;

verus! {

/// What Rubin supplies of a solar system object with a detection.
pub struct SsSource {
    pub designation: Option<String>,
    pub eph_offset: Option<Float32>,
    pub eph_vmag: Option<Float32>,
    pub eph_rate: Option<Float32>,
    pub phase_angle: Option<Float32>,
    pub helio_range: Option<Float32>,
    pub topo_range: Option<Float32>,
}

impl Default for SsSource {
    /// Nothing is known.
    fn default() -> (r: Self)
        ensures
            r.designation is None,
            r.eph_offset is None,
            r.eph_vmag is None,
            r.eph_rate is None,
            r.phase_angle is None,
            r.helio_range is None,
            r.topo_range is None,
    {
        SsSource {
            designation: None,
            eph_offset: None,
            eph_vmag: None,
            eph_rate: None,
            phase_angle: None,
            helio_range: None,
            topo_range: None,
        }
    }
}

/// The association of one detection of LSST with a solar system object. Nothing in it is derived:
/// the ephemeris comes from Rubin.
pub struct LsstSsoAssociation {
    /// Whether Rubin associated the detection with a solar system object.
    pub is_sso: bool,
    /// The designation, where there is one.
    pub designation: Option<String>,
    /// How far the detection is from the predicted position. Where these drift, the orbits are
    /// going stale.
    pub separation_arcsec: Option<Float32>,
    /// The predicted magnitude in the V band.
    pub predicted_mag: Option<Float32>,
    /// The predicted motion on the sky, without which a trail would pass for extension.
    pub sky_motion: Option<Float32>,
    /// The angle between sun, object and observer, in degrees.
    pub phase_angle: Option<Float32>,
    /// The distance to the sun, in au.
    pub helio_dist: Option<Float32>,
    /// The distance to the observer, in au.
    pub topo_dist: Option<Float32>,
    /// Who made the association.
    pub source: Option<String>,
}

/// What an association says.
pub struct LsstSsoAssociationView {
    pub is_sso: bool,
    pub designation: Option<Seq<char>>,
    pub separation_arcsec: Option<Float32>,
    pub predicted_mag: Option<Float32>,
    pub sky_motion: Option<Float32>,
    pub phase_angle: Option<Float32>,
    pub helio_dist: Option<Float32>,
    pub topo_dist: Option<Float32>,
    pub source: Option<Seq<char>>,
}

impl View for LsstSsoAssociation {
    type V = LsstSsoAssociationView;

    open spec fn view(&self) -> LsstSsoAssociationView {
        LsstSsoAssociationView {
            is_sso: self.is_sso,
            designation: optional_text(self.designation),
            separation_arcsec: self.separation_arcsec,
            predicted_mag: self.predicted_mag,
            sky_motion: self.sky_motion,
            phase_angle: self.phase_angle,
            helio_dist: self.helio_dist,
            topo_dist: self.topo_dist,
            source: optional_text(self.source),
        }
    }
}

/// No association: nothing is said.
pub open spec fn no_association() -> LsstSsoAssociationView {
    LsstSsoAssociationView {
        is_sso: false,
        designation: None,
        separation_arcsec: None,
        predicted_mag: None,
        sky_motion: None,
        phase_angle: None,
        helio_dist: None,
        topo_dist: None,
        source: None,
    }
}

/// The association that Rubin made, if it made one: with the ephemeris, where that came along.
pub open spec fn rubin_association(
    associated: bool,
    ss_source: Option<&SsSource>,
) -> LsstSsoAssociationView {
    if !associated {
        no_association()
    } else {
        match ss_source {
            Some(ss) => LsstSsoAssociationView {
                is_sso: true,
                designation: optional_text(ss.designation),
                separation_arcsec: ss.eph_offset,
                predicted_mag: ss.eph_vmag,
                sky_motion: ss.eph_rate,
                phase_angle: ss.phase_angle,
                helio_dist: ss.helio_range,
                topo_dist: ss.topo_range,
                source: Some("rubin"@),
            },
            None => LsstSsoAssociationView {
                is_sso: true,
                source: Some("rubin"@),
                ..no_association()
            },
        }
    }
}

impl Default for LsstSsoAssociation {
    /// No association.
    fn default() -> (r: Self)
        ensures
            r@ == no_association(),
    {
        LsstSsoAssociation {
            is_sso: false,
            designation: None,
            separation_arcsec: None,
            predicted_mag: None,
            sky_motion: None,
            phase_angle: None,
            helio_dist: None,
            topo_dist: None,
            source: None,
        }
    }
}

fn copy_of(s: &Option<String>) -> (r: Option<String>)
    ensures
        optional_text(r) == optional_text(*s),
{
    match s {
        Some(s) => Some(s.clone()),
        None => None,
    }
}

impl LsstSsoAssociation {
    /// Builds the association from what Rubin says. The identifier alone decides whether there is
    /// one: the ephemeris may be missing beside it, and is not shown without it.
    pub fn from_rubin(ss_object_id: Option<&str>, ss_source: Option<&SsSource>) -> (r: Self)
        ensures
            r@ == rubin_association(ss_object_id is Some, ss_source),
    {
        if ss_object_id.is_none() {
            return LsstSsoAssociation::default();
        }
        match ss_source {
            Some(ss) => LsstSsoAssociation {
                is_sso: true,
                designation: copy_of(&ss.designation),
                separation_arcsec: ss.eph_offset,
                predicted_mag: ss.eph_vmag,
                sky_motion: ss.eph_rate,
                phase_angle: ss.phase_angle,
                helio_dist: ss.helio_range,
                topo_dist: ss.topo_range,
                source: Some("rubin".to_owned()),
            },
            None => LsstSsoAssociation {
                is_sso: true,
                designation: None,
                separation_arcsec: None,
                predicted_mag: None,
                sky_motion: None,
                phase_angle: None,
                helio_dist: None,
                topo_dist: None,
                source: Some("rubin".to_owned()),
            },
        }
    }
}

/// Whether an association is one follows the identifier and not the ephemeris, and an ephemeris
/// without an identifier is not shown at all.
pub proof fn law_the_identifier_decides(associated: bool, ss_source: Option<&SsSource>)
    ensures
        rubin_association(associated, ss_source).is_sso == associated,
        rubin_association(associated, ss_source).source is Some == associated,
        !associated ==> rubin_association(associated, ss_source) == rubin_association(
            associated,
            None,
        ),
{
}

} // verus!
