//! Measurements of brightness, and which of them make up the light curve of an alert.

use crate::ieee::{Float32, Float64};
use vstd::prelude::*;

verus! {

/// A filter of the camera.
#[derive(Debug, Clone, Copy, PartialEq, Eq, Structural)]
pub enum Band {
    U,
    G,
    R,
    I,
    Z,
    Y,
}

/// A measurement of LSST. The fluxes are in nJy.
#[derive(Debug, Clone, Copy)]
pub struct LsstPhotometry {
    pub jd: Float64,
    pub magpsf: Option<Float32>,
    pub sigmapsf: Option<Float32>,
    pub diffmaglim: Float32,
    pub flux: Option<Float64>,
    pub flux_err: Float64,
    pub band: Band,
    pub ra: Option<Float64>,
    pub dec: Option<Float64>,
    pub snr_psf: Option<Float64>,
}

/// A point of a light curve.
#[derive(Debug, Clone, Copy, PartialEq, Eq, Structural)]
pub struct PhotometryMag {
    pub time: Float64,
    pub mag: Float32,
    pub mag_err: Float32,
    pub band: Band,
}

/// Whether a signal is too weak: a lower bound is set, and the signal, whatever its sign, is below
/// it.
pub open spec fn too_weak(snr: Float64, min_snr: Option<Float64>) -> bool {
    match min_snr {
        Some(bound) => snr.absolute().lt(bound),
        None => false,
    }
}

/// The measurement as a point of a light curve: where signal, magnitude and its error are known,
/// and the signal is not too weak.
pub open spec fn photometry_mag(point: LsstPhotometry, min_snr: Option<Float64>) -> Option<
    PhotometryMag,
> {
    match (point.snr_psf, point.magpsf, point.sigmapsf) {
        (Some(snr), Some(mag), Some(mag_err)) => if too_weak(snr, min_snr) {
            None
        } else {
            Some(PhotometryMag { time: point.jd, mag, mag_err, band: point.band })
        },
        _ => None,
    }
}

impl LsstPhotometry {
    /// The measurement as a point of a light curve.
    pub fn to_photometry_mag(&self, min_snr: Option<Float64>) -> (r: Option<PhotometryMag>)
        ensures
            r == photometry_mag(*self, min_snr),
    {
        match (self.snr_psf, self.magpsf, self.sigmapsf) {
            (Some(snr), Some(mag), Some(mag_err)) => {
                if let Some(bound) = min_snr {
                    if snr.abs().less_than(bound) {
                        return None;
                    }
                }
                Some(PhotometryMag { time: self.jd, mag, mag_err, band: self.band })
            },
            _ => None,
        }
    }
}

/// A measurement of any survey: when it was taken, and the points of a light curve that it makes.
/// What makes a point of a measurement is up to its survey.
#[derive(Debug, Clone, Copy)]
pub struct Sighting {
    pub jd: Float64,
    /// The point that the measurement makes where no bound is set on its signal.
    pub photometry: Option<PhotometryMag>,
    /// The point that it makes under the bound that is set on forced photometry.
    pub forced_photometry: Option<PhotometryMag>,
}

/// The point that a sighting makes, as forced photometry or as a detection.
pub open spec fn point_of(sighting: Sighting, forced: bool) -> Option<PhotometryMag> {
    if forced {
        sighting.forced_photometry
    } else {
        sighting.photometry
    }
}

/// Whether a sighting counts: it is no later than the time, and makes a point.
pub open spec fn counts(sighting: Sighting, jd: Float64, forced: bool) -> bool {
    sighting.jd.le(jd) && point_of(sighting, forced) is Some
}

/// The sightings that count, in order.
pub open spec fn counting(sightings: Seq<Sighting>, jd: Float64, forced: bool) -> Seq<Sighting> {
    sightings.filter(|sighting: Sighting| counts(sighting, jd, forced))
}

/// The points that the sightings that count make, in order.
pub open spec fn points_until(sightings: Seq<Sighting>, jd: Float64, forced: bool) -> Seq<
    PhotometryMag,
> {
    counting(sightings, jd, forced).map_values(
        |sighting: Sighting| point_of(sighting, forced)->Some_0,
    )
}

/// A measurement of LSST as a sighting, with the bound that is set on forced photometry.
pub open spec fn as_sighting(point: LsstPhotometry, bound: Float64) -> Sighting {
    Sighting {
        jd: point.jd,
        photometry: photometry_mag(point, None),
        forced_photometry: photometry_mag(point, Some(bound)),
    }
}

/// Measurements of LSST as sightings.
pub open spec fn as_sightings(points: Seq<LsstPhotometry>, bound: Float64) -> Seq<Sighting> {
    points.map_values(|point: LsstPhotometry| as_sighting(point, bound))
}

pub(crate) fn sightings(points: &Vec<LsstPhotometry>, bound: Float64) -> (r: Vec<Sighting>)
    ensures
        r@ == as_sightings(points@, bound),
{
    let mut out: Vec<Sighting> = Vec::new();
    let n: usize = points.len();
    for i in 0..n
        invariant
            n == points@.len(),
            out@.len() == i,
            forall|k: int| 0 <= k < i ==> #[trigger] out@[k] == as_sighting(points@[k], bound),
    {
        out.push(
            Sighting {
                jd: points[i].jd,
                photometry: points[i].to_photometry_mag(None),
                forced_photometry: points[i].to_photometry_mag(Some(bound)),
            },
        );
    }
    assert(out@ =~= as_sightings(points@, bound));
    out
}

/// Puts the points that the sightings that count make behind those of a light curve.
pub(crate) fn add_points(
    curve: &mut Vec<PhotometryMag>,
    sightings: &Vec<Sighting>,
    jd: Float64,
    forced: bool,
)
    ensures
        final(curve)@ == old(curve)@ + points_until(sightings@, jd, forced),
{
    let n: usize = sightings.len();
    assert(curve@ =~= curve@ + points_until(sightings@.take(0), jd, forced));
    for i in 0..n
        invariant
            n == sightings@.len(),
            curve@ == old(curve)@ + points_until(sightings@.take(i as int), jd, forced),
    {
        let ghost before = points_until(sightings@.take(i as int), jd, forced);
        proof {
            reveal(Seq::filter);
            assert(sightings@.take(i + 1).drop_last() =~= sightings@.take(i as int));
        }
        let made = if forced {
            sightings[i].forced_photometry
        } else {
            sightings[i].photometry
        };
        match made {
            Some(point) if sightings[i].jd.at_most(jd) => {
                curve.push(point);
                assert(points_until(sightings@.take(i + 1), jd, forced) =~= before.push(point));
                assert(curve@ =~= old(curve)@ + before.push(point));
            },
            _ => {
                assert(points_until(sightings@.take(i + 1), jd, forced) =~= before);
            },
        }
    }
    assert(sightings@.take(n as int) =~= sightings@);
}

/// Every point comes from a sighting that counts.
pub proof fn law_points_come_from_what_counts(
    sightings: Seq<Sighting>,
    jd: Float64,
    forced: bool,
    i: int,
)
    requires
        0 <= i < points_until(sightings, jd, forced).len(),
    ensures
        exists|k: int|
            0 <= k < sightings.len() && counts(#[trigger] sightings[k], jd, forced) && point_of(
                sightings[k],
                forced,
            ) == Some(points_until(sightings, jd, forced)[i]),
{
    let wanted = |sighting: Sighting| counts(sighting, jd, forced);
    let kept = sightings.filter(wanted);
    sightings.lemma_filter_pred(wanted, i);
    assert(kept.contains(kept[i]));
    sightings.lemma_filter_contains_rev(wanted, kept[i]);
    let k = choose|k: int| 0 <= k < sightings.len() && sightings[k] == kept[i];
    assert(counts(sightings[k], jd, forced));
}

/// A sighting that does not count changes nothing, wherever it stands: one that is later than the
/// time, or one that makes no point.
pub proof fn law_what_does_not_count_changes_nothing(
    before: Seq<Sighting>,
    sighting: Sighting,
    after: Seq<Sighting>,
    jd: Float64,
    forced: bool,
)
    requires
        !counts(sighting, jd, forced),
    ensures
        counting(before.push(sighting) + after, jd, forced) == counting(
            before + after,
            jd,
            forced,
        ),
        points_until(before.push(sighting) + after, jd, forced) == points_until(
            before + after,
            jd,
            forced,
        ),
{
    let wanted = |sighting: Sighting| counts(sighting, jd, forced);
    Seq::filter_distributes_over_add(before.push(sighting), after, wanted);
    Seq::filter_distributes_over_add(before, after, wanted);
    assert(before.push(sighting).filter(wanted) == before.filter(wanted)) by {
        reveal(Seq::filter);
        assert(before.push(sighting).drop_last() =~= before);
    }
}

/// What is later than the time does not count.
pub proof fn law_what_is_later_does_not_count(sighting: Sighting, jd: Float64, forced: bool)
    requires
        jd.lt(sighting.jd),
    ensures
        !counts(sighting, jd, forced),
{
}

/// A measurement of LSST that is weaker than the bound, or whose signal is not known, does not count
/// as forced photometry; one whose signal is not known does not count as a detection either.
pub proof fn law_weak_and_unknown_do_not_count(point: LsstPhotometry, jd: Float64, bound: Float64)
    ensures
        point.snr_psf is Some && point.snr_psf->Some_0.absolute().lt(bound) ==> !counts(
            as_sighting(point, bound),
            jd,
            true,
        ),
        point.snr_psf is None ==> !counts(as_sighting(point, bound), jd, true) && !counts(
            as_sighting(point, bound),
            jd,
            false,
        ),
{
}

} // verus!
