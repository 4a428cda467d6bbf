//! What light curves are made of: laws on what the functions that build them return.

use crate::enrichment::{law_thresholds_are_the_numbers, LsstAlertForEnrichment, FORCED_MIN_SNR};
use crate::ieee::{double, law_order_is_numeric, magnitude_units, Float64, FRACTIONS};
use crate::number_laws::{lemma_no_number, no_number};
use crate::photometry::{
    as_sighting, as_sightings, counts, point_of, points_until, LsstPhotometry, PhotometryMag,
    Sighting,
};
use vstd::arithmetic::power2::{lemma_pow2_pos, pow2};
use vstd::prelude::*;

verus! {

/// Whether a time is not after another.
pub open spec fn not_after(a: Float64, b: Float64) -> bool {
    !no_number(a) && !no_number(b) && a.units() <= b.units()
}

/// Whether a signal is below a bound, whatever its sign.
pub open spec fn below(snr: Float64, bound: Float64) -> bool {
    &&& !no_number(snr)
    &&& !no_number(bound)
    &&& -bound.units() < snr.units() < bound.units()
}

/// Whether a point is that of a measurement: it has its time, its magnitude with the error, and its
/// band.
pub open spec fn is_point_of(point: PhotometryMag, measured: LsstPhotometry) -> bool {
    &&& point.time == measured.jd
    &&& Some(point.mag) == measured.magpsf
    &&& Some(point.mag_err) == measured.sigmapsf
    &&& point.band == measured.band
}

proof fn lemma_weak(snr: Float64, bound: Float64)
    ensures
        snr.absolute().lt(bound) == below(snr, bound),
{
    let plain = snr.absolute();
    lemma_no_number(snr);
    lemma_no_number(bound);
    lemma_no_number(plain);
    let m = snr.magnitude();
    assert(plain.magnitude() == m);
    let e = m / (FRACTIONS as int);
    let f = m % (FRACTIONS as int);
    if e != 0 {
        let p = pow2((e - 1) as nat) as int;
        lemma_pow2_pos((e - 1) as nat);
        assert((FRACTIONS + f) * p >= 0) by (nonlinear_arith)
            requires
                p > 0,
                f >= 0,
        ;
    }
    assert(magnitude_units(m) >= 0);
    if !snr.is_nan() && !bound.is_nan() {
        law_order_is_numeric(plain, bound);
    }
}

proof fn lemma_not_after(a: Float64, b: Float64)
    ensures
        a.le(b) == not_after(a, b),
{
    lemma_no_number(a);
    lemma_no_number(b);
    if !a.is_nan() && !b.is_nan() {
        law_order_is_numeric(a, b);
    }
}

/// A measurement makes a point just where its signal, its magnitude and the error of that are
/// known, and the signal is not below the bound, where one is set; the point has the time, the
/// magnitude, the error and the band of the measurement.
pub proof fn law_a_point_is_that_of_its_measurement(
    measured: LsstPhotometry,
    min_snr: Option<Float64>,
    r: Option<PhotometryMag>,
)
    requires
        call_ensures(LsstPhotometry::to_photometry_mag, (&measured, min_snr), r),
    ensures
        r is Some <==> {
            &&& measured.snr_psf is Some
            &&& measured.magpsf is Some
            &&& measured.sigmapsf is Some
            &&& min_snr is Some ==> !below(measured.snr_psf->Some_0, min_snr->Some_0)
        },
        r is Some ==> is_point_of(r->Some_0, measured),
{
    if measured.snr_psf is Some && min_snr is Some {
        lemma_weak(measured.snr_psf->Some_0, min_snr->Some_0);
    }
}

/// Whether a measurement belongs to the light curve of an alert: it is not after the alert, its
/// signal, magnitude and error are known, and as forced photometry it is not below three times the
/// noise.
pub open spec fn belongs(measured: LsstPhotometry, jd: Float64, forced: bool) -> bool {
    &&& not_after(measured.jd, jd)
    &&& measured.snr_psf is Some
    &&& measured.magpsf is Some
    &&& measured.sigmapsf is Some
    &&& forced ==> no_number(measured.snr_psf->Some_0) || measured.snr_psf->Some_0.units() >= 6
        * pow2(1073) || measured.snr_psf->Some_0.units() <= -6 * pow2(1073)
}

/// The point of a measurement.
pub open spec fn made(measured: LsstPhotometry) -> PhotometryMag {
    PhotometryMag {
        time: measured.jd,
        mag: measured.magpsf->Some_0,
        mag_err: measured.sigmapsf->Some_0,
        band: measured.band,
    }
}

/// The points of the measurements that belong to the light curve of an alert, in their order.
pub open spec fn curve_of(measured: Seq<LsstPhotometry>, jd: Float64, forced: bool) -> Seq<
    PhotometryMag,
> {
    measured.filter(|m: LsstPhotometry| belongs(m, jd, forced)).map_values(
        |m: LsstPhotometry| made(m),
    )
}

proof fn lemma_counts(measured: LsstPhotometry, jd: Float64, forced: bool)
    ensures
        counts(as_sighting(measured, double(FORCED_MIN_SNR)), jd, forced) == belongs(
            measured,
            jd,
            forced,
        ),
        belongs(measured, jd, forced) ==> point_of(
            as_sighting(measured, double(FORCED_MIN_SNR)),
            forced,
        ) == Some(made(measured)),
{
    law_thresholds_are_the_numbers();
    lemma_not_after(measured.jd, jd);
    if measured.snr_psf is Some {
        lemma_weak(measured.snr_psf->Some_0, double(FORCED_MIN_SNR));
    }
    lemma_no_number(double(FORCED_MIN_SNR));
}

proof fn lemma_curve(measured: Seq<LsstPhotometry>, jd: Float64, forced: bool)
    ensures
        points_until(as_sightings(measured, double(FORCED_MIN_SNR)), jd, forced) == curve_of(
            measured,
            jd,
            forced,
        ),
    decreases measured.len(),
{
    reveal(Seq::filter);
    let bound = double(FORCED_MIN_SNR);
    let all = as_sightings(measured, bound);
    if measured.len() > 0 {
        let less = measured.drop_last();
        lemma_curve(less, jd, forced);
        assert(all.drop_last() =~= as_sightings(less, bound));
        assert(all.last() == as_sighting(measured.last(), bound));
        lemma_counts(measured.last(), jd, forced);
        let before = points_until(as_sightings(less, bound), jd, forced);
        if belongs(measured.last(), jd, forced) {
            assert(points_until(all, jd, forced) =~= before.push(made(measured.last())));
            assert(curve_of(measured, jd, forced) =~= curve_of(less, jd, forced).push(
                made(measured.last()),
            ));
        } else {
            assert(points_until(all, jd, forced) =~= before);
            assert(curve_of(measured, jd, forced) =~= curve_of(less, jd, forced));
        }
    } else {
        assert(points_until(all, jd, forced) =~= curve_of(measured, jd, forced));
    }
}

/// The light curve of an alert is that of its detections, followed by that of its forced
/// photometry.
pub proof fn law_the_light_curve_is_made_of_the_measurements(
    alert: LsstAlertForEnrichment,
    r: Vec<PhotometryMag>,
)
    requires
        call_ensures(LsstAlertForEnrichment::lightcurve, (&alert,), r),
    ensures
        r@ == curve_of(alert.prv_candidates@, alert.candidate.jd, false) + curve_of(
            alert.fp_hists@,
            alert.candidate.jd,
            true,
        ),
{
    lemma_curve(alert.prv_candidates@, alert.candidate.jd, false);
    lemma_curve(alert.fp_hists@, alert.candidate.jd, true);
}

proof fn lemma_curve_comes_from(measured: Seq<LsstPhotometry>, jd: Float64, forced: bool, i: int)
    requires
        0 <= i < curve_of(measured, jd, forced).len(),
    ensures
        exists|k: int|
            0 <= k < measured.len() && belongs(#[trigger] measured[k], jd, forced) && is_point_of(
                curve_of(measured, jd, forced)[i],
                measured[k],
            ),
{
    let wanted = |m: LsstPhotometry| belongs(m, jd, forced);
    let kept = measured.filter(wanted);
    measured.lemma_filter_pred(wanted, i);
    assert(kept.contains(kept[i]));
    measured.lemma_filter_contains_rev(wanted, kept[i]);
    let k = choose|k: int| 0 <= k < measured.len() && measured[k] == kept[i];
    assert(belongs(measured[k], jd, forced));
    assert(is_point_of(curve_of(measured, jd, forced)[i], measured[k]));
}

/// Every point of the light curve of an alert has the time, the magnitude, the error and the band
/// of one of its measurements. So a curve of measurements in one band is in that band alone.
pub proof fn law_every_point_is_a_measurement_of_the_alert(
    alert: LsstAlertForEnrichment,
    r: Vec<PhotometryMag>,
    i: int,
)
    requires
        call_ensures(LsstAlertForEnrichment::lightcurve, (&alert,), r),
        0 <= i < r@.len(),
    ensures
        (exists|k: int|
            0 <= k < alert.prv_candidates@.len() && is_point_of(
                r@[i],
                #[trigger] alert.prv_candidates@[k],
            )) || (exists|k: int|
            0 <= k < alert.fp_hists@.len() && is_point_of(r@[i], #[trigger] alert.fp_hists@[k])),
        not_after(r@[i].time, alert.candidate.jd),
{
    law_the_light_curve_is_made_of_the_measurements(alert, r);
    let jd = alert.candidate.jd;
    let n = curve_of(alert.prv_candidates@, jd, false).len() as int;
    if i < n {
        lemma_curve_comes_from(alert.prv_candidates@, jd, false, i);
    } else {
        lemma_curve_comes_from(alert.fp_hists@, jd, true, i - n);
    }
}

/// The points that measurements of ZTF make, of those that are not after the alert, in their order:
/// as detections without a bound, as forced photometry under its bound.
pub open spec fn ztf_curve_of(measured: Seq<Sighting>, jd: Float64, forced: bool) -> Seq<
    PhotometryMag,
> {
    measured.filter(
        |s: Sighting|
            not_after(s.jd, jd) && (if forced {
                s.forced_photometry is Some
            } else {
                s.photometry is Some
            }),
    ).map_values(
        |s: Sighting|
            if forced {
                s.forced_photometry->Some_0
            } else {
                s.photometry->Some_0
            },
    )
}

proof fn lemma_ztf_curve(measured: Seq<Sighting>, jd: Float64, forced: bool)
    ensures
        points_until(measured, jd, forced) == ztf_curve_of(measured, jd, forced),
{
    let theirs = |s: Sighting| counts(s, jd, forced);
    let ours = |s: Sighting|
        not_after(s.jd, jd) && (if forced {
            s.forced_photometry is Some
        } else {
            s.photometry is Some
        });
    assert forall|s: Sighting| #[trigger] theirs(s) == ours(s) by {
        lemma_not_after(s.jd, jd);
    }
    assert(theirs =~= ours);
    assert(points_until(measured, jd, forced) =~= ztf_curve_of(measured, jd, forced));
}

/// There is a light curve of ZTF just where ZTF has the object: that of its detections, followed by
/// that of its forced photometry.
pub proof fn law_the_light_curve_of_ztf_is_made_of_its_measurements(
    alert: LsstAlertForEnrichment,
    r: Option<Vec<PhotometryMag>>,
)
    requires
        call_ensures(LsstAlertForEnrichment::ztf_lightcurve, (&alert,), r),
    ensures
        r is Some <==> alert.survey_matches is Some && alert.survey_matches->Some_0.ztf is Some,
        r is Some ==> {
            let ztf = alert.survey_matches->Some_0.ztf->Some_0;
            r->Some_0@ == ztf_curve_of(ztf.prv_candidates@, alert.candidate.jd, false)
                + ztf_curve_of(ztf.fp_hists@, alert.candidate.jd, true)
        },
{
    if alert.survey_matches is Some && alert.survey_matches->Some_0.ztf is Some {
        let ztf = alert.survey_matches->Some_0.ztf->Some_0;
        lemma_ztf_curve(ztf.prv_candidates@, alert.candidate.jd, false);
        lemma_ztf_curve(ztf.fp_hists@, alert.candidate.jd, true);
    }
}

} // verus!
