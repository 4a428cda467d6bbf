use babamul_objects::ieee::Float32;
use babamul_objects::sso::{LsstSsoAssociation, SsSource};

fn single(x: f32) -> Float32 {
    Float32::from_bits(x.to_bits())
}

#[test]
fn test_rubin_ephemeris_is_surfaced() {
    let mut ss = SsSource::default();
    ss.designation = Some("2026 XX1".to_string());
    ss.eph_vmag = Some(single(19.4));
    ss.eph_offset = Some(single(0.3));
    ss.eph_rate = Some(single(42.0));
    ss.phase_angle = Some(single(12.5));
    ss.helio_range = Some(single(3.0114));
    ss.topo_range = Some(single(2.2049));

    let sso = LsstSsoAssociation::from_rubin(Some("123"), Some(&ss));
    assert!(sso.is_sso);
    assert_eq!(sso.designation.as_deref(), Some("2026 XX1"));
    assert_eq!(sso.predicted_mag, Some(single(19.4)));
    assert_eq!(sso.separation_arcsec, Some(single(0.3)));
    assert_eq!(sso.sky_motion, Some(single(42.0)));
    assert_eq!(sso.phase_angle, Some(single(12.5)));
    assert_eq!(sso.helio_dist, Some(single(3.0114)));
    assert_eq!(sso.topo_dist, Some(single(2.2049)));
    assert_eq!(sso.source.as_deref(), Some("rubin"));
}

// Rubin can link a detection to an ssObject without supplying ssSource, so
// is_sso must follow ssObjectId and agree with `rock`.
#[test]
fn test_is_sso_follows_ss_object_id_not_the_ephemeris() {
    let sso = LsstSsoAssociation::from_rubin(Some("123"), None);
    assert!(sso.is_sso, "must agree with rock");
    assert!(sso.predicted_mag.is_none());
    assert!(sso.designation.is_none());

    let not_sso = LsstSsoAssociation::from_rubin(None, None);
    assert!(!not_sso.is_sso);
    assert!(not_sso.source.is_none());
}

// An ephemeris without an ssObjectId would otherwise yield is_sso: false with a
// designation and predicted magnitude attached, which filters would disagree
// about depending on which field they cut on.
#[test]
fn test_ephemeris_without_ss_object_id_is_not_surfaced() {
    let mut ss = SsSource::default();
    ss.designation = Some("2026 XX1".to_string());
    ss.eph_vmag = Some(single(19.4));

    let sso = LsstSsoAssociation::from_rubin(None, Some(&ss));
    assert!(!sso.is_sso);
    assert!(sso.designation.is_none());
    assert!(sso.predicted_mag.is_none());
    assert!(sso.source.is_none());
}

#[test]
fn the_default_is_no_association() {
    let sso = LsstSsoAssociation::default();
    assert!(!sso.is_sso);
    assert!(sso.designation.is_none() && sso.source.is_none());
    assert!(sso.separation_arcsec.is_none() && sso.predicted_mag.is_none());
    assert!(sso.sky_motion.is_none() && sso.phase_angle.is_none());
    assert!(sso.helio_dist.is_none() && sso.topo_dist.is_none());
}
