use miner_core::anom::returns_profile::{
    compute_timestamps_ms, resolve_variant, utc_day_index, variant_discriminant, ReturnsProfileScan,
    ReturnsVariant,
};
use miner_core::lagroot::floor_lag_root;
use miner_core::params::{ParamValue, Params, ScanError};
use miner_core::registry::{AnomScan, Registry};
use miner_core::scan::{string_label_to_raw_array, Dtype};
use miner_core::str_eq;

const DAY: i64 = 86_400_000;

#[test]
fn utc_day_floors_negative_times() {
    assert_eq!(utc_day_index(0), 0);
    assert_eq!(utc_day_index(DAY - 1), 0);
    assert_eq!(utc_day_index(DAY), 1);
    assert_eq!(utc_day_index(-1), -1);
    assert_eq!(utc_day_index(-DAY), -1);
    assert_eq!(utc_day_index(-DAY - 1), -2);
}

#[test]
fn return_timestamps_by_variant() {
    // Two bars on day 0, then two on day 1.
    let ts = [1_000, 2_000, DAY + 5, DAY + 9];
    assert_eq!(compute_timestamps_ms(&ts, ReturnsVariant::Log), vec![2_000, DAY + 5, DAY + 9]);
    assert_eq!(compute_timestamps_ms(&ts, ReturnsVariant::Simple), vec![2_000, DAY + 5, DAY + 9]);
    assert_eq!(compute_timestamps_ms(&ts, ReturnsVariant::Intraday), vec![2_000, DAY + 9]);
    assert_eq!(compute_timestamps_ms(&ts, ReturnsVariant::Overnight), vec![DAY + 5]);
    assert!(compute_timestamps_ms(&ts[..1], ReturnsVariant::Log).is_empty());
    assert!(compute_timestamps_ms(&[], ReturnsVariant::Overnight).is_empty());
    // A step from just before the epoch to just after it crosses a day.
    assert_eq!(compute_timestamps_ms(&[-1, 1], ReturnsVariant::Overnight), vec![1]);
}

#[test]
fn returns_variant_and_length() {
    assert_eq!(resolve_variant(&Params::new()), Ok(ReturnsVariant::Log));
    let p = Params { entries: vec![("variant".to_string(), ParamValue::Str("overnight".to_string()))] };
    let three_days = [0, DAY, 2 * DAY];
    let s = ReturnsProfileScan.prepare(&three_days, &p).ok().unwrap();
    assert_eq!(s.variant, ReturnsVariant::Overnight);
    assert_eq!(s.timestamps_ms, vec![DAY, 2 * DAY]);
    assert_eq!(ReturnsProfileScan.prepare(&[0], &p).err(), Some(ScanError::InsufficientData { needed: 2, got: 1 }));
    // Only one of the two steps crosses a day: one overnight return is too few.
    assert_eq!(
        ReturnsProfileScan.prepare(&[0, 5, DAY], &p).err(),
        Some(ScanError::SeriesTooShort { needed: 2, got: 1 })
    );
    assert_eq!(ReturnsProfileScan.prepare(&[0, 5, DAY], &Params::new()).ok().unwrap().timestamps_ms, vec![5, DAY]);
    assert_eq!(variant_discriminant(ReturnsVariant::Intraday), 2);
    assert_eq!(ReturnsVariant::Simple.as_str(), "simple");
}

#[test]
fn lag_roots_are_exact() {
    assert_eq!(floor_lag_root(12, 0), 0);
    assert_eq!(floor_lag_root(12, 100), 12);
    assert_eq!(floor_lag_root(4, 100), 4);
    assert_eq!(floor_lag_root(4, 99), 3);
    assert_eq!(floor_lag_root(4, 1600), 8);
    assert_eq!(floor_lag_root(12, 1_000_000), 120);
}

#[test]
fn label_arrays_round_trip() {
    let a = string_label_to_raw_array("ctt");
    assert_eq!(a.data, b"ctt".to_vec());
    assert_eq!(a.shape, vec![3]);
    assert_eq!(a.dtype, Dtype::F64);
    assert_eq!(std::str::from_utf8(&a.data).unwrap(), "ctt");
    let b = string_label_to_raw_array("é");
    assert_eq!(b.shape, vec![2]);
    assert_eq!(std::str::from_utf8(&b.data).unwrap(), "é");
}

#[test]
fn string_equality() {
    assert!(str_eq("abc", "abc"));
    assert!(!str_eq("abc", "abd"));
    assert!(!str_eq("ab", "abc"));
    assert!(str_eq("", ""));
}

#[test]
fn registry_answers_latest_registration() {
    let mut r = Registry::new();
    assert!(r.get("stats.stationarity.adf", 1).is_none());
    r.register(AnomScan::Adf);
    assert_eq!(r.get("stats.stationarity.adf", 1), Some(AnomScan::Adf));
    assert_eq!(r.get("stats.stationarity.adf", 2), None);
    assert_eq!(r.get("stats.stationarity.kpss", 1), None);
    r.register(AnomScan::Kpss);
    assert_eq!(r.get("stats.stationarity.adf", 1), Some(AnomScan::Adf));
    assert_eq!(r.get("stats.stationarity.kpss", 1), Some(AnomScan::Kpss));
    assert_eq!(r.len(), 2);
    assert_eq!(AnomScan::Tsmom.id(), "stats.momentum.tsmom");
}
