use miner_core::anom::adf::AdfScan;
use miner_core::anom::arch_lm::ArchLmScan;
use miner_core::anom::cusum_break::resolve_target;
use miner_core::anom::drawdown::DrawdownProfileScan;
use miner_core::anom::jarque_bera::JarqueBeraScan;
use miner_core::anom::kpss::KpssScan;
use miner_core::anom::ljung_box_sq::{LjungBoxSqScan, SERIES_KIND};
use miner_core::anom::meanrev::OuHalfLifeScan;
use miner_core::anom::outliers::{resolve_series as outlier_series, OutlierSeries, OutliersZAndMadScan};
use miner_core::anom::returns_profile::ReturnsProfileScan;
use miner_core::anom::summary::SummaryWelfordScan;
use miner_core::anom::tsmom::TsmomScan;
use miner_core::anom::variance_ratio::VarianceRatioScan;
use miner_core::anom::vol::{VolRollingScan, VolSeries};
use miner_core::params::{ParamKey, ParamValue, Params, ScanError, ValueKind};
use miner_core::scan::string_label_to_raw_array;

fn params(entries: Vec<(&str, ParamValue)>) -> Params {
    Params { entries: entries.into_iter().map(|(k, v)| (k.to_string(), v)).collect() }
}

fn no_params() -> Params {
    params(vec![])
}

fn label(s: &str) -> ParamValue {
    ParamValue::Str(s.to_string())
}

fn ints(values: &[i64]) -> ParamValue {
    ParamValue::Array(values.iter().map(|v| ParamValue::Int(*v)).collect())
}

/// Bar-open times of `n` fifteen-minute bars from 2024-01-01T00:00Z, in ms.
fn quarter_hour_bars(n: usize) -> Vec<i64> {
    (0..n as i64).map(|i| 1_704_067_200_000 + i * 900_000).collect()
}

#[test]
fn adf_invalid_regression_rejected() {
    let err = AdfScan.prepare(40, &params(vec![("regression", label("garbage"))])).err().unwrap();
    assert_eq!(err, ScanError::UnknownLabel { key: ParamKey::Regression, label: "garbage".to_string() });
}

#[test]
fn adf_n_zero_emits_scan_error() {
    let err = AdfScan.prepare(0, &no_params()).err().unwrap();
    assert_eq!(err, ScanError::InsufficientData { needed: 4, got: 0 });
}

#[test]
fn adf_n_one_emits_scan_error() {
    let err = AdfScan.prepare(1, &no_params()).err().unwrap();
    assert_eq!(err, ScanError::InsufficientData { needed: 4, got: 1 });
}

#[test]
fn arch_lm_invalid_lag_zero() {
    let err = ArchLmScan.prepare(60, &params(vec![("lag", ParamValue::Int(0))])).unwrap_err();
    assert_eq!(err, ScanError::BelowMinimum { key: ParamKey::Lag, minimum: 1, given: 0 });
}

#[test]
fn arch_lm_invalid_lag_too_large() {
    // 30 closes give 29 returns, and a lag may be at most 29 / 3 = 9.
    let err = ArchLmScan.prepare(30, &params(vec![("lag", ParamValue::Int(20))])).unwrap_err();
    assert_eq!(err, ScanError::Above { key: ParamKey::Lag, value: 20, bound: 9 });
}

#[test]
fn arch_lm_n_zero_emits_scan_error() {
    let err = ArchLmScan.prepare(0, &no_params()).unwrap_err();
    assert_eq!(err, ScanError::InsufficientData { needed: 2, got: 0 });
}

#[test]
fn invalid_target_rejected() {
    let err = resolve_target(&params(vec![("target", label("garbage"))])).unwrap_err();
    assert_eq!(err, ScanError::UnknownLabel { key: ParamKey::Target, label: "garbage".to_string() });
}

#[test]
fn drawdown_n_zero_emits_scan_error() {
    let err = DrawdownProfileScan.prepare(0, &no_params()).unwrap_err();
    assert_eq!(err, ScanError::EmptySeries);
}

#[test]
fn drawdown_n_one_emits_scan_error() {
    let err = DrawdownProfileScan.prepare(1, &no_params()).unwrap_err();
    assert_eq!(err, ScanError::InsufficientData { needed: 2, got: 1 });
}

#[test]
fn jarque_bera_n_zero_emits_scan_error() {
    let err = JarqueBeraScan.prepare(0, &no_params()).unwrap_err();
    assert_eq!(err, ScanError::EmptySeries);
}

#[test]
fn jarque_bera_n_one_emits_scan_error() {
    let err = JarqueBeraScan.prepare(1, &no_params()).unwrap_err();
    assert_eq!(err, ScanError::InsufficientData { needed: 2, got: 1 });
}

#[test]
fn jarque_bera_invalid_series_rejected() {
    let err = JarqueBeraScan.prepare(40, &params(vec![("series", label("garbage"))])).unwrap_err();
    assert_eq!(err, ScanError::UnknownLabel { key: ParamKey::Series, label: "garbage".to_string() });
}

#[test]
fn kpss_n_zero_emits_scan_error() {
    let err = KpssScan.prepare(0, &no_params()).err().unwrap();
    assert_eq!(err, ScanError::InsufficientData { needed: 4, got: 0 });
}

#[test]
fn kpss_n_one_emits_scan_error() {
    let err = KpssScan.prepare(1, &no_params()).err().unwrap();
    assert_eq!(err, ScanError::InsufficientData { needed: 4, got: 1 });
}

#[test]
fn kpss_invalid_regression_rejected() {
    let err = KpssScan.prepare(40, &params(vec![("regression", label("ctt"))])).err().unwrap();
    assert_eq!(err, ScanError::UnknownLabel { key: ParamKey::Regression, label: "ctt".to_string() });
}

#[test]
fn ljung_box_sq_invalid_params_low() {
    let err = LjungBoxSqScan.prepare(64, &params(vec![("lags", ParamValue::Int(0))])).unwrap_err();
    assert_eq!(err, ScanError::BelowMinimum { key: ParamKey::Lags, minimum: 1, given: 0 });
}

#[test]
fn ljung_box_sq_invalid_params_high() {
    // 32 closes give 31 returns; 999 lags is not below 31.
    let err = LjungBoxSqScan.prepare(32, &params(vec![("lags", ParamValue::Int(999))])).unwrap_err();
    assert_eq!(err, ScanError::NotBelow { key: ParamKey::Lags, value: 999, bound: 31 });
}

#[test]
fn ljung_box_sq_effect_extra_series_kind() {
    assert_eq!(LjungBoxSqScan.prepare(64, &params(vec![("lags", ParamValue::Int(5))])), Ok(5));
    let packed = string_label_to_raw_array(SERIES_KIND);
    let decoded = std::str::from_utf8(&packed.data).expect("utf-8");
    assert_eq!(decoded, "squared_returns");
}

#[test]
fn ou_invalid_on_rejected() {
    let err = OuHalfLifeScan.prepare(40, &params(vec![("on", label("garbage"))])).err().unwrap();
    assert_eq!(err, ScanError::UnknownLabel { key: ParamKey::On, label: "garbage".to_string() });
}

#[test]
fn ou_below_min_n_rejected() {
    let err = OuHalfLifeScan.prepare(10, &no_params()).err().unwrap();
    assert_eq!(err, ScanError::InsufficientData { needed: 30, got: 10 });
}

#[test]
fn ou_custom_min_n_allows_shorter_series() {
    let settings = OuHalfLifeScan.prepare(12, &params(vec![("min_n", ParamValue::Int(10))]));
    assert!(settings.is_ok(), "ok with min_n=10");
}

#[test]
fn outliers_n_zero_emits_scan_error() {
    let series = outlier_series(&no_params()).unwrap();
    assert_eq!(series, OutlierSeries::LogReturns);
    assert_eq!(OutliersZAndMadScan.check_length(series, 0), Err(ScanError::EmptySeries));
}

#[test]
fn outliers_n_one_emits_scan_error() {
    let series = outlier_series(&params(vec![("series", label("close"))])).unwrap();
    assert_eq!(series, OutlierSeries::Close);
    assert_eq!(
        OutliersZAndMadScan.check_length(series, 1),
        Err(ScanError::SeriesTooShort { needed: 2, got: 1 })
    );
}

#[test]
fn returns_profile_invalid_variant_rejected() {
    let ts = quarter_hour_bars(32);
    let err = ReturnsProfileScan.prepare(&ts, &params(vec![("variant", label("garbage"))])).err().unwrap();
    assert_eq!(err, ScanError::UnknownLabel { key: ParamKey::Variant, label: "garbage".to_string() });
}

#[test]
fn returns_profile_n_zero_emits_scan_error_insufficient_data() {
    let err = ReturnsProfileScan.prepare(&[], &no_params()).err().unwrap();
    assert_eq!(err, ScanError::InsufficientData { needed: 2, got: 0 });
}

#[test]
fn returns_profile_n_one_emits_scan_error_insufficient_data() {
    let err = ReturnsProfileScan.prepare(&quarter_hour_bars(1), &no_params()).err().unwrap();
    assert_eq!(err, ScanError::InsufficientData { needed: 2, got: 1 });
}

#[test]
fn summary_welford_n_zero_emits_scan_error() {
    let err = SummaryWelfordScan.prepare(0, &no_params()).unwrap_err();
    assert_eq!(err, ScanError::EmptySeries);
}

#[test]
fn tsmom_invalid_k_zero() {
    let err = TsmomScan.prepare(200, &params(vec![("k_values", ints(&[0]))])).err().unwrap();
    assert_eq!(err, ScanError::BelowMinimum { key: ParamKey::KValues, minimum: 1, given: 0 });
}

#[test]
fn tsmom_k_too_large_rejected() {
    // 20 closes give 19 returns; 19 / 5 = 3 blocks, fewer than 4.
    let err = TsmomScan.prepare(20, &params(vec![("k_values", ints(&[5]))])).err().unwrap();
    assert_eq!(err, ScanError::HorizonTooLong { k: 5, n_returns: 19 });
}

#[test]
fn tsmom_n_too_small_emits_scan_error() {
    let err = TsmomScan.prepare(3, &no_params()).err().unwrap();
    assert_eq!(err, ScanError::TooFewReturns { needed: 4, got: 2 });
}

#[test]
fn tsmom_invalid_k_values_non_array() {
    let err = TsmomScan.prepare(200, &params(vec![("k_values", label("garbage"))])).err().unwrap();
    assert_eq!(err, ScanError::WrongKind { key: ParamKey::KValues, expected: ValueKind::List });
}

#[test]
fn tsmom_invalid_scaling_non_bool() {
    let err = TsmomScan.prepare(200, &params(vec![("scaling", label("yes"))])).err().unwrap();
    assert_eq!(err, ScanError::WrongKind { key: ParamKey::Scaling, expected: ValueKind::Boolean });
}

#[test]
fn variance_ratio_invalid_k_low() {
    let err = VarianceRatioScan.prepare(200, &params(vec![("k_values", ints(&[1]))])).err().unwrap();
    assert_eq!(err, ScanError::BelowMinimum { key: ParamKey::KValues, minimum: 2, given: 1 });
}

#[test]
fn variance_ratio_k_too_large_rejected() {
    // 20 closes give 19 returns; k = 20 exceeds 19 / 2.
    let err = VarianceRatioScan.prepare(20, &params(vec![("k_values", ints(&[20]))])).err().unwrap();
    assert_eq!(err, ScanError::HorizonTooLong { k: 20, n_returns: 19 });
}

#[test]
fn variance_ratio_n_zero_emits_scan_error() {
    let err = VarianceRatioScan.prepare(0, &no_params()).err().unwrap();
    assert_eq!(err, ScanError::InsufficientData { needed: 2, got: 0 });
}

#[test]
fn variance_ratio_invalid_k_values_non_array() {
    let err = VarianceRatioScan.prepare(200, &params(vec![("k_values", label("garbage"))])).err().unwrap();
    assert_eq!(err, ScanError::WrongKind { key: ParamKey::KValues, expected: ValueKind::List });
}

#[test]
fn vol_rolling_invalid_window_low() {
    let err = VolRollingScan.prepare(32, &params(vec![("window", ParamValue::Int(1))])).err().unwrap();
    assert_eq!(err, ScanError::BelowMinimum { key: ParamKey::Window, minimum: 2, given: 1 });
}

#[test]
fn vol_rolling_invalid_window_high() {
    // 8 closes give 7 returns; a window of 100 is longer than the series.
    let err = VolRollingScan.prepare(8, &params(vec![("window", ParamValue::Int(100))])).err().unwrap();
    assert_eq!(err, ScanError::Above { key: ParamKey::Window, value: 100, bound: 7 });
}

#[test]
fn vol_rolling_extras_have_correct_lengths() {
    let bars = quarter_hour_bars(32);
    let settings = VolRollingScan.prepare(bars.len(), &params(vec![("window", ParamValue::Int(5))])).unwrap();
    assert_eq!(settings.series, VolSeries::LogReturns);
    assert_eq!(settings.window, 5);
    let series_ts = VolRollingScan.series_timestamps_ms(settings.series, &bars);
    assert_eq!(series_ts.len(), 31);
    assert_eq!(series_ts[0], bars[1]);
    let layout = VolRollingScan.window_layout(&series_ts, settings.window);
    // 31 returns in windows of 5 give 27 windows, and 27 - 5 + 1 = 23 values
    // of the volatility of the window volatilities.
    assert_eq!(layout.n_windows, 27);
    assert_eq!(layout.window_starts_ms.len(), 27);
    assert_eq!(layout.window_starts_ms[26], series_ts[26]);
    assert_eq!(layout.vol_of_vol_len, 23);
}

#[test]
fn vol_close_series_keeps_every_timestamp_and_short_layouts_have_no_vol_of_vol() {
    let bars = quarter_hour_bars(6);
    let series_ts = VolRollingScan.series_timestamps_ms(VolSeries::Close, &bars);
    assert_eq!(series_ts, bars);
    let layout = VolRollingScan.window_layout(&series_ts, 4);
    assert_eq!(layout.n_windows, 3);
    assert_eq!(layout.window_starts_ms, bars[..3].to_vec());
    assert_eq!(layout.vol_of_vol_len, 0);
}
