use miner_core::anom::adf::{
    regression_label, resolve_autolag, resolve_max_lag, resolve_regression, AdfScan, AdfSettings,
    AutoLagVariant, RegressionVariant,
};
use miner_core::anom::arch_lm::{resolve_lag, ArchLmScan};
use miner_core::anom::cusum_break::{resolve_min_segment, resolve_target, BreakKind, BreakTarget};
use miner_core::anom::drawdown::{DrawdownProfileScan, DrawdownSeries};
use miner_core::anom::jarque_bera::{JarqueBeraScan, JbSeries};
use miner_core::anom::kpss::{
    regression_label as kpss_regression_label, resolve_nlags, KpssRegression, KpssScan, NlagsParam,
};
use miner_core::anom::ljung_box_sq::{default_lags, resolve_lags, LjungBoxSqScan};
use miner_core::anom::meanrev::{resolve_min_n, resolve_on, OuHalfLifeScan, SeriesBasis};
use miner_core::anom::outliers::{resolve_series as outlier_series, OutlierSeries, OutliersZAndMadScan};
use miner_core::anom::summary::{SummarySeries, SummaryWelfordScan};
use miner_core::anom::tsmom::{resolve_k_values, resolve_scaling, TsmomScan};
use miner_core::anom::variance_ratio::{resolve_robust, VarianceRatioScan};
use miner_core::anom::vol::{resolve_window, VolRollingScan, VolSeries, VolSettings};
use miner_core::params::{ParamKey, ParamValue, Params, ScanError, ValueKind};
use miner_core::scan::NullMethod;

fn params(entries: Vec<(&str, ParamValue)>) -> Params {
    Params { entries: entries.into_iter().map(|(k, v)| (k.to_string(), v)).collect() }
}

fn label(s: &str) -> ParamValue {
    ParamValue::Str(s.to_string())
}

#[test]
fn params_get_takes_first_entry_and_reads_kinds() {
    let p = params(vec![("lag", ParamValue::Int(3)), ("lag", ParamValue::Int(9)), ("on", label("level"))]);
    assert_eq!(p.get(ParamKey::Lag).and_then(|v| v.as_i64()), Some(3));
    assert_eq!(p.get(ParamKey::On).and_then(|v| v.as_str()).map(|s| s.as_str()), Some("level"));
    assert!(p.get(ParamKey::Window).is_none());
    assert_eq!(ParamValue::Bool(false).as_bool(), Some(false));
    assert_eq!(ParamValue::LargeUint(u64::MAX).as_i64(), None);
    assert!(ParamValue::Array(vec![]).as_array().is_some());
    assert!(ParamValue::Null.as_str().is_none());
}

#[test]
fn adf_regression_and_autolag_labels() {
    assert_eq!(resolve_regression(&Params::new()), Ok(RegressionVariant::C));
    for (s, v) in [("nc", RegressionVariant::Nc), ("c", RegressionVariant::C), ("ct", RegressionVariant::Ct), ("ctt", RegressionVariant::Ctt)] {
        assert_eq!(resolve_regression(&params(vec![("regression", label(s))])), Ok(v));
        assert_eq!(regression_label(v), s);
    }
    assert_eq!(
        resolve_regression(&params(vec![("regression", label("garbage"))])),
        Err(ScanError::UnknownLabel { key: ParamKey::Regression, label: "garbage".to_string() })
    );
    assert_eq!(
        resolve_regression(&params(vec![("regression", ParamValue::Int(1))])),
        Err(ScanError::WrongKind { key: ParamKey::Regression, expected: ValueKind::Label })
    );
    assert_eq!(resolve_autolag(&Params::new()), Ok(AutoLagVariant::Aic));
    assert_eq!(resolve_autolag(&params(vec![("autolag", label("BIC"))])), Ok(AutoLagVariant::Bic));
    assert_eq!(resolve_autolag(&params(vec![("autolag", label("None"))])), Ok(AutoLagVariant::Fixed));
    assert_eq!(
        resolve_autolag(&params(vec![("autolag", label("aic"))])),
        Err(ScanError::UnknownLabel { key: ParamKey::Autolag, label: "aic".to_string() })
    );
}

#[test]
fn adf_max_lag_default_and_bounds() {
    // floor(12 * (100/100)^(1/4)) = 12.
    assert_eq!(resolve_max_lag(&Params::new(), 100), Ok(12));
    // floor(12 * 16^(1/4)) = 24.
    assert_eq!(resolve_max_lag(&Params::new(), 1600), Ok(24));
    // floor(12 * 0.04^(1/4)) = 5, which is not below n = 4.
    assert_eq!(
        resolve_max_lag(&Params::new(), 4),
        Err(ScanError::NotBelow { key: ParamKey::MaxLag, value: 5, bound: 4 })
    );
    assert_eq!(resolve_max_lag(&params(vec![("max_lag", ParamValue::Int(3))]), 80), Ok(3));
    assert_eq!(
        resolve_max_lag(&params(vec![("max_lag", ParamValue::Int(-1))]), 80),
        Err(ScanError::BelowMinimum { key: ParamKey::MaxLag, minimum: 0, given: -1 })
    );
    assert_eq!(
        resolve_max_lag(&params(vec![("max_lag", ParamValue::Int(80))]), 80),
        Err(ScanError::NotBelow { key: ParamKey::MaxLag, value: 80, bound: 80 })
    );
    assert_eq!(
        resolve_max_lag(&params(vec![("max_lag", ParamValue::Real)]), 80),
        Err(ScanError::WrongKind { key: ParamKey::MaxLag, expected: ValueKind::Integer })
    );
}

#[test]
fn adf_prepare_checks_length_first() {
    let bad = params(vec![("regression", label("garbage"))]);
    assert_eq!(AdfScan.prepare(3, &bad), Err(ScanError::InsufficientData { needed: 4, got: 3 }));
    assert!(matches!(AdfScan.prepare(40, &bad), Err(ScanError::UnknownLabel { .. })));
    assert_eq!(
        AdfScan.prepare(80, &params(vec![("max_lag", ParamValue::Int(5))])),
        Ok(AdfSettings { regression: RegressionVariant::C, autolag: AutoLagVariant::Aic, max_lag: 5 })
    );
    assert!(AdfScan.supports_bootstrap());
    assert!(AdfScan.supports_null_method(NullMethod::CircularShift));
    assert!(!ArchLmScan.supports_bootstrap());
    assert_eq!(AdfScan.finding_fields().effect_extra_keys, vec!["crit_values", "lag_selected", "nobs", "p_value", "regression"]);
    assert_eq!(AdfScan.finding_fields().raw_series_keys, vec!["closes", "timestamps_ms"]);
}

#[test]
fn arch_lm_lag_bounds() {
    assert_eq!(resolve_lag(&Params::new(), 30), Ok(5));
    assert_eq!(
        resolve_lag(&Params::new(), 14),
        Err(ScanError::Above { key: ParamKey::Lag, value: 5, bound: 4 })
    );
    assert_eq!(
        resolve_lag(&params(vec![("lag", ParamValue::Int(0))]), 30),
        Err(ScanError::BelowMinimum { key: ParamKey::Lag, minimum: 1, given: 0 })
    );
    assert_eq!(ArchLmScan.prepare(1, &Params::new()), Err(ScanError::InsufficientData { needed: 2, got: 1 }));
    // 31 closes give 30 returns, so lag may be at most 10.
    assert_eq!(ArchLmScan.prepare(31, &params(vec![("lag", ParamValue::Int(10))])), Ok(10));
}

#[test]
fn cusum_target_and_min_segment() {
    assert_eq!(resolve_target(&Params::new()), Ok(BreakTarget::Both));
    assert_eq!(resolve_target(&params(vec![("target", label("vol"))])), Ok(BreakTarget::Vol));
    assert!(BreakTarget::Both.detects_mean() && BreakTarget::Both.detects_vol());
    assert!(!BreakTarget::Mean.detects_vol() && !BreakTarget::Vol.detects_mean());
    assert_eq!(BreakKind::Mean.label(), "mean");
    assert!(BreakKind::Mean.order() < BreakKind::Vol.order());
    assert_eq!(resolve_min_segment(&Params::new()), Ok(30));
    assert_eq!(resolve_min_segment(&params(vec![("min_segment", ParamValue::Int(2))])), Ok(2));
    assert_eq!(
        resolve_min_segment(&params(vec![("min_segment", ParamValue::Int(1))])),
        Err(ScanError::BelowMinimum { key: ParamKey::MinSegment, minimum: 2, given: 1 })
    );
    assert_eq!(
        resolve_min_segment(&params(vec![("min_segment", ParamValue::Int(-7))])),
        Err(ScanError::BelowMinimum { key: ParamKey::MinSegment, minimum: 2, given: -7 })
    );
}

#[test]
fn series_labels_and_empty_input() {
    assert_eq!(DrawdownProfileScan.prepare(5, &Params::new()), Ok(DrawdownSeries::LogReturns));
    assert_eq!(DrawdownProfileScan.prepare(0, &Params::new()), Err(ScanError::EmptySeries));
    assert_eq!(JarqueBeraScan.prepare(1, &params(vec![("series", label("close"))])), Err(ScanError::InsufficientData { needed: 2, got: 1 }));
    assert_eq!(JarqueBeraScan.prepare(0, &Params::new()), Err(ScanError::EmptySeries));
    assert_eq!(JarqueBeraScan.prepare(9, &params(vec![("series", label("close"))])), Ok(JbSeries::Close));
    assert_eq!(SummaryWelfordScan.prepare(3, &params(vec![("series", label("close"))])), Ok(SummarySeries::Close));
    // The series parameter is checked before the length.
    assert!(matches!(SummaryWelfordScan.prepare(0, &params(vec![("series", label("x"))])), Err(ScanError::UnknownLabel { .. })));
    assert_eq!(outlier_series(&Params::new()), Ok(OutlierSeries::LogReturns));
    assert_eq!(DrawdownProfileScan.prepare(1, &params(vec![("series", label("close"))])), Err(ScanError::SeriesTooShort { needed: 2, got: 1 }));
    assert_eq!(DrawdownProfileScan.prepare(1, &Params::new()), Err(ScanError::InsufficientData { needed: 2, got: 1 }));
    assert_eq!(JarqueBeraScan.prepare(4, &Params::new()), Err(ScanError::SeriesTooShort { needed: 4, got: 3 }));
    assert_eq!(JarqueBeraScan.prepare(4, &params(vec![("series", label("close"))])), Ok(JbSeries::Close));
    assert_eq!(SummaryWelfordScan.prepare(1, &Params::new()), Err(ScanError::InsufficientData { needed: 2, got: 1 }));
    assert_eq!(SummaryWelfordScan.prepare(1, &params(vec![("series", label("close"))])), Ok(SummarySeries::Close));
    assert_eq!(OutliersZAndMadScan.check_length(OutlierSeries::Close, 0), Err(ScanError::EmptySeries));
    assert_eq!(OutliersZAndMadScan.check_length(OutlierSeries::Close, 1), Err(ScanError::SeriesTooShort { needed: 2, got: 1 }));
    assert_eq!(OutliersZAndMadScan.check_length(OutlierSeries::LogReturns, 1), Err(ScanError::InsufficientData { needed: 2, got: 1 }));
    assert_eq!(OutliersZAndMadScan.check_length(OutlierSeries::LogReturns, 2), Err(ScanError::SeriesTooShort { needed: 2, got: 1 }));
    assert_eq!(OutliersZAndMadScan.check_length(OutlierSeries::LogReturns, 3), Ok(2));
    assert_eq!(OutlierSeries::Close.as_str(), "close");
    assert_eq!(VolSeries::LogReturns.as_str(), "log_returns");
}

#[test]
fn kpss_nlags_and_regression() {
    assert_eq!(resolve_nlags(&Params::new(), 50), Ok(NlagsParam::Auto));
    assert_eq!(resolve_nlags(&params(vec![("nlags", label("auto"))]), 50), Ok(NlagsParam::Auto));
    assert_eq!(resolve_nlags(&params(vec![("nlags", ParamValue::Int(7))]), 50), Ok(NlagsParam::Manual(7)));
    assert_eq!(
        resolve_nlags(&params(vec![("nlags", ParamValue::Int(50))]), 50),
        Err(ScanError::NotBelow { key: ParamKey::Nlags, value: 50, bound: 50 })
    );
    assert_eq!(
        resolve_nlags(&params(vec![("nlags", label("legacy"))]), 50),
        Err(ScanError::UnknownLabel { key: ParamKey::Nlags, label: "legacy".to_string() })
    );
    assert_eq!(
        resolve_nlags(&params(vec![("nlags", ParamValue::Bool(true))]), 50),
        Err(ScanError::WrongKind { key: ParamKey::Nlags, expected: ValueKind::IntegerOrAuto })
    );
    assert_eq!(kpss_regression_label(KpssRegression::Ct), "ct");
    assert_eq!(KpssScan.prepare(3, &Params::new()), Err(ScanError::InsufficientData { needed: 4, got: 3 }));
}

#[test]
fn ljung_box_sq_lags() {
    assert_eq!(default_lags(3), 0);
    assert_eq!(default_lags(30), 6);
    assert_eq!(default_lags(1000), 10);
    assert_eq!(resolve_lags(&Params::new(), 100), Ok(10));
    // Four closes give three returns, whose default lag count 0 is refused.
    assert_eq!(
        LjungBoxSqScan.prepare(4, &Params::new()),
        Err(ScanError::BelowMinimum { key: ParamKey::Lags, minimum: 1, given: 0 })
    );
    assert_eq!(LjungBoxSqScan.prepare(2, &Params::new()), Err(ScanError::TooFewReturns { needed: 2, got: 1 }));
    assert_eq!(LjungBoxSqScan.prepare(0, &Params::new()), Err(ScanError::TooFewReturns { needed: 2, got: 0 }));
    assert_eq!(
        LjungBoxSqScan.prepare(10, &params(vec![("lags", ParamValue::Int(9))])),
        Err(ScanError::NotBelow { key: ParamKey::Lags, value: 9, bound: 9 })
    );
}

#[test]
fn meanrev_on_and_min_n() {
    assert_eq!(resolve_on(&Params::new()), Ok(SeriesBasis::Level));
    assert_eq!(resolve_on(&params(vec![("on", label("returns"))])), Ok(SeriesBasis::Returns));
    assert_eq!(resolve_min_n(&Params::new()), Ok(30));
    assert_eq!(
        resolve_min_n(&params(vec![("min_n", ParamValue::Int(2))])),
        Err(ScanError::BelowMinimum { key: ParamKey::MinN, minimum: 3, given: 2 })
    );
    assert_eq!(
        resolve_min_n(&params(vec![("min_n", ParamValue::Int(-2))])),
        Err(ScanError::BelowMinimum { key: ParamKey::MinN, minimum: 3, given: -2 })
    );
    assert_eq!(OuHalfLifeScan.prepare(29, &Params::new()), Err(ScanError::InsufficientData { needed: 30, got: 29 }));
    assert!(OuHalfLifeScan.prepare(30, &Params::new()).is_ok());
}

#[test]
fn momentum_and_variance_ratio_horizons() {
    assert_eq!(resolve_k_values(&Params::new()), Ok(vec![1, 5, 10, 20]));
    assert_eq!(
        resolve_k_values(&params(vec![("k_values", ParamValue::Array(vec![]))])),
        Err(ScanError::EmptyList { key: ParamKey::KValues })
    );
    assert_eq!(
        resolve_k_values(&params(vec![("k_values", ParamValue::Int(3))])),
        Err(ScanError::WrongKind { key: ParamKey::KValues, expected: ValueKind::List })
    );
    assert_eq!(
        resolve_k_values(&params(vec![("k_values", ParamValue::Array(vec![ParamValue::Int(2), label("x")]))])),
        Err(ScanError::WrongKind { key: ParamKey::KValues, expected: ValueKind::Integer })
    );
    assert_eq!(
        resolve_k_values(&params(vec![("k_values", ParamValue::Array(vec![ParamValue::Int(0)]))])),
        Err(ScanError::BelowMinimum { key: ParamKey::KValues, minimum: 1, given: 0 })
    );
    assert_eq!(resolve_scaling(&Params::new()), Ok(true));
    assert_eq!(
        resolve_scaling(&params(vec![("scaling", label("yes"))])),
        Err(ScanError::WrongKind { key: ParamKey::Scaling, expected: ValueKind::Boolean })
    );
    // 41 closes give 40 returns: k = 10 leaves 4 blocks, k = 11 too few.
    let ok = TsmomScan.prepare(41, &params(vec![("k_values", ParamValue::Array(vec![ParamValue::Int(10)]))])).unwrap();
    assert_eq!(ok.k_values, vec![10]);
    assert!(ok.scaling);
    assert_eq!(
        TsmomScan.prepare(41, &params(vec![("k_values", ParamValue::Array(vec![ParamValue::Int(11), ParamValue::Int(20)]))])).err(),
        Some(ScanError::HorizonTooLong { k: 11, n_returns: 40 })
    );
    assert_eq!(TsmomScan.prepare(4, &Params::new()).err(), Some(ScanError::TooFewReturns { needed: 4, got: 3 }));
    assert_eq!(resolve_robust(&params(vec![("robust", ParamValue::Bool(false))])), Ok(false));
    let vr = VarianceRatioScan.prepare(33, &Params::new()).unwrap();
    assert_eq!(vr.k_values, vec![2, 4, 8, 16]);
    assert_eq!(
        VarianceRatioScan.prepare(32, &Params::new()).err(),
        Some(ScanError::HorizonTooLong { k: 16, n_returns: 31 })
    );
    assert_eq!(
        VarianceRatioScan.prepare(40, &params(vec![("k_values", ParamValue::Array(vec![ParamValue::Int(1)]))])).err(),
        Some(ScanError::BelowMinimum { key: ParamKey::KValues, minimum: 2, given: 1 })
    );
    assert_eq!(VarianceRatioScan.prepare(1, &Params::new()).err(), Some(ScanError::InsufficientData { needed: 2, got: 1 }));
}

#[test]
fn vol_window() {
    assert_eq!(resolve_window(&Params::new()), Err(ScanError::Missing { key: ParamKey::Window }));
    assert_eq!(
        resolve_window(&params(vec![("window", ParamValue::Int(1))])),
        Err(ScanError::BelowMinimum { key: ParamKey::Window, minimum: 2, given: 1 })
    );
    let w5 = params(vec![("window", ParamValue::Int(5))]);
    assert_eq!(VolRollingScan.prepare(6, &w5), Ok(VolSettings { series: VolSeries::LogReturns, window: 5 }));
    assert_eq!(
        VolRollingScan.prepare(5, &w5),
        Err(ScanError::Above { key: ParamKey::Window, value: 5, bound: 4 })
    );
    let close = params(vec![("window", ParamValue::Int(5)), ("series", label("close"))]);
    assert_eq!(VolRollingScan.prepare(5, &close), Ok(VolSettings { series: VolSeries::Close, window: 5 }));
    assert_eq!(VolRollingScan.prepare(0, &close), Err(ScanError::EmptySeries));
    assert_eq!(VolRollingScan.prepare(1, &w5), Err(ScanError::InsufficientData { needed: 2, got: 1 }));
}
