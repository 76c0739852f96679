use miner_core::anom::register_anom_scans;
use miner_core::registry::Registry;

#[test]
fn register_anom_scans_registers_all_anom_phase4_scans() {
    let mut r = Registry::new();
    register_anom_scans(&mut r);
    assert!(r.get("stats.autocorr.ljung_box_sq", 1).is_some(), "ANOM-04 squared");
    assert!(r.get("stats.drawdown.profile", 1).is_some(), "ANOM-11 drawdown");
    assert!(r.get("stats.heteroskedasticity.arch_lm", 1).is_some(), "ANOM-08 arch_lm");
    assert!(r.get("stats.normality.jarque_bera", 1).is_some(), "ANOM-09 jarque_bera");
    assert!(r.get("stats.outliers.z_and_mad", 1).is_some(), "ANOM-10 outliers");
    assert!(r.get("stats.returns.profile", 1).is_some(), "ANOM-01");
    assert!(r.get("stats.stationarity.adf", 1).is_some(), "ANOM-05");
    assert!(r.get("stats.stationarity.kpss", 1).is_some(), "ANOM-06");
    assert!(r.get("stats.summary.welford", 1).is_some(), "ANOM-02");
    assert!(r.get("stats.variance_ratio.lo_mackinlay", 1).is_some(), "ANOM-07");
    assert!(r.get("stats.vol.rolling", 1).is_some(), "ANOM-03");
}

#[test]
fn register_anom_scans_adds_break_momentum_and_half_life_scans() {
    let mut r = Registry::new();
    register_anom_scans(&mut r);
    assert_eq!(r.len(), 14);
    assert!(r.get("stats.regime.cusum_break", 1).is_some());
    assert!(r.get("stats.momentum.tsmom", 1).is_some());
    assert!(r.get("stats.meanrev.ou_halflife", 1).is_some());
    assert!(r.get("stats.regime.cusum_break", 2).is_none());
}
