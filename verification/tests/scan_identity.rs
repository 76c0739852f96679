use miner_core::scan::ScanArity;
use miner_core::anom::adf::AdfScan;
use miner_core::anom::arch_lm::ArchLmScan;
use miner_core::anom::drawdown::DrawdownProfileScan;
use miner_core::anom::jarque_bera::JarqueBeraScan;
use miner_core::anom::kpss::KpssScan;
use miner_core::anom::ljung_box_sq::LjungBoxSqScan;
use miner_core::anom::meanrev::OuHalfLifeScan;
use miner_core::anom::outliers::OutliersZAndMadScan;
use miner_core::anom::returns_profile::ReturnsProfileScan;
use miner_core::anom::summary::SummaryWelfordScan;
use miner_core::anom::tsmom::TsmomScan;
use miner_core::anom::variance_ratio::VarianceRatioScan;
use miner_core::anom::vol::VolRollingScan;
use miner_core::anom::cusum_break::CusumBreakScan;

#[test]
fn adf_id_and_version() {
    let s = AdfScan;
    assert_eq!(s.id(), "stats.stationarity.adf");
    assert_eq!(s.version(), 1);
}

#[test]
fn adf_arity_is_single() {
    let s = AdfScan;
    assert_eq!(s.arity(), ScanArity::Single);
}

#[test]
fn arch_lm_id_and_version() {
    let s = ArchLmScan;
    assert_eq!(s.id(), "stats.heteroskedasticity.arch_lm");
    assert_eq!(s.version(), 1);
}

#[test]
fn arch_lm_arity_is_single() {
    let s = ArchLmScan;
    assert_eq!(s.arity(), ScanArity::Single);
}

#[test]
fn drawdown_id_and_version() {
    let s = DrawdownProfileScan;
    assert_eq!(s.id(), "stats.drawdown.profile");
    assert_eq!(s.version(), 1);
}

#[test]
fn drawdown_arity_is_single() {
    let s = DrawdownProfileScan;
    assert_eq!(s.arity(), ScanArity::Single);
}

#[test]
fn jarque_bera_id_and_version() {
    let s = JarqueBeraScan;
    assert_eq!(s.id(), "stats.normality.jarque_bera");
    assert_eq!(s.version(), 1);
}

#[test]
fn jarque_bera_arity_is_single() {
    let s = JarqueBeraScan;
    assert_eq!(s.arity(), ScanArity::Single);
}

#[test]
fn kpss_id_and_version() {
    let s = KpssScan;
    assert_eq!(s.id(), "stats.stationarity.kpss");
    assert_eq!(s.version(), 1);
}

#[test]
fn kpss_arity_is_single() {
    let s = KpssScan;
    assert_eq!(s.arity(), ScanArity::Single);
}

#[test]
fn ljung_box_sq_id_and_version() {
    let s = LjungBoxSqScan;
    assert_eq!(s.id(), "stats.autocorr.ljung_box_sq");
    assert_eq!(s.version(), 1);
}

#[test]
fn ljung_box_sq_arity_is_single() {
    let s = LjungBoxSqScan;
    assert_eq!(s.arity(), ScanArity::Single);
    assert_eq!(s.arity().expected_len(), 1);
}

#[test]
fn ou_id_and_version() {
    let s = OuHalfLifeScan;
    assert_eq!(s.id(), "stats.meanrev.ou_halflife");
    assert_eq!(s.version(), 1);
}

#[test]
fn ou_arity_is_single() {
    let s = OuHalfLifeScan;
    assert_eq!(s.arity(), ScanArity::Single);
}

#[test]
fn outliers_id_and_version() {
    let s = OutliersZAndMadScan;
    assert_eq!(s.id(), "stats.outliers.z_and_mad");
    assert_eq!(s.version(), 1);
}

#[test]
fn outliers_arity_is_single() {
    let s = OutliersZAndMadScan;
    assert_eq!(s.arity(), ScanArity::Single);
}

#[test]
fn returns_profile_id_and_version() {
    let s = ReturnsProfileScan;
    assert_eq!(s.id(), "stats.returns.profile");
    assert_eq!(s.version(), 1);
}

#[test]
fn returns_profile_arity_is_single() {
    let s = ReturnsProfileScan;
    assert_eq!(s.arity(), ScanArity::Single);
    assert_eq!(s.arity().expected_len(), 1);
}

#[test]
fn summary_welford_id_and_version() {
    let s = SummaryWelfordScan;
    assert_eq!(s.id(), "stats.summary.welford");
    assert_eq!(s.version(), 1);
}

#[test]
fn summary_welford_arity_is_single() {
    let s = SummaryWelfordScan;
    assert_eq!(s.arity(), ScanArity::Single);
    assert_eq!(s.arity().expected_len(), 1);
}

#[test]
fn tsmom_id_and_version() {
    let s = TsmomScan;
    assert_eq!(s.id(), "stats.momentum.tsmom");
    assert_eq!(s.version(), 1);
}

#[test]
fn tsmom_arity_is_single() {
    let s = TsmomScan;
    assert_eq!(s.arity(), ScanArity::Single);
}

#[test]
fn variance_ratio_id_and_version() {
    let s = VarianceRatioScan;
    assert_eq!(s.id(), "stats.variance_ratio.lo_mackinlay");
    assert_eq!(s.version(), 1);
}

#[test]
fn variance_ratio_arity_is_single() {
    let s = VarianceRatioScan;
    assert_eq!(s.arity(), ScanArity::Single);
}

#[test]
fn vol_rolling_id_and_version() {
    let s = VolRollingScan;
    assert_eq!(s.id(), "stats.vol.rolling");
    assert_eq!(s.version(), 1);
}

#[test]
fn vol_rolling_arity_is_single() {
    let s = VolRollingScan;
    assert_eq!(s.arity(), ScanArity::Single);
}

#[test]
fn id_arity_version() {
    assert_eq!(CusumBreakScan.id(), "stats.regime.cusum_break");
    assert_eq!(CusumBreakScan.version(), 1);
    assert_eq!(CusumBreakScan.arity(), ScanArity::Single);
}
