use miner_core::anom::cusum_break::BreakTarget;
use miner_core::anom::kpss::auto_lag_truncation;
use miner_core::anom::meanrev::SeriesBasis;

#[test]
fn target_label_round_trip() {
    for t in [BreakTarget::Mean, BreakTarget::Vol, BreakTarget::Both] {
        assert_eq!(BreakTarget::from_label(t.label()), Some(t));
    }
    assert_eq!(BreakTarget::from_label("garbage"), None);
}

#[test]
fn auto_lag_truncation_n_100() {
    // 4 * (100/100)^(1/4) = 4 * 1 = 4.
    assert_eq!(auto_lag_truncation(100), 4);
}

#[test]
fn auto_lag_truncation_n_500() {
    // 4 * (500/100)^(1/4) = 4 * 5^0.25 ≈ 5.98 -> 5.
    assert_eq!(auto_lag_truncation(500), 5);
}

#[test]
fn auto_lag_truncation_is_deterministic() {
    let l1 = auto_lag_truncation(200);
    let l2 = auto_lag_truncation(200);
    assert_eq!(l1, l2);
}

#[test]
fn basis_label_round_trip() {
    assert_eq!(SeriesBasis::Level.label(), "level");
    assert_eq!(SeriesBasis::Returns.label(), "returns");
}
