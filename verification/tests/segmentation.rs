use miner_core::anom::cusum_break::BreakKind;
use miner_core::anom::segmentation::{
    locate_break, merge_breaks, regime_frames, segment_returns, BreakFrame, BreakLocation,
};

/// Proposes the midpoint of every segment, always above the threshold.
fn halving(lo: usize, hi: usize) -> Option<(usize, bool)> {
    Some(((hi - lo) / 2, true))
}

fn frame(kind: BreakKind, index: usize) -> BreakFrame {
    BreakFrame { kind, index, pre_start: 0, post_end: 10, regime_index: 1, found_lo: 0, found_hi: 10 }
}

#[test]
fn halving_splits_down_to_min_segment() {
    let seg = segment_returns(8, 2, &halving);
    assert_eq!(seg.bounds, vec![0, 2, 4, 6, 8]);
    assert_eq!(seg.origins[1], (0, 4));
    assert_eq!(seg.origins[2], (0, 8));
    assert_eq!(seg.origins[3], (4, 8));
}

#[test]
fn short_series_is_never_examined() {
    let never = |_lo: usize, _hi: usize| -> Option<(usize, bool)> { panic!("examined a short segment") };
    let seg = segment_returns(40, 30, &never);
    assert_eq!(seg.bounds, vec![0, 40]);
}

#[test]
fn candidate_below_threshold_is_refused() {
    let weak = |lo: usize, hi: usize| Some(((hi - lo) / 2, false));
    assert_eq!(segment_returns(100, 10, &weak).bounds, vec![0, 100]);
}

#[test]
fn candidate_leaving_a_short_side_is_refused() {
    let lopsided = |_lo: usize, _hi: usize| Some((20, true));
    assert_eq!(segment_returns(100, 30, &lopsided).bounds, vec![0, 100]);
}

#[test]
fn segment_without_candidate_is_left_whole() {
    let constant = |_lo: usize, _hi: usize| -> Option<(usize, bool)> { None };
    assert_eq!(segment_returns(400, 30, &constant).bounds, vec![0, 400]);
}

#[test]
fn empty_series_has_no_breaks() {
    let seg = segment_returns(0, 2, &halving);
    assert_eq!(seg.bounds, vec![0]);
    assert!(regime_frames(BreakKind::Mean, &seg).is_empty());
}

#[test]
fn regime_frames_span_neighbouring_breaks() {
    let seg = segment_returns(8, 2, &halving);
    let frames = regime_frames(BreakKind::Vol, &seg);
    assert_eq!(
        frames,
        vec![
            BreakFrame { kind: BreakKind::Vol, index: 2, pre_start: 0, post_end: 4, regime_index: 1, found_lo: 0, found_hi: 4 },
            BreakFrame { kind: BreakKind::Vol, index: 4, pre_start: 2, post_end: 6, regime_index: 2, found_lo: 0, found_hi: 8 },
            BreakFrame { kind: BreakKind::Vol, index: 6, pre_start: 4, post_end: 8, regime_index: 3, found_lo: 4, found_hi: 8 },
        ]
    );
}

#[test]
fn every_regime_holds_min_segment() {
    // Proposes the first of the changepoints 37 and 80 inside the segment.
    let changepoints = |lo: usize, hi: usize| {
        [37usize, 80].iter().find(|&&c| lo < c && c < hi).map(|&c| (c - lo, true))
    };
    let seg = segment_returns(120, 30, &changepoints);
    assert_eq!(seg.bounds, vec![0, 37, 80, 120]);
    let frames = regime_frames(BreakKind::Mean, &seg);
    assert_eq!(frames.len(), 2);
    for f in &frames {
        assert!(f.index - f.pre_start >= 30);
        assert!(f.post_end - f.index >= 30);
    }
    assert_eq!((frames[1].found_lo, frames[1].found_hi), (37, 120));
}

#[test]
fn merge_orders_by_index_then_kind() {
    let mean = vec![frame(BreakKind::Mean, 3), frame(BreakKind::Mean, 7)];
    let vol = vec![frame(BreakKind::Vol, 3), frame(BreakKind::Vol, 5)];
    let merged = merge_breaks(&mean, &vol);
    let order: Vec<(usize, BreakKind)> = merged.iter().map(|f| (f.index, f.kind)).collect();
    assert_eq!(
        order,
        vec![(3, BreakKind::Mean), (3, BreakKind::Vol), (5, BreakKind::Vol), (7, BreakKind::Mean)]
    );
}

#[test]
fn merge_with_one_side_empty_keeps_the_other() {
    let vol = vec![frame(BreakKind::Vol, 4), frame(BreakKind::Vol, 9)];
    assert_eq!(merge_breaks(&Vec::new(), &vol), vol);
    assert_eq!(merge_breaks(&vol, &Vec::new()), vol);
}

#[test]
fn break_is_located_one_close_later() {
    let ts: Vec<i64> = (0..10).map(|i| 1_000 * i).collect();
    let f = BreakFrame { kind: BreakKind::Mean, index: 4, pre_start: 0, post_end: 9, regime_index: 1, found_lo: 0, found_hi: 9 };
    assert_eq!(locate_break(&f, &ts), BreakLocation { close_index: 5, regime_index: 1, ts_ms: Some(5_000) });
    let last = BreakFrame { index: 9, regime_index: 2, ..f };
    assert_eq!(locate_break(&last, &ts), BreakLocation { close_index: 10, regime_index: 2, ts_ms: None });
}
