use miner_core::anom::underwater::{underwater_sweep, Episode};

fn keys(values: &[u64]) -> Vec<Option<u64>> {
    values.iter().map(|v| Some(*v)).collect()
}

fn episode(peak: usize, trough: usize, recovery: usize) -> Episode {
    Episode { peak, trough, recovery }
}

#[test]
fn sweep_v_shape() {
    let sweep = underwater_sweep(&keys(&[2, 1, 2]));
    assert_eq!(sweep.episodes, vec![episode(0, 1, 2)]);
    assert_eq!(sweep.underwater, vec![false, true, false]);
    assert_eq!(sweep.peaks, vec![0, 0, 0]);
}

#[test]
fn sweep_monotone_increasing_has_no_episode() {
    let sweep = underwater_sweep(&keys(&[0, 1, 2, 3, 4]));
    assert!(sweep.episodes.is_empty());
    assert_eq!(sweep.underwater, vec![false; 5]);
    assert_eq!(sweep.peaks, vec![0, 0, 1, 2, 3]);
}

#[test]
fn sweep_compound_v() {
    let sweep = underwater_sweep(&keys(&[10, 8, 5, 7, 10, 9, 11]));
    assert_eq!(sweep.episodes, vec![episode(0, 2, 4), episode(4, 5, 6)]);
    assert_eq!(sweep.underwater, vec![false, true, true, true, false, true, false]);
    assert_eq!(sweep.peaks, vec![0, 0, 0, 0, 0, 4, 4]);
}

#[test]
fn sweep_ends_underwater_reports_no_episode() {
    let sweep = underwater_sweep(&keys(&[5, 3, 1]));
    assert!(sweep.episodes.is_empty());
    assert_eq!(sweep.underwater, vec![false, true, true]);
}

#[test]
fn sweep_trough_is_first_lowest_bar() {
    let sweep = underwater_sweep(&keys(&[5, 2, 4, 2, 6]));
    assert_eq!(sweep.episodes, vec![episode(0, 1, 4)]);
}

#[test]
fn sweep_equal_value_recovers() {
    let sweep = underwater_sweep(&keys(&[3, 1, 3, 2, 3]));
    assert_eq!(sweep.episodes, vec![episode(0, 1, 2), episode(2, 3, 4)]);
}

#[test]
fn sweep_value_without_key_never_recovers() {
    let sweep = underwater_sweep(&[None, Some(1), Some(2)]);
    assert!(sweep.episodes.is_empty());
    assert_eq!(sweep.underwater, vec![true, true, true]);
    let later = underwater_sweep(&[Some(4), Some(1), None, Some(4)]);
    assert_eq!(later.episodes, vec![episode(0, 1, 3)]);
}

#[test]
fn sweep_episodes_are_well_shaped() {
    let mut s: u32 = 7;
    let values: Vec<u64> = (0..200)
        .map(|_| {
            s = s.wrapping_mul(1_664_525).wrapping_add(1_013_904_223);
            u64::from(s >> 24)
        })
        .collect();
    let sweep = underwater_sweep(&keys(&values));
    assert!(!sweep.episodes.is_empty());
    for (i, e) in sweep.episodes.iter().enumerate() {
        assert!(e.peak < e.trough && e.trough < e.recovery && e.recovery < values.len());
        assert!(values[e.recovery] >= values[e.peak]);
        for j in e.peak + 1..e.recovery {
            assert!(values[j] < values[e.peak]);
            assert!(values[j] >= values[e.trough]);
        }
        if i + 1 < sweep.episodes.len() {
            assert!(e.recovery <= sweep.episodes[i + 1].peak);
        }
    }
}

#[test]
fn running_peak_is_last_maximum_so_far() {
    let values = [3u64, 5, 5, 2, 7, 1];
    let sweep = underwater_sweep(&keys(&values));
    assert_eq!(sweep.peaks, vec![0, 0, 1, 2, 2, 4]);
}
