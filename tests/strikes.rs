use std::ops::Range;

use rgmii_delay::sample::{combine, Sample};
use rgmii_delay::strike::{find_strikes, pick_in_range, select_best};

/// Error rates in percent, NaN for a missing sample.
fn samples(values: &[f32]) -> Vec<Sample> {
    values
        .iter()
        .map(|v| if v.is_nan() { Sample::Missing } else { Sample::Rate((v * 10000.0).round() as u64) })
        .collect()
}

#[test]
fn test_find_strikes() {
    let array = samples(&[f32::NAN, 1.89, 1.78, 1.88, 1.87, 1.99, 1.91, f32::NAN]);
    assert_eq!(find_strikes(&array), vec![(1..6)]);

    let array = samples(&[f32::NAN, 1.89, 1.78, 1.88, f32::NAN, 1.87, 1.99, 1.91, f32::NAN]);
    assert_eq!(find_strikes(&array), vec![(1..3), (5..7)]);

    let array = samples(&[1.89, 1.78, 1.88, f32::NAN, 1.87, 1.99, 1.91]);
    assert_eq!(find_strikes(&array), vec![(0..2), (4..6)]);

    let array = samples(&[f32::NAN, 1.87, 1.99, 1.91]);
    assert_eq!(find_strikes(&array), vec![(1..3)]);

    let array = samples(&[1.89, 1.78, 1.88, f32::NAN]);
    assert_eq!(find_strikes(&array), vec![(0..2)]);

    let array = samples(&[f32::NAN, 1.89, 1.78, f32::NAN, 1.88, 1.87, f32::NAN, 1.99, 1.91, f32::NAN]);
    assert_eq!(find_strikes(&array), vec![(1..2), (4..5), (7..8)]);

    let array = samples(&[f32::NAN]);
    assert_eq!(find_strikes(&array), Vec::new());
}

#[test]
fn all_missing_gives_no_range() {
    for n in 0..20 {
        let array = vec![Sample::Missing; n];
        assert_eq!(find_strikes(&array), Vec::<Range<usize>>::new());
    }
}

#[test]
fn none_missing_gives_one_range() {
    for n in 1..20 {
        let array: Vec<Sample> = (0..n).map(|i| Sample::Rate(i as u64)).collect();
        assert_eq!(find_strikes(&array), vec![(0..n - 1)]);
    }
}

#[test]
fn single_index_range_and_collapsed_gaps() {
    let array = samples(&[f32::NAN, f32::NAN, 0.5, f32::NAN, f32::NAN, f32::NAN, 0.7]);
    assert_eq!(find_strikes(&array), vec![(2..2), (6..6)]);
}

#[test]
fn midpoint_selects_lower_score() {
    let scores = samples(&[f32::NAN, 1.89, 1.78, 1.88, 1.87, 1.99, 1.91, f32::NAN]);
    let strikes = find_strikes(&scores);
    // The midpoint of 1..=6 is 3.5: index 3 (1.88) against index 4 (1.87).
    assert_eq!(pick_in_range(&scores, &strikes[0]), 4);
    assert_eq!(select_best(&scores, &strikes), Some(4));
}

#[test]
fn midpoint_tie_takes_ceiling() {
    let scores = samples(&[1.0, 2.0, 2.0, 1.0]);
    assert_eq!(pick_in_range(&scores, &(0..3)), 2);
    let scores = samples(&[1.0, 2.5, 2.0, 1.0]);
    assert_eq!(pick_in_range(&scores, &(0..3)), 2);
    let scores = samples(&[1.0, 1.5, 2.0, 1.0]);
    assert_eq!(pick_in_range(&scores, &(0..3)), 1);
    let scores = samples(&[1.0, 1.5, 2.0]);
    assert_eq!(pick_in_range(&scores, &(0..2)), 1);
}

#[test]
fn best_range_wins_and_later_range_breaks_ties() {
    let scores = samples(&[1.0, 3.0, 1.0, f32::NAN, 2.0, f32::NAN, 0.5]);
    let strikes = find_strikes(&scores);
    assert_eq!(strikes, vec![(0..2), (4..4), (6..6)]);
    assert_eq!(select_best(&scores, &strikes), Some(6));

    let scores = samples(&[2.0, f32::NAN, 2.0, f32::NAN, 3.0]);
    let strikes = find_strikes(&scores);
    assert_eq!(select_best(&scores, &strikes), Some(2));
}

#[test]
fn no_range_no_choice() {
    let scores = samples(&[f32::NAN, f32::NAN]);
    assert_eq!(select_best(&scores, &find_strikes(&scores)), None);
}

#[test]
fn combine_cancels_order() {
    let forward = samples(&[1.0, f32::NAN, 2.0]);
    // The reverse pass as measured; aligned it reads [0.5, 1.0, NaN].
    let reverse = samples(&[f32::NAN, 1.0, 0.5]);
    assert_eq!(combine(&forward, &reverse), samples(&[1.5, f32::NAN, f32::NAN]));
}

#[test]
fn combine_saturates() {
    let forward = vec![Sample::Rate(u64::MAX)];
    let reverse = vec![Sample::Rate(3)];
    assert_eq!(combine(&forward, &reverse), vec![Sample::Rate(u64::MAX)]);
}

#[test]
fn missing_candidate_never_selected() {
    let n = 15;
    let hole = 7;
    let mut forward: Vec<Sample> = (0..n).map(|i| Sample::Rate(100 + ((i as u64) * 37) % 11)).collect();
    let mut reverse: Vec<Sample> = (0..n).map(|i| Sample::Rate(90 + ((i as u64) * 13) % 7)).collect();
    forward[hole] = Sample::Missing;
    reverse[n - 1 - hole] = Sample::Missing;
    let scores = combine(&forward, &reverse);
    assert_eq!(scores[hole], Sample::Missing);
    let strikes = find_strikes(&scores);
    assert_eq!(strikes, vec![(0..hole - 1), (hole + 1..n - 1)]);
    for s in &strikes {
        assert!(!(s.start <= hole && hole <= s.end));
    }
    let best = select_best(&scores, &strikes).unwrap();
    assert_ne!(best, hole);
}
