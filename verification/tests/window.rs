use side_channel::stats::sort_samples;
use side_channel::window::{RollingWindow, WINDOW_CAPACITY};

fn window_of(samples: &[u64]) -> RollingWindow {
    let mut window = RollingWindow::new();
    for &sample in samples {
        window.push(sample);
    }
    window
}

#[test]
fn empty_window_has_median_zero() {
    let window = RollingWindow::new();
    assert_eq!(window.len(), 0);
    assert_eq!(window.median(), 0);
    assert_eq!(window.sum(), 0);
    assert_eq!(window.snapshot(), Vec::<u64>::new());
}

#[test]
fn capacity_is_one_thousand() {
    assert_eq!(WINDOW_CAPACITY, 1000);
}

#[test]
fn push_keeps_arrival_order() {
    let window = window_of(&[7, 3, 9, 3]);
    assert_eq!(window.len(), 4);
    assert_eq!(window.snapshot(), vec![7, 3, 9, 3]);
}

#[test]
fn window_length_is_min_of_pushes_and_capacity() {
    let mut window = RollingWindow::new();
    for i in 0..2500u64 {
        window.push(i);
        let expected = std::cmp::min(i as usize + 1, 1000);
        assert_eq!(window.len(), expected);
    }
}

#[test]
fn window_eviction_after_1001_samples() {
    let mut window = RollingWindow::new();
    for i in 0..1001u64 {
        window.push(i + 10_000);
    }
    assert_eq!(window.len(), 1000);
    let held = window.snapshot();
    assert!(!held.contains(&10_000));
    assert_eq!(held[0], 10_001);
    assert_eq!(held[999], 11_000);
}

#[test]
fn full_window_holds_the_last_thousand_in_order() {
    let mut window = RollingWindow::new();
    for i in 0..1234u64 {
        window.push(i * 3);
    }
    let expected: Vec<u64> = (234..1234u64).map(|i| i * 3).collect();
    assert_eq!(window.snapshot(), expected);
}

#[test]
fn sum_is_exact() {
    let window = window_of(&[100, 200, 300]);
    assert_eq!(window.sum(), 600);
}

#[test]
fn sum_does_not_wrap() {
    let window = window_of(&[u64::MAX, u64::MAX, 2]);
    assert_eq!(window.sum(), 2 * (u64::MAX as u128) + 2);
}

#[test]
fn median_of_odd_length() {
    let window = window_of(&[9, 1, 5]);
    assert_eq!(window.median(), 5);
}

#[test]
fn median_of_even_length_is_upper_middle() {
    let window = window_of(&[4, 1, 3, 2]);
    assert_eq!(window.median(), 3);
}

#[test]
fn median_of_single_sample() {
    let window = window_of(&[42]);
    assert_eq!(window.median(), 42);
}

#[test]
fn median_with_ties() {
    let window = window_of(&[5, 5, 1, 5, 9, 1]);
    assert_eq!(window.median(), 5);
}

#[test]
fn median_leaves_window_unchanged() {
    let window = window_of(&[3, 1, 2]);
    let _ = window.median();
    assert_eq!(window.snapshot(), vec![3, 1, 2]);
}

#[test]
fn median_is_a_sample_and_mean_is_within_extremes() {
    let mut seed: u64 = 0x2545_f491_4f6c_dd1d;
    for round in 0..50usize {
        let mut window = RollingWindow::new();
        let count = 1 + (round * 37) % 1200;
        for _ in 0..count {
            seed ^= seed << 13;
            seed ^= seed >> 7;
            seed ^= seed << 17;
            window.push(seed % 1000);
        }
        let held = window.snapshot();
        let median = window.median();
        assert!(held.contains(&median));
        let low = *held.iter().min().unwrap() as u128;
        let high = *held.iter().max().unwrap() as u128;
        let n = held.len() as u128;
        let sum = window.sum();
        assert!(low * n <= sum && sum <= high * n);
        let mut sorted = held.clone();
        sorted.sort();
        assert_eq!(median, sorted[sorted.len() / 2]);
        assert_eq!(sum, held.iter().map(|&s| s as u128).sum::<u128>());
    }
}

#[test]
fn sort_samples_sorts_ascending() {
    let mut samples = vec![5, 3, 8, 1, 9, 2, 8, 0];
    sort_samples(&mut samples);
    assert_eq!(samples, vec![0, 1, 2, 3, 5, 8, 8, 9]);
}

#[test]
fn sort_samples_on_empty_and_single() {
    let mut none: Vec<u64> = vec![];
    sort_samples(&mut none);
    assert_eq!(none, Vec::<u64>::new());
    let mut one = vec![7];
    sort_samples(&mut one);
    assert_eq!(one, vec![7]);
}

#[test]
fn sort_samples_agrees_with_std() {
    let mut seed: u64 = 88172645463325252;
    for len in 0..60usize {
        let mut samples = Vec::new();
        for _ in 0..len {
            seed ^= seed << 13;
            seed ^= seed >> 7;
            seed ^= seed << 17;
            samples.push(seed % 50);
        }
        let mut expected = samples.clone();
        expected.sort();
        sort_samples(&mut samples);
        assert_eq!(samples, expected);
    }
}
