//! Numeric checks of the decomposition invariants, on a moving-average trend
//! and a period-averaged seasonality whose groups come from the library.

use rand::Rng;
use ts_decomposition::classical::{period_groups, spread_by_period};

fn max_abs_diff(a: &[f64], b: &[f64]) -> f64 {
    a.iter()
        .zip(b.iter())
        .map(|(x, y)| (x - y).abs())
        .fold(0.0f64, f64::max)
}

fn sub(a: &[f64], b: &[f64]) -> Vec<f64> {
    a.iter().zip(b.iter()).map(|(x, y)| x - y).collect()
}

fn add(a: &[f64], b: &[f64]) -> Vec<f64> {
    a.iter().zip(b.iter()).map(|(x, y)| x + y).collect()
}

fn l2_error(a: &[f64], b: &[f64]) -> f64 {
    let diff = sub(a, b);
    if diff.is_empty() {
        return 0.0;
    }
    (diff.iter().map(|x| x * x).sum::<f64>() / diff.len() as f64).sqrt()
}

/// Simple decomposition for testing: moving average trend + period-averaged seasonality.
fn decompose(series: &[f64], window: usize) -> (Vec<f64>, Vec<f64>, Vec<f64>) {
    let n = series.len();
    let half = window / 2;

    // Trend: centered moving average
    let trend: Vec<f64> = (0..n)
        .map(|i| {
            let start = i.saturating_sub(half);
            let end = (i + half + 1).min(n);
            series[start..end].iter().sum::<f64>() / (end - start) as f64
        })
        .collect();

    // Seasonality: period-averaged residuals
    let detrended = sub(series, &trend);
    let groups = period_groups(n, window);
    let averages: Vec<f64> = groups
        .iter()
        .map(|group| {
            let sum: f64 = group.iter().map(|&i| detrended[i]).sum();
            sum / group.len() as f64
        })
        .collect();
    let seasonality = spread_by_period(&averages, n, 0.0);

    let noise = sub(&sub(series, &trend), &seasonality);
    (trend, seasonality, noise)
}

#[test]
fn decomposition_identity() {
    let data = vec![
        1.0, 2.5, 1.8, 3.2, 2.1, 4.0, 3.5, 2.0, 1.5, 3.0, 2.8, 4.5, 3.2, 2.7, 1.9,
    ];
    let (trend, seasonality, noise) = decompose(&data, 5);
    let reconstructed = add(&add(&trend, &seasonality), &noise);

    assert!(
        max_abs_diff(&data, &reconstructed) < 1e-10,
        "Decomposition identity violated"
    );
}

#[test]
fn error_nonneg() {
    let a = vec![1.0, 2.0, 3.0, 4.0, 5.0];
    let b = vec![1.1, 1.9, 3.2, 3.8, 5.1];
    assert!(l2_error(&a, &b) >= 0.0);
}

#[test]
fn error_zero_when_identical() {
    let a = vec![1.0, 2.0, 3.0];
    assert!(l2_error(&a, &a) < 1e-15);
}

#[test]
fn residual_consistency() {
    let original = vec![10.0, 20.0, 30.0, 40.0, 50.0];
    let approx = vec![9.5, 20.5, 29.0, 41.0, 49.0];
    let residual = sub(&original, &approx);
    let expected = vec![0.5, -0.5, 1.0, -1.0, 1.0];

    assert!(
        max_abs_diff(&residual, &expected) < 1e-15,
        "Residual consistency violated"
    );
}

#[test]
fn small_case_decomposition() {
    let data: Vec<f64> = (0..10).map(|i| i as f64).collect();
    let (trend, seasonality, noise) = decompose(&data, 3);
    let reconstructed = add(&add(&trend, &seasonality), &noise);

    assert!(
        max_abs_diff(&data, &reconstructed) < 1e-10,
        "Small case decomposition identity violated"
    );
}

#[test]
fn structured_preservation() {
    let n = 100;
    let period = 7;
    let data: Vec<f64> = (0..n)
        .map(|i| (2.0 * std::f64::consts::PI * i as f64 / period as f64).sin())
        .collect();
    let (_trend, _seasonality, noise) = decompose(&data, period);

    let noise_energy: f64 = noise.iter().map(|x| x * x).sum();
    let signal_energy: f64 = data.iter().map(|x| x * x).sum();
    let ratio = noise_energy / signal_energy;

    assert!(
        ratio < 0.05,
        "Structured input noise ratio too high: {ratio:.4}"
    );
}

#[test]
fn synthetic_reconstruction_identity() {
    let mut rng = rand::thread_rng();
    let n = 365;
    let data: Vec<f64> = (0..n)
        .map(|i| {
            0.1 * i as f64
                + (2.0 * std::f64::consts::PI * i as f64 / 7.0).sin()
                + rng.gen_range(-0.5..0.5)
        })
        .collect();
    let (trend, seasonality, noise) = decompose(&data, 7);
    let reconstructed = add(&add(&trend, &seasonality), &noise);

    assert!(
        max_abs_diff(&data, &reconstructed) < 1e-10,
        "Synthetic reconstruction identity violated"
    );
}
