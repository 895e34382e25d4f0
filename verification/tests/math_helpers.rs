use fuzzy_logic_engine_rs::math_helpers::{is_silent, midpoint_sample, point_count};
use fuzzy_logic_engine_rs::scalar::Scalar;

fn s(x: f64) -> Scalar {
    Scalar::from_bits(x.to_bits()).unwrap()
}

fn f(x: Scalar) -> f64 {
    f64::from_bits(x.to_bits())
}

fn linspace(min: f64, max: f64, n: usize) -> Vec<f64> {
    let count = point_count(n);
    if count == 1 {
        return vec![min];
    }
    let step = (max - min) / (count as f64 - 1.0);
    (0..count).map(|i| min + step * i as f64).collect()
}

fn centroid(xs: &[f64], mus: &[f64]) -> f64 {
    let curve: Vec<Scalar> = mus.iter().map(|mu| s(*mu)).collect();
    if is_silent(&curve) {
        let points: Vec<Scalar> = xs.iter().map(|x| s(*x)).collect();
        return f(midpoint_sample(&points));
    }
    let mut num = 0.0;
    let mut den = 0.0;
    for (x, mu) in xs.iter().zip(mus.iter()) {
        num += x * mu;
        den += mu;
    }
    num / den
}

#[test]
fn test_linspace_generates_correct_number_of_points() {
    let xs = linspace(0.0, 10.0, 6);
    assert_eq!(xs.len(), 6);
    assert!((xs[0] - 0.0).abs() < 1e-6);
    assert!((xs[5] - 10.0).abs() < 1e-6);
}

#[test]
fn test_linspace_is_evenly_spaced() {
    let xs = linspace(0.0, 1.0, 5);
    let diffs: Vec<f64> = xs.windows(2).map(|w| w[1] - w[0]).collect();
    for d in diffs {
        assert!((d - 0.25).abs() < 1e-6);
    }
}

#[test]
fn test_linspace_with_one_point_returns_min() {
    let xs = linspace(5.0, 10.0, 1);
    assert_eq!(xs, vec![5.0]);
}

#[test]
fn test_centroid_of_symmetric_distribution_is_center() {
    let xs = vec![0.0, 1.0, 2.0, 3.0, 4.0];
    let mus = vec![0.0, 1.0, 2.0, 1.0, 0.0];
    let c = centroid(&xs, &mus);
    assert!((c - 2.0).abs() < 1e-6);
}

#[test]
fn test_centroid_with_uniform_distribution_is_average() {
    let xs = vec![0.0, 1.0, 2.0, 3.0];
    let mus = vec![1.0, 1.0, 1.0, 1.0];
    let c = centroid(&xs, &mus);
    assert!((c - 1.5).abs() < 1e-6);
}

#[test]
fn test_centroid_with_zero_membership_returns_midpoint() {
    let xs = vec![0.0, 1.0, 2.0, 3.0];
    let mus = vec![0.0, 0.0, 0.0, 0.0];
    let c = centroid(&xs, &mus);
    assert_eq!(c, 2.0);
}

#[test]
fn two_hundred_points_span_the_range() {
    let xs = linspace(0.0, 30.0, 200);
    assert_eq!(xs.len(), 200);
    assert_eq!(xs[0], 0.0);
    assert!((xs[199] - 30.0).abs() < 1e-9);
    assert_eq!(linspace(-3.0, 3.0, 0), vec![-3.0]);
}
