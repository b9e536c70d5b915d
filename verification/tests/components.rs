//! Component-level checks: statistics, standardization, the forward pass,
//! the loss and the gradients, on exact fixed-point values.

use linreg::error::RegressionError;
use linreg::fixed::SCALE;
use linreg::linear_regression::LinearRegression;

fn sample_matrix() -> Vec<Vec<i64>> {
    vec![vec![1 * SCALE], vec![2 * SCALE], vec![3 * SCALE], vec![4 * SCALE]]
}

#[test]
fn means_of_single_column() {
    let ms = LinearRegression::means(&sample_matrix()).unwrap();
    assert_eq!(ms, vec![2_500_000]);
}

#[test]
fn means_rejects_empty_matrix() {
    let empty: Vec<Vec<i64>> = vec![];
    assert_eq!(LinearRegression::means(&empty), Err(RegressionError::EmptyInput));
}

#[test]
fn means_rejects_ragged_matrix() {
    let ragged = vec![vec![1 * SCALE], vec![2 * SCALE, 3 * SCALE]];
    assert_eq!(LinearRegression::means(&ragged), Err(RegressionError::ShapeMismatch));
}

#[test]
fn standard_deviation_of_single_column() {
    let f = sample_matrix();
    let ms = LinearRegression::means(&f).unwrap();
    let sds = LinearRegression::standard_deviation(&f, &ms).unwrap();
    // variance is exactly 1.25; sqrt(1.25) = 1.118033988..., truncated.
    assert_eq!(sds, vec![1_118_033]);
}

#[test]
fn standard_deviation_rejects_empty_matrix() {
    let empty: Vec<Vec<i64>> = vec![];
    let ms = vec![0i64];
    assert_eq!(
        LinearRegression::standard_deviation(&empty, &ms),
        Err(RegressionError::EmptyInput)
    );
}

#[test]
fn normalize_exact_values() {
    let f = sample_matrix();
    let ms = LinearRegression::means(&f).unwrap();
    let sds = LinearRegression::standard_deviation(&f, &ms).unwrap();
    let nf = LinearRegression::normalize(&f, &ms, &sds).unwrap();
    assert_eq!(
        nf,
        vec![vec![-1_341_641], vec![-447_213], vec![447_213], vec![1_341_641]]
    );
}

#[test]
fn normalize_rejects_width_mismatch() {
    let f = vec![vec![1 * SCALE, 2 * SCALE]];
    let ms = vec![0i64];
    let sds = vec![1 * SCALE];
    assert_eq!(
        LinearRegression::normalize(&f, &ms, &sds),
        Err(RegressionError::ShapeMismatch)
    );
}

#[test]
fn normalized_matrix_has_zero_mean_and_unit_deviation() {
    // The standardized matrix, measured with the same statistics helpers,
    // shows mean ~0 and population standard deviation ~1 per column.
    let f = sample_matrix();
    let ms = LinearRegression::means(&f).unwrap();
    let sds = LinearRegression::standard_deviation(&f, &ms).unwrap();
    let nf = LinearRegression::normalize(&f, &ms, &sds).unwrap();
    let nms = LinearRegression::means(&nf).unwrap();
    let nsds = LinearRegression::standard_deviation(&nf, &nms).unwrap();
    assert!(nms[0].abs() <= 10, "column mean {} not near 0", nms[0]);
    assert!((nsds[0] - SCALE).abs() <= 10, "column std {} not near 1", nsds[0]);
}

#[test]
fn predictions_exact_dot_product_plus_bias() {
    let f = vec![vec![4 * SCALE], vec![-1 * SCALE]];
    let w = vec![3 * SCALE];
    let b = 2 * SCALE;
    let p = LinearRegression::compute_predictions(&f, &w, b).unwrap();
    assert_eq!(p, vec![14 * SCALE, -1 * SCALE]);
}

#[test]
fn predictions_scale_linearly_with_weights_and_bias() {
    // Doubling all weights and the bias doubles every prediction.
    let f = vec![vec![4 * SCALE, 500_000], vec![2 * SCALE, -3 * SCALE]];
    let w = vec![3 * SCALE, 1 * SCALE];
    let b = 2 * SCALE;
    let p1 = LinearRegression::compute_predictions(&f, &w, b).unwrap();
    let w2: Vec<i64> = w.iter().map(|x| 2 * x).collect();
    let p2 = LinearRegression::compute_predictions(&f, &w2, 2 * b).unwrap();
    for (a, d) in p1.iter().zip(p2.iter()) {
        assert_eq!(2 * a, *d);
    }
}

#[test]
fn predictions_reject_empty_matrix() {
    let empty: Vec<Vec<i64>> = vec![];
    let w = vec![1 * SCALE];
    assert_eq!(
        LinearRegression::compute_predictions(&empty, &w, 0),
        Err(RegressionError::EmptyInput)
    );
}

#[test]
fn predictions_reject_width_mismatch() {
    let f = vec![vec![1 * SCALE, 2 * SCALE]];
    let w = vec![1 * SCALE];
    assert_eq!(
        LinearRegression::compute_predictions(&f, &w, 0),
        Err(RegressionError::ShapeMismatch)
    );
}

#[test]
fn mse_exact_value() {
    let a = vec![2 * SCALE, 5 * SCALE];
    let p = vec![3 * SCALE, 1 * SCALE];
    // differences -1 and 4, squares 1 and 16, mean 8.5
    assert_eq!(LinearRegression::mean_squared_error(&a, &p), Ok(8_500_000));
}

#[test]
fn mse_symmetric_in_magnitude() {
    let a = vec![2 * SCALE, 5 * SCALE, -7 * SCALE];
    let p = vec![3 * SCALE, 1 * SCALE, 250_000];
    let one = LinearRegression::mean_squared_error(&a, &p).unwrap();
    let other = LinearRegression::mean_squared_error(&p, &a).unwrap();
    assert_eq!(one, other);
}

#[test]
fn mse_zero_when_equal() {
    let a = vec![2 * SCALE, -5 * SCALE, 123_456];
    assert_eq!(LinearRegression::mean_squared_error(&a, &a), Ok(0));
}

#[test]
fn mse_rejects_length_mismatch() {
    let a = vec![1 * SCALE];
    let p = vec![1 * SCALE, 2 * SCALE];
    assert_eq!(
        LinearRegression::mean_squared_error(&a, &p),
        Err(RegressionError::ShapeMismatch)
    );
}

#[test]
fn mse_rejects_empty_vectors() {
    let a: Vec<i64> = vec![];
    let p: Vec<i64> = vec![];
    assert_eq!(
        LinearRegression::mean_squared_error(&a, &p),
        Err(RegressionError::EmptyInput)
    );
}

#[test]
fn mse_saturates_at_the_fixed_point_limit() {
    // The clip range is symmetric, so the largest representable squared
    // error is exactly the fixed-point maximum.
    let a = vec![i64::MAX];
    let p = vec![-i64::MAX];
    assert_eq!(LinearRegression::mean_squared_error(&a, &p), Ok(i64::MAX));
}

#[test]
fn gradients_zero_at_stationary_point() {
    let f = vec![vec![1 * SCALE], vec![2 * SCALE]];
    let labels = vec![3 * SCALE, 4 * SCALE];
    let g = LinearRegression::compute_gradients(&f, &labels, &labels).unwrap();
    assert_eq!(g, (vec![0], 0));
}

#[test]
fn gradients_exact_values() {
    // One sample, one feature: error = 2, bias gradient = -2 * 2 = -4,
    // weight gradient = -2 * (1 * 2) = -4.
    let f = vec![vec![1 * SCALE]];
    let actual = vec![3 * SCALE];
    let predicted = vec![1 * SCALE];
    let g = LinearRegression::compute_gradients(&f, &actual, &predicted).unwrap();
    assert_eq!(g, (vec![-4 * SCALE], -4 * SCALE));
}

#[test]
fn gradients_reject_sample_count_mismatch() {
    let f = vec![vec![1 * SCALE]];
    let actual = vec![1 * SCALE, 2 * SCALE];
    let predicted = vec![1 * SCALE, 2 * SCALE];
    assert_eq!(
        LinearRegression::compute_gradients(&f, &actual, &predicted),
        Err(RegressionError::ShapeMismatch)
    );
}

#[test]
fn gradients_reject_empty_input() {
    let f: Vec<Vec<i64>> = vec![];
    let actual: Vec<i64> = vec![];
    let predicted: Vec<i64> = vec![];
    assert_eq!(
        LinearRegression::compute_gradients(&f, &actual, &predicted),
        Err(RegressionError::EmptyInput)
    );
}

#[test]
fn initial_weights_are_small_and_bias_zero() {
    let (w, b) = LinearRegression::initialize_weights(100);
    assert_eq!(w.len(), 100);
    assert_eq!(b, 0);
    for x in w {
        assert!(-10_000 <= x && x < 10_000);
    }
}

#[test]
fn error_descriptions_name_the_check() {
    assert!(RegressionError::EmptyInput.describe().contains("empty"));
    assert!(RegressionError::ShapeMismatch.describe().contains("shape"));
}
