//! End-to-end checks of the regression engine: fit, train, predict, and the
//! train/test splitter.

use linreg::error::RegressionError;
use linreg::fixed::SCALE;
use linreg::linear_regression::LinearRegression;
use linreg::split::train_test_split;

#[test]
fn fit_rejects_empty_matrix() {
    let f: Vec<Vec<i64>> = vec![];
    let labels: Vec<i64> = vec![];
    assert!(matches!(
        LinearRegression::fit(f, labels),
        Err(RegressionError::EmptyInput)
    ));
}

#[test]
fn fit_rejects_empty_rows() {
    let f: Vec<Vec<i64>> = vec![vec![]];
    let labels: Vec<i64> = vec![1 * SCALE];
    assert!(matches!(
        LinearRegression::fit(f, labels),
        Err(RegressionError::EmptyInput)
    ));
}

#[test]
fn fit_rejects_label_count_mismatch() {
    // Three labels against two samples must fail, never silently truncate.
    let f = vec![vec![1 * SCALE, 2 * SCALE], vec![3 * SCALE, 4 * SCALE]];
    let labels = vec![1 * SCALE, 2 * SCALE, 3 * SCALE];
    assert!(matches!(
        LinearRegression::fit(f, labels),
        Err(RegressionError::ShapeMismatch)
    ));
}

#[test]
fn fit_rejects_ragged_matrix() {
    let f = vec![vec![1 * SCALE], vec![2 * SCALE, 3 * SCALE]];
    let labels = vec![1 * SCALE, 2 * SCALE];
    assert!(matches!(
        LinearRegression::fit(f, labels),
        Err(RegressionError::ShapeMismatch)
    ));
}

#[test]
fn train_zero_epochs_is_a_no_op() {
    let f = vec![vec![1 * SCALE], vec![2 * SCALE], vec![3 * SCALE], vec![4 * SCALE]];
    let labels = vec![2 * SCALE, 4 * SCALE, 6 * SCALE, 8 * SCALE];
    let mut lr = LinearRegression::fit(f, labels).unwrap();
    let weights_before = lr.weights().clone();
    let bias_before = lr.bias();
    let losses = lr.train(0, 7 * SCALE);
    assert!(losses.is_empty());
    assert_eq!(lr.weights(), &weights_before);
    assert_eq!(lr.bias(), bias_before);
}

#[test]
fn training_reduces_loss_and_predicts_the_line() {
    // Exact line y = 2x: after 500 epochs at rate 0.1 the loss must be
    // strictly lower than right after fitting, and predict(5) close to 10.
    let f = vec![vec![1 * SCALE], vec![2 * SCALE], vec![3 * SCALE], vec![4 * SCALE]];
    let labels = vec![2 * SCALE, 4 * SCALE, 6 * SCALE, 8 * SCALE];
    let mut lr = LinearRegression::fit(f.clone(), labels.clone()).unwrap();
    let losses = lr.train(500, 100_000);
    assert_eq!(losses.len(), 500);
    let preds = lr.predict(f).unwrap();
    let final_loss = LinearRegression::mean_squared_error(&labels, &preds).unwrap();
    assert!(
        final_loss < losses[0],
        "loss did not drop: {} -> {}",
        losses[0],
        final_loss
    );
    let at_five = lr.predict(vec![vec![5 * SCALE]]).unwrap();
    let err = (at_five[0] - 10 * SCALE).abs();
    assert!(err <= SCALE / 2, "predict(5) = {} too far from 10", at_five[0]);
}

#[test]
fn single_sample_single_feature_does_not_error() {
    // One data point has population standard deviation zero; the
    // degenerate column passes through as plain deviations.
    let mut lr = LinearRegression::fit(vec![vec![5 * SCALE]], vec![10 * SCALE]).unwrap();
    let p = lr.predict(vec![vec![5 * SCALE]]).unwrap();
    assert_eq!(p.len(), 1);
    // The standardized entry is exactly zero, so the prediction is the
    // (still untrained) bias: exactly zero.
    assert_eq!(p, vec![0]);
}

#[test]
fn predict_rejects_width_mismatch() {
    let mut lr = LinearRegression::fit(vec![vec![5 * SCALE]], vec![10 * SCALE]).unwrap();
    assert!(matches!(
        lr.predict(vec![vec![1 * SCALE, 2 * SCALE]]),
        Err(RegressionError::ShapeMismatch)
    ));
}

#[test]
fn predict_rejects_empty_matrix() {
    let mut lr = LinearRegression::fit(vec![vec![5 * SCALE]], vec![10 * SCALE]).unwrap();
    assert!(matches!(
        lr.predict(vec![]),
        Err(RegressionError::EmptyInput)
    ));
}

#[test]
fn split_is_deterministic_and_ordered() {
    let x: Vec<Vec<i64>> = (1..=5).map(|i| vec![i * SCALE]).collect();
    let y: Vec<i64> = (1..=5).map(|i| 10 * i * SCALE).collect();
    let (x_train, x_test, y_train, y_test) = train_test_split(x, y, 200_000).unwrap();
    assert_eq!(x_train, (1..=4).map(|i| vec![i * SCALE]).collect::<Vec<_>>());
    assert_eq!(x_test, vec![vec![5 * SCALE]]);
    assert_eq!(y_train, (1..=4).map(|i| 10 * i * SCALE).collect::<Vec<_>>());
    assert_eq!(y_test, vec![50 * SCALE]);
}

#[test]
fn split_rounds_the_training_size() {
    // (1 - 0.5) * 3 = 1.5 rounds half up to 2 training samples.
    let x: Vec<Vec<i64>> = (1..=3).map(|i| vec![i * SCALE]).collect();
    let y: Vec<i64> = (1..=3).map(|i| i * SCALE).collect();
    let (x_train, x_test, _, _) = train_test_split(x, y, 500_000).unwrap();
    assert_eq!(x_train.len(), 2);
    assert_eq!(x_test.len(), 1);
}

#[test]
fn split_with_zero_fraction_keeps_everything_in_training() {
    let x: Vec<Vec<i64>> = (1..=3).map(|i| vec![i * SCALE]).collect();
    let y: Vec<i64> = (1..=3).map(|i| i * SCALE).collect();
    let (x_train, x_test, y_train, y_test) = train_test_split(x, y, 0).unwrap();
    assert_eq!(x_train.len(), 3);
    assert_eq!(y_train.len(), 3);
    assert!(x_test.is_empty());
    assert!(y_test.is_empty());
}

#[test]
fn split_rejects_length_mismatch() {
    let x = vec![vec![1 * SCALE]];
    let y = vec![1 * SCALE, 2 * SCALE];
    assert!(matches!(
        train_test_split(x, y, 200_000),
        Err(RegressionError::ShapeMismatch)
    ));
}

#[test]
fn first_reported_loss_matches_the_loss_after_fit() {
    let f = vec![vec![1 * SCALE], vec![2 * SCALE], vec![3 * SCALE], vec![4 * SCALE]];
    let labels = vec![2 * SCALE, 4 * SCALE, 6 * SCALE, 8 * SCALE];
    let mut lr = LinearRegression::fit(f.clone(), labels.clone()).unwrap();
    // predict on the training features standardizes them with the frozen
    // statistics, so this is exactly the loss train reports first.
    let preds = lr.predict(f).unwrap();
    let loss_after_fit = LinearRegression::mean_squared_error(&labels, &preds).unwrap();
    let losses = lr.train(1, 100_000);
    assert_eq!(losses[0], loss_after_fit);
}
