//! The regression engine: fit, train, predict, and the numeric helpers they
//! are built from, all over fixed-point scalars.

use vstd::prelude::*;
use crate::error::RegressionError;
use crate::fixed::{fx_add, fx_div, fx_div_n, fx_mul, fx_scale_neg2_div_n, fx_sqrt, fx_sub, SCALE};
use crate::math::{
    bias_grad_s, col_seq, lemma_sq_term_nonneg, mean_s,
    means_s, mse_s, norm_entry_s, norm_row_s, normalize_s, pred_row_s, preds_s, rect, run_s,
    std_val_s, stds_s, to_ints, to_mat, variance_s, weight_grad_s, loss_at_s, dot_s, fx_sum,
};
use crate::rng::random_in_range;
use vstd::pervasive::unreached;

verus! {

/// Magnitude bound of the random initial weights: 0.01 in fixed point.
pub const INIT_WEIGHT_BOUND: i64 = 10_000;

/// A linear model fitted to a training set: the standardized training data,
/// its labels, the current weights and bias, and the standardization
/// statistics frozen at fit time.
pub struct LinearRegression {
    features: Vec<Vec<i64>>,
    labels: Vec<i64>,
    weights: Vec<i64>,
    bias: i64,
    means: Vec<i64>,
    standard_deviations: Vec<i64>,
}

impl LinearRegression {
    /// The stored (standardized) training matrix, as integers.
    pub closed spec fn f_mat(self) -> Seq<Seq<int>> {
        to_mat(self.features@)
    }

    /// The stored label vector, as integers.
    pub closed spec fn labels_ints(self) -> Seq<int> {
        to_ints(self.labels@)
    }

    /// The current weight vector, as integers.
    pub closed spec fn weights_ints(self) -> Seq<int> {
        to_ints(self.weights@)
    }

    /// The current bias, as an integer.
    pub closed spec fn bias_int(self) -> int {
        self.bias as int
    }

    /// The per-column means frozen at fit time, as integers.
    pub closed spec fn means_ints(self) -> Seq<int> {
        to_ints(self.means@)
    }

    /// The per-column standard deviations frozen at fit time, as integers.
    pub closed spec fn stds_ints(self) -> Seq<int> {
        to_ints(self.standard_deviations@)
    }

    /// Number of features per sample.
    pub open spec fn width(self) -> int {
        self.weights_ints().len() as int
    }

    /// Number of training samples.
    pub open spec fn nsamples(self) -> int {
        self.f_mat().len() as int
    }

    /// The engine's internal invariant: a non-empty rectangular training
    /// matrix whose width all vectors share, and nonnegative standard
    /// deviations.
    pub open spec fn wf(self) -> bool {
        &&& self.nsamples() >= 1
        &&& self.width() >= 1
        &&& rect(self.f_mat(), self.width())
        &&& self.labels_ints().len() == self.nsamples()
        &&& self.means_ints().len() == self.width()
        &&& self.stds_ints().len() == self.width()
        &&& forall|j: int| 0 <= j < self.width() ==> self.stds_ints()[j] >= 0
    }

    /// The current weight vector.
    pub fn weights(&self) -> (r: &Vec<i64>)
        ensures
            to_ints(r@) == self.weights_ints(),
    {
        &self.weights
    }

    /// The current bias.
    pub fn bias(&self) -> (r: i64)
        ensures
            r as int == self.bias_int(),
    {
        self.bias
    }

    /// Draw `m` initial weights uniformly from the small symmetric interval
    /// around zero, and start the bias at exactly zero.
    pub fn initialize_weights(m: usize) -> (r: (Vec<i64>, i64))
        ensures
            r.0@.len() == m,
            forall|j: int|
                0 <= j < m ==> -INIT_WEIGHT_BOUND <= #[trigger] r.0@[j] < INIT_WEIGHT_BOUND,
            r.1 == 0,
    {
        let mut random_weights: Vec<i64> = Vec::new();
        let mut i: usize = 0;
        while i < m
            invariant
                i <= m,
                random_weights@.len() == i,
                forall|j: int|
                    0 <= j < i ==> -INIT_WEIGHT_BOUND <= #[trigger] random_weights@[j]
                        < INIT_WEIGHT_BOUND,
            decreases m - i,
        {
            let w = random_in_range(-INIT_WEIGHT_BOUND, INIT_WEIGHT_BOUND);
            random_weights.push(w);
            i += 1;
        }
        (random_weights, 0)
    }

    /// Per-column arithmetic means of a feature matrix.
    pub fn means(features: &Vec<Vec<i64>>) -> (r: Result<Vec<i64>, RegressionError>)
        ensures
            r is Err <==> (features@.len() == 0 || !rect(
                to_mat(features@),
                features@[0]@.len() as int,
            )),
            match r {
                Ok(ms) => {
                    &&& ms@.len() == features@[0]@.len()
                    &&& to_ints(ms@) == means_s(to_mat(features@), features@[0]@.len() as int)
                },
                Err(e) => {
                    &&& (e is EmptyInput <==> features@.len() == 0)
                    &&& (e is ShapeMismatch <==> (features@.len() > 0 && !rect(
                        to_mat(features@),
                        features@[0]@.len() as int,
                    )))
                },
            },
    {
        let ghost mat = to_mat(features@);
        let n = features.len();
        if n == 0 {
            return Err(RegressionError::EmptyInput);
        }
        let m = features[0].len();
        if !rect_check(features, m) {
            return Err(RegressionError::ShapeMismatch);
        }
        let mut ms: Vec<i64> = Vec::new();
        let mut j: usize = 0;
        while j < m
            invariant
                j <= m,
                n == features@.len(),
                n > 0,
                m == features@[0]@.len(),
                mat == to_mat(features@),
                rect(mat, m as int),
                ms@.len() == j,
                forall|t: int| 0 <= t < j ==> #[trigger] ms@[t] as int == mean_s(mat, t),
            decreases m - j,
        {
            let mut sum: i64 = 0;
            let mut i: usize = 0;
            while i < n
                invariant
                    i <= n,
                    j < m,
                    n == features@.len(),
                    n > 0,
                    m == features@[0]@.len(),
                    mat == to_mat(features@),
                    rect(mat, m as int),
                    sum as int == fx_sum(Seq::new(i as nat, |t: int| mat[t][j as int])),
                decreases n - i,
            {
                proof {
                    let prefix = Seq::new(i as nat, |t: int| mat[t][j as int]);
                    let next = Seq::new((i + 1) as nat, |t: int| mat[t][j as int]);
                    assert(next.drop_last() =~= prefix);
                    assert(mat[i as int] == to_ints(features@[i as int]@));
                    assert(mat[i as int].len() == m);
                }
                sum = fx_add(sum, features[i][j]);
                i += 1;
            }
            proof {
                assert(Seq::new(n as nat, |t: int| mat[t][j as int]) =~= col_seq(mat, j as int));
            }
            let mean = fx_div_n(sum, n);
            ms.push(mean);
            j += 1;
        }
        proof {
            assert(to_ints(ms@) =~= means_s(mat, m as int));
        }
        Ok(ms)
    }
    /// Per-column population standard deviations of a feature matrix around
    /// the given means.
    pub fn standard_deviation(features: &Vec<Vec<i64>>, means: &Vec<i64>) -> (r: Result<
        Vec<i64>,
        RegressionError,
    >)
        ensures
            r is Err <==> (features@.len() == 0 || !rect(to_mat(features@), means@.len() as int)),
            match r {
                Ok(sds) => {
                    &&& sds@.len() == means@.len()
                    &&& to_ints(sds@) == stds_s(
                        to_mat(features@),
                        to_ints(means@),
                        means@.len() as int,
                    )
                    &&& forall|j: int| 0 <= j < sds@.len() ==> #[trigger] sds@[j] >= 0
                },
                Err(e) => {
                    &&& (e is EmptyInput <==> features@.len() == 0)
                    &&& (e is ShapeMismatch <==> (features@.len() > 0 && !rect(
                        to_mat(features@),
                        means@.len() as int,
                    )))
                },
            },
    {
        let ghost mat = to_mat(features@);
        let ghost ms = to_ints(means@);
        let n = features.len();
        if n == 0 {
            return Err(RegressionError::EmptyInput);
        }
        let m = means.len();
        if !rect_check(features, m) {
            return Err(RegressionError::ShapeMismatch);
        }
        let mut sds: Vec<i64> = Vec::new();
        let mut j: usize = 0;
        while j < m
            invariant
                j <= m,
                n == features@.len(),
                n > 0,
                m == means@.len(),
                mat == to_mat(features@),
                ms == to_ints(means@),
                rect(mat, m as int),
                sds@.len() == j,
                forall|t: int|
                    0 <= t < j ==> #[trigger] sds@[t] as int == std_val_s(mat, ms, t) && sds@[t]
                        >= 0,
            decreases m - j,
        {
            let ghost terms = Seq::new(
                n as nat,
                |t: int| crate::fixed::fx_mul_s(
                    crate::fixed::fx_sub_s(mat[t][j as int], ms[j as int]),
                    crate::fixed::fx_sub_s(mat[t][j as int], ms[j as int]),
                ),
            );
            let mut sumsq: i64 = 0;
            let mut i: usize = 0;
            while i < n
                invariant
                    i <= n,
                    j < m,
                    n == features@.len(),
                    n > 0,
                    m == means@.len(),
                    mat == to_mat(features@),
                    ms == to_ints(means@),
                    rect(mat, m as int),
                    terms == Seq::new(
                        n as nat,
                        |t: int| crate::fixed::fx_mul_s(
                            crate::fixed::fx_sub_s(mat[t][j as int], ms[j as int]),
                            crate::fixed::fx_sub_s(mat[t][j as int], ms[j as int]),
                        ),
                    ),
                    sumsq as int == fx_sum(terms.take(i as int)),
                    sumsq >= 0,
                decreases n - i,
            {
                proof {
                    assert(terms.take(i as int + 1).drop_last() =~= terms.take(i as int));
                    assert(mat[i as int] == to_ints(features@[i as int]@));
                    assert(mat[i as int].len() == m);
                    lemma_sq_term_nonneg(mat[i as int][j as int], ms[j as int]);
                }
                let d = fx_sub(features[i][j], means[j]);
                let sq = fx_mul(d, d);
                sumsq = fx_add(sumsq, sq);
                i += 1;
            }
            proof {
                assert(terms.take(n as int) =~= terms);
                vstd::arithmetic::div_mod::lemma_div_pos_is_pos(sumsq as int, n as int);
            }
            let var = fx_div_n(sumsq, n);
            proof {
                assert(var as int == variance_s(mat, ms, j as int));
            }
            let sd = fx_sqrt(var);
            sds.push(sd);
            j += 1;
        }
        proof {
            assert(to_ints(sds@) =~= stds_s(mat, ms, m as int));
        }
        Ok(sds)
    }

    /// Standardize a feature matrix with the given means and standard
    /// deviations: each entry becomes `(raw - mean) / std`, a degenerate
    /// (zero) standard deviation acting as one whole unit.
    pub fn normalize(
        features: &Vec<Vec<i64>>,
        means: &Vec<i64>,
        standard_deviations: &Vec<i64>,
    ) -> (r: Result<Vec<Vec<i64>>, RegressionError>)
        ensures
            r is Err <==> (features@.len() == 0 || standard_deviations@.len() != means@.len()
                || !rect(to_mat(features@), means@.len() as int)),
            match r {
                Ok(nf) => {
                    &&& nf@.len() == features@.len()
                    &&& rect(to_mat(nf@), means@.len() as int)
                    &&& to_mat(nf@) == normalize_s(
                        to_mat(features@),
                        to_ints(means@),
                        to_ints(standard_deviations@),
                    )
                },
                Err(e) => {
                    &&& (e is EmptyInput <==> features@.len() == 0)
                    &&& (e is ShapeMismatch <==> (features@.len() > 0 && (
                    standard_deviations@.len() != means@.len() || !rect(
                        to_mat(features@),
                        means@.len() as int,
                    ))))
                },
            },
    {
        let ghost mat = to_mat(features@);
        let ghost ms = to_ints(means@);
        let ghost sd_ints = to_ints(standard_deviations@);
        let n = features.len();
        if n == 0 {
            return Err(RegressionError::EmptyInput);
        }
        let m = means.len();
        if standard_deviations.len() != m {
            return Err(RegressionError::ShapeMismatch);
        }
        if !rect_check(features, m) {
            return Err(RegressionError::ShapeMismatch);
        }
        let mut nf: Vec<Vec<i64>> = Vec::new();
        let mut i: usize = 0;
        while i < n
            invariant
                i <= n,
                n == features@.len(),
                m == means@.len(),
                m == standard_deviations@.len(),
                mat == to_mat(features@),
                ms == to_ints(means@),
                sd_ints == to_ints(standard_deviations@),
                rect(mat, m as int),
                nf@.len() == i,
                forall|t: int|
                    0 <= t < i ==> to_ints(#[trigger] nf@[t]@) == norm_row_s(mat[t], ms, sd_ints),
            decreases n - i,
        {
            proof {
                assert(mat[i as int] == to_ints(features@[i as int]@));
                assert(mat[i as int].len() == m);
            }
            let mut row: Vec<i64> = Vec::new();
            let mut j: usize = 0;
            while j < m
                invariant
                    j <= m,
                    i < n,
                    n == features@.len(),
                    m == means@.len(),
                    m == standard_deviations@.len(),
                    mat == to_mat(features@),
                    ms == to_ints(means@),
                    sd_ints == to_ints(standard_deviations@),
                    rect(mat, m as int),
                    mat[i as int].len() == m,
                    row@.len() == j,
                    forall|t: int|
                        0 <= t < j ==> #[trigger] row@[t] as int == norm_entry_s(
                            mat[i as int][t],
                            ms[t],
                            sd_ints[t],
                        ),
                decreases m - j,
            {
                let sd = standard_deviations[j];
                let divisor = if sd > 0 {
                    sd
                } else {
                    SCALE
                };
                let entry = fx_div(fx_sub(features[i][j], means[j]), divisor);
                row.push(entry);
                j += 1;
            }
            proof {
                assert(to_ints(row@) =~= norm_row_s(mat[i as int], ms, sd_ints));
            }
            nf.push(row);
            i += 1;
        }
        proof {
            assert(to_mat(nf@) =~~= normalize_s(mat, ms, sd_ints));
            assert forall|t: int| 0 <= t < nf@.len() implies (#[trigger] to_mat(nf@)[t]).len()
                == m as int by {
                assert(to_mat(nf@)[t] == to_ints(nf@[t]@));
            }
        }
        Ok(nf)
    }
    /// The forward pass: one prediction per sample, the dot product of its
    /// features with the weights plus the bias.
    pub fn compute_predictions(features: &Vec<Vec<i64>>, weights: &Vec<i64>, bias: i64) -> (r:
        Result<Vec<i64>, RegressionError>)
        ensures
            r is Err <==> (features@.len() == 0 || !rect(
                to_mat(features@),
                weights@.len() as int,
            )),
            match r {
                Ok(p) => {
                    &&& p@.len() == features@.len()
                    &&& to_ints(p@) == preds_s(
                        to_mat(features@),
                        to_ints(weights@),
                        bias as int,
                    )
                },
                Err(e) => {
                    &&& (e is EmptyInput <==> features@.len() == 0)
                    &&& (e is ShapeMismatch <==> (features@.len() > 0 && !rect(
                        to_mat(features@),
                        weights@.len() as int,
                    )))
                },
            },
    {
        let ghost mat = to_mat(features@);
        let ghost w = to_ints(weights@);
        let n = features.len();
        if n == 0 {
            return Err(RegressionError::EmptyInput);
        }
        let m = weights.len();
        if !rect_check(features, m) {
            return Err(RegressionError::ShapeMismatch);
        }
        let mut predictions: Vec<i64> = Vec::new();
        let mut i: usize = 0;
        while i < n
            invariant
                i <= n,
                n == features@.len(),
                m == weights@.len(),
                mat == to_mat(features@),
                w == to_ints(weights@),
                rect(mat, m as int),
                predictions@.len() == i,
                forall|t: int|
                    0 <= t < i ==> #[trigger] predictions@[t] as int == pred_row_s(
                        mat[t],
                        w,
                        bias as int,
                    ),
            decreases n - i,
        {
            proof {
                assert(mat[i as int] == to_ints(features@[i as int]@));
                assert(mat[i as int].len() == m);
            }
            let ghost terms = Seq::new(
                m as nat,
                |t: int| crate::fixed::fx_mul_s(mat[i as int][t], w[t]),
            );
            let mut acc: i64 = 0;
            let mut j: usize = 0;
            while j < m
                invariant
                    j <= m,
                    i < n,
                    n == features@.len(),
                    m == weights@.len(),
                    mat == to_mat(features@),
                    w == to_ints(weights@),
                    rect(mat, m as int),
                    mat[i as int].len() == m,
                    terms == Seq::new(
                        m as nat,
                        |t: int| crate::fixed::fx_mul_s(mat[i as int][t], w[t]),
                    ),
                    acc as int == fx_sum(terms.take(j as int)),
                decreases m - j,
            {
                proof {
                    assert(terms.take(j as int + 1).drop_last() =~= terms.take(j as int));
                }
                acc = fx_add(acc, fx_mul(features[i][j], weights[j]));
                j += 1;
            }
            proof {
                assert(terms.take(m as int) =~= terms);
                assert(terms =~= Seq::new(w.len(), |t: int| crate::fixed::fx_mul_s(
                    mat[i as int][t],
                    w[t],
                )));
                assert(fx_sum(terms) == dot_s(mat[i as int], w));
            }
            let prediction = fx_add(acc, bias);
            predictions.push(prediction);
            i += 1;
        }
        proof {
            assert(to_ints(predictions@) =~= preds_s(mat, w, bias as int));
        }
        Ok(predictions)
    }

    /// Mean squared error between actual and predicted labels.
    pub fn mean_squared_error(actual_outputs: &Vec<i64>, predicted_outputs: &Vec<i64>) -> (r:
        Result<i64, RegressionError>)
        ensures
            r is Err <==> (actual_outputs@.len() != predicted_outputs@.len()
                || actual_outputs@.len() == 0),
            match r {
                Ok(v) => v as int == mse_s(to_ints(actual_outputs@), to_ints(predicted_outputs@)),
                Err(e) => {
                    &&& (e is ShapeMismatch <==> actual_outputs@.len()
                        != predicted_outputs@.len())
                    &&& (e is EmptyInput <==> (actual_outputs@.len() == predicted_outputs@.len()
                        && actual_outputs@.len() == 0))
                },
            },
    {
        let ghost a = to_ints(actual_outputs@);
        let ghost p = to_ints(predicted_outputs@);
        let n = actual_outputs.len();
        if n != predicted_outputs.len() {
            return Err(RegressionError::ShapeMismatch);
        }
        if n == 0 {
            return Err(RegressionError::EmptyInput);
        }
        let ghost terms = Seq::new(
            n as nat,
            |t: int| crate::fixed::fx_mul_s(
                crate::fixed::fx_sub_s(a[t], p[t]),
                crate::fixed::fx_sub_s(a[t], p[t]),
            ),
        );
        let mut result: i64 = 0;
        let mut i: usize = 0;
        while i < n
            invariant
                i <= n,
                n == actual_outputs@.len(),
                n == predicted_outputs@.len(),
                a == to_ints(actual_outputs@),
                p == to_ints(predicted_outputs@),
                terms == Seq::new(
                    n as nat,
                    |t: int| crate::fixed::fx_mul_s(
                        crate::fixed::fx_sub_s(a[t], p[t]),
                        crate::fixed::fx_sub_s(a[t], p[t]),
                    ),
                ),
                result as int == fx_sum(terms.take(i as int)),
            decreases n - i,
        {
            proof {
                assert(terms.take(i as int + 1).drop_last() =~= terms.take(i as int));
            }
            let difference = fx_sub(actual_outputs[i], predicted_outputs[i]);
            let squared_difference = fx_mul(difference, difference);
            result = fx_add(result, squared_difference);
            i += 1;
        }
        proof {
            assert(terms.take(n as int) =~= terms);
        }
        let mean = fx_div_n(result, n);
        Ok(mean)
    }

    /// The gradient of the mean squared error with respect to the weights
    /// and the bias, over a (standardized) feature matrix, its actual
    /// labels, and the current predictions.
    pub fn compute_gradients(
        features: &Vec<Vec<i64>>,
        actual_outputs: &Vec<i64>,
        predicted_outputs: &Vec<i64>,
    ) -> (r: Result<(Vec<i64>, i64), RegressionError>)
        ensures
            r is Err <==> (actual_outputs@.len() != predicted_outputs@.len() || features@.len()
                != actual_outputs@.len() || features@.len() == 0 || !rect(
                to_mat(features@),
                features@[0]@.len() as int,
            )),
            match r {
                Ok(g) => {
                    &&& g.0@.len() == features@[0]@.len()
                    &&& forall|j: int|
                        0 <= j < g.0@.len() ==> #[trigger] g.0@[j] as int == weight_grad_s(
                            to_mat(features@),
                            to_ints(actual_outputs@),
                            to_ints(predicted_outputs@),
                            j,
                        )
                    &&& g.1 as int == bias_grad_s(
                        to_ints(actual_outputs@),
                        to_ints(predicted_outputs@),
                    )
                },
                Err(e) => {
                    &&& (e is ShapeMismatch <==> (actual_outputs@.len()
                        != predicted_outputs@.len() || features@.len() != actual_outputs@.len()
                        || (features@.len() > 0 && !rect(
                        to_mat(features@),
                        features@[0]@.len() as int,
                    ))))
                    &&& (e is EmptyInput <==> (actual_outputs@.len() == predicted_outputs@.len()
                        && features@.len() == actual_outputs@.len() && features@.len() == 0))
                },
            },
    {
        let ghost mat = to_mat(features@);
        let ghost a = to_ints(actual_outputs@);
        let ghost p = to_ints(predicted_outputs@);
        let n = features.len();
        if actual_outputs.len() != predicted_outputs.len() || n != actual_outputs.len() {
            return Err(RegressionError::ShapeMismatch);
        }
        if n == 0 {
            return Err(RegressionError::EmptyInput);
        }
        let m = features[0].len();
        if !rect_check(features, m) {
            return Err(RegressionError::ShapeMismatch);
        }
        // Bias gradient: accumulate the raw errors, then scale by -2 / n.
        let ghost err_terms = Seq::new(n as nat, |t: int| crate::fixed::fx_sub_s(a[t], p[t]));
        let mut bias_acc: i64 = 0;
        let mut i: usize = 0;
        while i < n
            invariant
                i <= n,
                n == features@.len(),
                n == actual_outputs@.len(),
                n == predicted_outputs@.len(),
                a == to_ints(actual_outputs@),
                p == to_ints(predicted_outputs@),
                err_terms == Seq::new(n as nat, |t: int| crate::fixed::fx_sub_s(a[t], p[t])),
                bias_acc as int == fx_sum(err_terms.take(i as int)),
            decreases n - i,
        {
            proof {
                assert(err_terms.take(i as int + 1).drop_last() =~= err_terms.take(i as int));
            }
            let error = fx_sub(actual_outputs[i], predicted_outputs[i]);
            bias_acc = fx_add(bias_acc, error);
            i += 1;
        }
        proof {
            assert(err_terms.take(n as int) =~= err_terms);
        }
        let bias_gradient = fx_scale_neg2_div_n(bias_acc, n);
        // Weight gradients: for each column, accumulate feature * error over
        // the samples in order, then scale by -2 / n.
        let mut weight_gradients: Vec<i64> = Vec::new();
        let mut j: usize = 0;
        while j < m
            invariant
                j <= m,
                n == features@.len(),
                n == actual_outputs@.len(),
                n == predicted_outputs@.len(),
                n > 0,
                m == features@[0]@.len(),
                mat == to_mat(features@),
                a == to_ints(actual_outputs@),
                p == to_ints(predicted_outputs@),
                rect(mat, m as int),
                weight_gradients@.len() == j,
                forall|t: int|
                    0 <= t < j ==> #[trigger] weight_gradients@[t] as int == weight_grad_s(
                        mat,
                        a,
                        p,
                        t,
                    ),
            decreases m - j,
        {
            let ghost wterms = Seq::new(
                n as nat,
                |t: int| crate::fixed::fx_mul_s(
                    mat[t][j as int],
                    crate::fixed::fx_sub_s(a[t], p[t]),
                ),
            );
            let mut acc: i64 = 0;
            let mut i2: usize = 0;
            while i2 < n
                invariant
                    i2 <= n,
                    j < m,
                    n == features@.len(),
                    n == actual_outputs@.len(),
                    n == predicted_outputs@.len(),
                    m == features@[0]@.len(),
                    mat == to_mat(features@),
                    a == to_ints(actual_outputs@),
                    p == to_ints(predicted_outputs@),
                    rect(mat, m as int),
                    wterms == Seq::new(
                        n as nat,
                        |t: int| crate::fixed::fx_mul_s(
                            mat[t][j as int],
                            crate::fixed::fx_sub_s(a[t], p[t]),
                        ),
                    ),
                    acc as int == fx_sum(wterms.take(i2 as int)),
                decreases n - i2,
            {
                proof {
                    assert(wterms.take(i2 as int + 1).drop_last() =~= wterms.take(i2 as int));
                    assert(mat[i2 as int] == to_ints(features@[i2 as int]@));
                    assert(mat[i2 as int].len() == m);
                }
                let error = fx_sub(actual_outputs[i2], predicted_outputs[i2]);
                acc = fx_add(acc, fx_mul(features[i2][j], error));
                i2 += 1;
            }
            proof {
                assert(wterms.take(n as int) =~= wterms);
            }
            weight_gradients.push(fx_scale_neg2_div_n(acc, n));
            j += 1;
        }
        Ok((weight_gradients, bias_gradient))
    }
    /// Fit a model: freeze the standardization statistics computed from the
    /// training features, store the standardized features and the labels,
    /// draw small random initial weights and start the bias at zero.
    pub fn fit(features: Vec<Vec<i64>>, labels: Vec<i64>) -> (r: Result<
        LinearRegression,
        RegressionError,
    >)
        ensures
            r is Err <==> (features@.len() == 0 || features@[0]@.len() == 0 || !rect(
                to_mat(features@),
                features@[0]@.len() as int,
            ) || labels@.len() != features@.len()),
            match r {
                Ok(lr) => {
                    &&& lr.wf()
                    &&& lr.nsamples() == features@.len()
                    &&& lr.width() == features@[0]@.len()
                    &&& lr.labels_ints() == to_ints(labels@)
                    &&& lr.bias_int() == 0
                    &&& forall|j: int|
                        0 <= j < lr.width() ==> -INIT_WEIGHT_BOUND <= #[trigger] lr.weights_ints()[j]
                            < INIT_WEIGHT_BOUND
                    &&& lr.means_ints() == means_s(to_mat(features@), features@[0]@.len() as int)
                    &&& lr.stds_ints() == stds_s(
                        to_mat(features@),
                        means_s(to_mat(features@), features@[0]@.len() as int),
                        features@[0]@.len() as int,
                    )
                    &&& lr.f_mat() == normalize_s(
                        to_mat(features@),
                        means_s(to_mat(features@), features@[0]@.len() as int),
                        stds_s(
                            to_mat(features@),
                            means_s(to_mat(features@), features@[0]@.len() as int),
                            features@[0]@.len() as int,
                        ),
                    )
                },
                Err(e) => {
                    &&& (e is EmptyInput <==> (features@.len() == 0 || features@[0]@.len() == 0))
                    &&& (e is ShapeMismatch <==> (features@.len() > 0 && features@[0]@.len() > 0
                        && (!rect(to_mat(features@), features@[0]@.len() as int) || labels@.len()
                        != features@.len())))
                },
            },
    {
        let ghost mat = to_mat(features@);
        let n = features.len();
        if n == 0 {
            return Err(RegressionError::EmptyInput);
        }
        let m = features[0].len();
        if m == 0 {
            return Err(RegressionError::EmptyInput);
        }
        if !rect_check(&features, m) {
            return Err(RegressionError::ShapeMismatch);
        }
        if labels.len() != n {
            return Err(RegressionError::ShapeMismatch);
        }
        let (weights, bias) = Self::initialize_weights(m);
        let ms = match Self::means(&features) {
            Ok(v) => v,
            Err(_) => unreached(),
        };
        let sds = match Self::standard_deviation(&features, &ms) {
            Ok(v) => v,
            Err(_) => unreached(),
        };
        let nf = match Self::normalize(&features, &ms, &sds) {
            Ok(v) => v,
            Err(_) => unreached(),
        };
        let lr = LinearRegression {
            features: nf,
            labels,
            weights,
            bias,
            means: ms,
            standard_deviations: sds,
        };
        proof {
            assert(lr.stds_ints() == stds_s(mat, means_s(mat, m as int), m as int));
            assert forall|j: int| 0 <= j < lr.width() implies lr.stds_ints()[j] >= 0 by {
                assert(lr.stds_ints()[j] == lr.standard_deviations@[j] as int);
            }
        }
        Ok(lr)
    }

    /// Predict labels for fresh samples: standardize them with the
    /// statistics frozen at fit time, then run the forward pass with the
    /// current weights and bias.
    pub fn predict(&mut self, features: Vec<Vec<i64>>) -> (r: Result<Vec<i64>, RegressionError>)
        requires
            old(self).wf(),
        ensures
            *final(self) == *old(self),
            r is Err <==> (features@.len() == 0 || !rect(
                to_mat(features@),
                old(self).width(),
            )),
            match r {
                Ok(p) => {
                    &&& p@.len() == features@.len()
                    &&& to_ints(p@) == preds_s(
                        normalize_s(
                            to_mat(features@),
                            old(self).means_ints(),
                            old(self).stds_ints(),
                        ),
                        old(self).weights_ints(),
                        old(self).bias_int(),
                    )
                },
                Err(e) => {
                    &&& (e is EmptyInput <==> features@.len() == 0)
                    &&& (e is ShapeMismatch <==> (features@.len() > 0 && !rect(
                        to_mat(features@),
                        old(self).width(),
                    )))
                },
            },
    {
        let nf = match Self::normalize(&features, &self.means, &self.standard_deviations) {
            Ok(v) => v,
            Err(e) => {
                return Err(e);
            },
        };
        proof {
            assert(rect(to_mat(nf@), self.weights@.len() as int));
        }
        match Self::compute_predictions(&nf, &self.weights, self.bias) {
            Ok(p) => Ok(p),
            Err(_) => unreached(),
        }
    }

    /// Run `epochs` further full-batch gradient-descent passes over the
    /// stored training set, updating weights and bias in place, and return
    /// the loss observed at the start of each pass. Zero epochs is a no-op.
    pub fn train(&mut self, epochs: usize, learning_rate: i64) -> (losses: Vec<i64>)
        requires
            old(self).wf(),
        ensures
            final(self).wf(),
            final(self).f_mat() == old(self).f_mat(),
            final(self).labels_ints() == old(self).labels_ints(),
            final(self).means_ints() == old(self).means_ints(),
            final(self).stds_ints() == old(self).stds_ints(),
            final(self).width() == old(self).width(),
            final(self).weights_ints() == run_s(
                old(self).f_mat(),
                old(self).labels_ints(),
                old(self).weights_ints(),
                old(self).bias_int(),
                learning_rate as int,
                epochs as nat,
            ).0,
            final(self).bias_int() == run_s(
                old(self).f_mat(),
                old(self).labels_ints(),
                old(self).weights_ints(),
                old(self).bias_int(),
                learning_rate as int,
                epochs as nat,
            ).1,
            losses@.len() == epochs,
            forall|k: int|
                0 <= k < epochs ==> #[trigger] losses@[k] as int == loss_at_s(
                    old(self).f_mat(),
                    old(self).labels_ints(),
                    old(self).weights_ints(),
                    old(self).bias_int(),
                    learning_rate as int,
                    k as nat,
                ),
            epochs == 0 ==> final(self).weights_ints() == old(self).weights_ints()
                && final(self).bias_int() == old(self).bias_int(),
    {
        let ghost f0 = old(self).f_mat();
        let ghost l0 = old(self).labels_ints();
        let ghost w0 = old(self).weights_ints();
        let ghost b0 = old(self).bias_int();
        let ghost rate = learning_rate as int;
        let mut losses: Vec<i64> = Vec::new();
        let mut epoch: usize = 0;
        while epoch < epochs
            invariant
                epoch <= epochs,
                rate == learning_rate as int,
                self.wf(),
                self.f_mat() == f0,
                self.labels_ints() == l0,
                self.means_ints() == old(self).means_ints(),
                self.stds_ints() == old(self).stds_ints(),
                self.width() == old(self).width(),
                self.weights_ints() == run_s(f0, l0, w0, b0, rate, epoch as nat).0,
                self.bias_int() == run_s(f0, l0, w0, b0, rate, epoch as nat).1,
                losses@.len() == epoch,
                forall|k: int|
                    0 <= k < epoch ==> #[trigger] losses@[k] as int == loss_at_s(
                        f0,
                        l0,
                        w0,
                        b0,
                        rate,
                        k as nat,
                    ),
            decreases epochs - epoch,
        {
            let ghost w_prev = self.weights_ints();
            let ghost b_prev = self.bias_int();
            proof {
                assert(self.f_mat()[0].len() == self.width());
                assert(self.f_mat()[0] == to_ints(self.features@[0]@));
                assert(self.features@[0]@.len() == self.weights@.len());
            }
            let predictions = match Self::compute_predictions(
                &self.features,
                &self.weights,
                self.bias,
            ) {
                Ok(p) => p,
                Err(_) => unreached(),
            };
            proof {
                assert(to_ints(predictions@) == preds_s(f0, w_prev, b_prev));
            }
            let loss = match Self::mean_squared_error(&self.labels, &predictions) {
                Ok(v) => v,
                Err(_) => unreached(),
            };
            let grads = match Self::compute_gradients(&self.features, &self.labels, &predictions) {
                Ok(g) => g,
                Err(_) => unreached(),
            };
            let (weight_gradients, bias_gradient) = grads;
            let mut new_weights: Vec<i64> = Vec::new();
            let mut j: usize = 0;
            let m = self.weights.len();
            while j < m
                invariant
                    j <= m,
                    rate == learning_rate as int,
                    m == self.weights@.len(),
                    m == weight_gradients@.len(),
                    self.weights_ints() == w_prev,
                    forall|t: int|
                        0 <= t < m ==> #[trigger] weight_gradients@[t] as int == weight_grad_s(
                            f0,
                            l0,
                            preds_s(f0, w_prev, b_prev),
                            t,
                        ),
                    new_weights@.len() == j,
                    forall|t: int|
                        0 <= t < j ==> #[trigger] new_weights@[t] as int == crate::fixed::fx_sub_s(
                            w_prev[t],
                            crate::fixed::fx_mul_s(
                                rate,
                                weight_grad_s(f0, l0, preds_s(f0, w_prev, b_prev), t),
                            ),
                        ),
                decreases m - j,
            {
                let updated = fx_sub(self.weights[j], fx_mul(learning_rate, weight_gradients[j]));
                proof {
                    assert(w_prev[j as int] == self.weights@[j as int] as int);
                    assert(weight_gradients@[j as int] as int == weight_grad_s(
                        f0,
                        l0,
                        preds_s(f0, w_prev, b_prev),
                        j as int,
                    ));
                }
                new_weights.push(updated);
                j += 1;
            }
            proof {
                assert(bias_gradient as int == bias_grad_s(l0, preds_s(f0, w_prev, b_prev)));
            }
            self.weights = new_weights;
            self.bias = fx_sub(self.bias, fx_mul(learning_rate, bias_gradient));
            losses.push(loss);
            proof {
                assert(run_s(f0, l0, w0, b0, rate, (epoch + 1) as nat).0 == crate::math::step_weights_s(
                    f0,
                    l0,
                    w_prev,
                    b_prev,
                    rate,
                ));
                assert(self.weights_ints() =~= crate::math::step_weights_s(
                    f0,
                    l0,
                    w_prev,
                    b_prev,
                    rate,
                ));
                assert(self.bias_int() == crate::math::step_bias_s(f0, l0, w_prev, b_prev, rate));
                assert(loss as int == loss_at_s(f0, l0, w0, b0, rate, epoch as nat));
            }
            epoch += 1;
        }
        losses
    }
}

/// Whether every row of `features` has exactly `width` entries.
fn rect_check(features: &Vec<Vec<i64>>, width: usize) -> (ok: bool)
    ensures
        ok <==> rect(to_mat(features@), width as int),
{
    let n = features.len();
    let mut i: usize = 0;
    while i < n
        invariant
            i <= n,
            n == features@.len(),
            forall|t: int| 0 <= t < i ==> (#[trigger] to_mat(features@)[t]).len() == width as int,
        decreases n - i,
    {
        if features[i].len() != width {
            proof {
                assert(to_mat(features@)[i as int].len() != width as int);
            }
            return false;
        }
        proof {
            assert(to_mat(features@)[i as int].len() == width as int);
        }
        i += 1;
    }
    true
}

} // verus!
