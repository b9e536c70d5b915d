//! The mathematical model of the regression engine.
//!
//! Every executable routine in this crate is specified against the spec
//! functions here: left-to-right saturating fixed-point sums, per-column
//! statistics, standardization, the forward prediction pass, mean squared
//! error, the loss gradient, and the iterated gradient-descent step.

use vstd::prelude::*;
use crate::fixed::{
    div_n_s, fx_add_s, fx_div_s, fx_mul_s, fx_sub_s, sat64, sqrt_floor, tdiv, FX_MAX, SCALE,
};

verus! {

/// A fixed-point vector as unbounded integers.
pub open spec fn to_ints(s: Seq<i64>) -> Seq<int> {
    s.map_values(|x: i64| x as int)
}

/// A fixed-point matrix as unbounded integers, row by row.
pub open spec fn to_mat(m: Seq<Vec<i64>>) -> Seq<Seq<int>> {
    m.map_values(|r: Vec<i64>| to_ints(r@))
}

/// Every row of `m` has exactly `width` entries.
pub open spec fn rect(m: Seq<Seq<int>>, width: int) -> bool {
    forall|i: int| 0 <= i < m.len() ==> (#[trigger] m[i]).len() == width
}

/// Left-to-right saturating sum of a sequence of fixed-point values.
pub open spec fn fx_sum(s: Seq<int>) -> int
    decreases s.len(),
{
    if s.len() == 0 {
        0
    } else {
        fx_add_s(fx_sum(s.drop_last()), s.last())
    }
}

/// A sum of zeros is zero.
pub proof fn lemma_fx_sum_zero(s: Seq<int>)
    requires
        forall|i: int| 0 <= i < s.len() ==> s[i] == 0,
    ensures
        fx_sum(s) == 0,
    decreases s.len(),
{
    if s.len() > 0 {
        lemma_fx_sum_zero(s.drop_last());
    }
}

/// The exact (unsaturated) sum of a sequence of integers.
pub open spec fn isum(s: Seq<int>) -> int
    decreases s.len(),
{
    if s.len() == 0 {
        0
    } else {
        isum(s.drop_last()) + s.last()
    }
}

/// Within a uniform magnitude bound small enough that no partial sum can
/// reach the clip range, the saturating fixed-point sum is the exact sum.
pub proof fn lemma_fx_sum_exact(s: Seq<int>, t: int)
    requires
        t >= 0,
        forall|i: int| 0 <= i < s.len() ==> -t <= #[trigger] s[i] <= t,
        s.len() * t <= FX_MAX as int,
    ensures
        fx_sum(s) == isum(s),
        -(s.len() * t) <= isum(s) <= s.len() * t,
    decreases s.len(),
{
    if s.len() > 0 {
        let d = s.drop_last();
        assert(d.len() * t <= s.len() * t && (d.len() * t) + t == s.len() * t)
            by (nonlinear_arith)
            requires
                d.len() == s.len() - 1,
                t >= 0,
                s.len() >= 1,
        ;
        lemma_fx_sum_exact(d, t);
    }
}

/// When `d` exactly divides `p`, truncating division is exact division.
pub proof fn lemma_tdiv_exact(p: int, d: int)
    requires
        d > 0,
        p % d == 0,
    ensures
        tdiv(p, d) == p / d,
        d * (p / d) == p,
{
    vstd::arithmetic::div_mod::lemma_fundamental_div_mod(p, d);
    if p < 0 {
        let q = p / d;
        vstd::arithmetic::div_mod::lemma_fundamental_div_mod(-p, d);
        let q2 = (-p) / d;
        let r2 = (-p) % d;
        assert(r2 == d * (-(q + q2))) by (nonlinear_arith)
            requires
                p == d * q,
                -p == d * q2 + r2,
        ;
        assert(-(q + q2) == 0) by (nonlinear_arith)
            requires
                r2 == d * (-(q + q2)),
                0 <= r2 < d,
        ;
    }
}

/// An exact quotient is no larger in magnitude than its dividend's bound.
pub proof fn lemma_exact_quotient_bound(p: int, d: int, t: int)
    requires
        d >= 1,
        p % d == 0,
        -t <= p <= t,
        t >= 0,
    ensures
        -t <= p / d <= t,
{
    lemma_tdiv_exact(p, d);
    assert(-t <= p / d <= t) by (nonlinear_arith)
        requires
            d >= 1,
            d * (p / d) == p,
            -t <= p <= t,
            t >= 0,
    ;
}

/// Sums respect elementwise proportionality: if `e * s2[i] == c * s1[i]`
/// throughout, the same relation holds of the exact sums.
pub proof fn lemma_isum_propto(s1: Seq<int>, s2: Seq<int>, c: int, e: int)
    requires
        s1.len() == s2.len(),
        forall|i: int| 0 <= i < s1.len() ==> e * #[trigger] s2[i] == c * s1[i],
    ensures
        e * isum(s2) == c * isum(s1),
    decreases s1.len(),
{
    if s1.len() == 0 {
        assert(e * 0 == c * 0) by (nonlinear_arith);
    } else {
        let d1 = s1.drop_last();
        let d2 = s2.drop_last();
        lemma_isum_propto(d1, d2, c, e);
        assert(e * isum(s2) == c * isum(s1)) by (nonlinear_arith)
            requires
                isum(s2) == isum(d2) + s2.last(),
                isum(s1) == isum(d1) + s1.last(),
                e * isum(d2) == c * isum(d1),
                e * s2.last() == c * s1.last(),
        ;
    }
}

/// Subtracting a constant from every element lowers the exact sum by the
/// length times that constant.
pub proof fn lemma_isum_offset(s: Seq<int>, c: int)
    ensures
        isum(Seq::new(s.len(), |i: int| s[i] - c)) == isum(s) - s.len() * c,
    decreases s.len(),
{
    let shifted = Seq::new(s.len(), |i: int| s[i] - c);
    if s.len() == 0 {
        assert(s.len() * c == 0) by (nonlinear_arith)
            requires
                s.len() == 0,
        ;
    } else {
        let d = s.drop_last();
        lemma_isum_offset(d, c);
        assert(shifted.drop_last() =~= Seq::new(d.len(), |i: int| d[i] - c));
        assert((s.len() - 1) * c + c == s.len() * c) by (nonlinear_arith);
    }
}

/// A squared fixed-point deviation is never negative.
pub proof fn lemma_sq_term_nonneg(x: int, y: int)
    ensures
        fx_mul_s(fx_sub_s(x, y), fx_sub_s(x, y)) >= 0,
{
    let d = fx_sub_s(x, y);
    assert(d * d >= 0) by (nonlinear_arith);
    vstd::arithmetic::div_mod::lemma_div_pos_is_pos(d * d, SCALE as int);
}

/// Column `j` of a matrix.
pub open spec fn col_seq(f: Seq<Seq<int>>, j: int) -> Seq<int> {
    Seq::new(f.len(), |i: int| f[i][j])
}

/// Arithmetic mean of column `j`: its saturating sum divided by the sample
/// count, truncated toward zero.
pub open spec fn mean_s(f: Seq<Seq<int>>, j: int) -> int
    recommends
        f.len() > 0,
{
    div_n_s(fx_sum(col_seq(f, j)), f.len() as int)
}

/// The mean vector of the first `m` columns.
pub open spec fn means_s(f: Seq<Seq<int>>, m: int) -> Seq<int> {
    Seq::new(m as nat, |j: int| mean_s(f, j))
}

/// Population variance of column `j` around `means[j]`: the mean of the
/// squared fixed-point deviations.
pub open spec fn variance_s(f: Seq<Seq<int>>, means: Seq<int>, j: int) -> int
    recommends
        f.len() > 0,
{
    div_n_s(
        fx_sum(
            Seq::new(
                f.len(),
                |i: int| fx_mul_s(fx_sub_s(f[i][j], means[j]), fx_sub_s(f[i][j], means[j])),
            ),
        ),
        f.len() as int,
    )
}

/// Population standard deviation of column `j`: the integer square root of
/// the variance brought back to fixed-point scale.
pub open spec fn std_val_s(f: Seq<Seq<int>>, means: Seq<int>, j: int) -> int {
    sqrt_floor(variance_s(f, means, j) * (SCALE as int))
}

/// The standard-deviation vector of the first `m` columns.
pub open spec fn stds_s(f: Seq<Seq<int>>, means: Seq<int>, m: int) -> Seq<int> {
    Seq::new(m as nat, |j: int| std_val_s(f, means, j))
}

/// The divisor standardization actually uses: a zero (degenerate) standard
/// deviation is replaced by one whole unit, so a constant column passes
/// through as plain deviations instead of dividing by zero.
pub open spec fn eff_std(sd: int) -> int {
    if sd > 0 {
        sd
    } else {
        SCALE as int
    }
}

/// One standardized entry: `(x - mean) / std`, with the degenerate-column
/// policy of `eff_std`.
pub open spec fn norm_entry_s(x: int, mean: int, sd: int) -> int {
    fx_div_s(fx_sub_s(x, mean), eff_std(sd))
}

/// One standardized row.
pub open spec fn norm_row_s(row: Seq<int>, means: Seq<int>, sds: Seq<int>) -> Seq<int> {
    Seq::new(row.len(), |j: int| norm_entry_s(row[j], means[j], sds[j]))
}

/// A whole standardized matrix.
pub open spec fn normalize_s(f: Seq<Seq<int>>, means: Seq<int>, sds: Seq<int>) -> Seq<Seq<int>> {
    Seq::new(f.len(), |i: int| norm_row_s(f[i], means, sds))
}

/// Dot product of one sample with the weight vector, term by term in
/// fixed point, summed left to right.
pub open spec fn dot_s(row: Seq<int>, w: Seq<int>) -> int {
    fx_sum(Seq::new(w.len(), |j: int| fx_mul_s(row[j], w[j])))
}

/// One prediction: the dot product plus the bias.
pub open spec fn pred_row_s(row: Seq<int>, w: Seq<int>, b: int) -> int {
    fx_add_s(dot_s(row, w), b)
}

/// The prediction vector for a whole matrix.
pub open spec fn preds_s(f: Seq<Seq<int>>, w: Seq<int>, b: int) -> Seq<int> {
    Seq::new(f.len(), |i: int| pred_row_s(f[i], w, b))
}

/// Mean squared error between actual and predicted labels.
pub open spec fn mse_s(a: Seq<int>, p: Seq<int>) -> int
    recommends
        a.len() == p.len(),
        a.len() > 0,
{
    div_n_s(
        fx_sum(Seq::new(a.len(), |i: int| fx_mul_s(fx_sub_s(a[i], p[i]), fx_sub_s(a[i], p[i])))),
        a.len() as int,
    )
}

/// Scale an accumulated gradient sum by `-2 / n`: multiply by `-2` exactly,
/// then divide by the sample count, truncating toward zero.
pub open spec fn scale_neg2_s(raw: int, n: int) -> int
    recommends
        n > 0,
{
    sat64(tdiv(raw * -2, n))
}

/// Gradient of the mean squared error with respect to the bias.
pub open spec fn bias_grad_s(a: Seq<int>, p: Seq<int>) -> int
    recommends
        a.len() == p.len(),
        a.len() > 0,
{
    scale_neg2_s(fx_sum(Seq::new(a.len(), |i: int| fx_sub_s(a[i], p[i]))), a.len() as int)
}

/// Gradient of the mean squared error with respect to weight `j`.
pub open spec fn weight_grad_s(f: Seq<Seq<int>>, a: Seq<int>, p: Seq<int>, j: int) -> int
    recommends
        f.len() == a.len() == p.len(),
        a.len() > 0,
{
    scale_neg2_s(
        fx_sum(Seq::new(a.len(), |i: int| fx_mul_s(f[i][j], fx_sub_s(a[i], p[i])))),
        a.len() as int,
    )
}

/// The weight vector after one full-batch gradient-descent step.
pub open spec fn step_weights_s(
    f: Seq<Seq<int>>,
    l: Seq<int>,
    w: Seq<int>,
    b: int,
    rate: int,
) -> Seq<int> {
    Seq::new(
        w.len(),
        |j: int| fx_sub_s(w[j], fx_mul_s(rate, weight_grad_s(f, l, preds_s(f, w, b), j))),
    )
}

/// The bias after one full-batch gradient-descent step.
pub open spec fn step_bias_s(f: Seq<Seq<int>>, l: Seq<int>, w: Seq<int>, b: int, rate: int) -> int {
    fx_sub_s(b, fx_mul_s(rate, bias_grad_s(l, preds_s(f, w, b))))
}

/// Weights and bias after `e` gradient-descent epochs from `(w, b)`.
pub open spec fn run_s(
    f: Seq<Seq<int>>,
    l: Seq<int>,
    w: Seq<int>,
    b: int,
    rate: int,
    e: nat,
) -> (Seq<int>, int)
    decreases e,
{
    if e == 0 {
        (w, b)
    } else {
        let prev = run_s(f, l, w, b, rate, (e - 1) as nat);
        (
            step_weights_s(f, l, prev.0, prev.1, rate),
            step_bias_s(f, l, prev.0, prev.1, rate),
        )
    }
}

/// The training loss observed at the start of epoch `k` (so `k == 0` is the
/// loss immediately after fitting).
pub open spec fn loss_at_s(
    f: Seq<Seq<int>>,
    l: Seq<int>,
    w: Seq<int>,
    b: int,
    rate: int,
    k: nat,
) -> int {
    mse_s(l, preds_s(f, run_s(f, l, w, b, rate, k).0, run_s(f, l, w, b, rate, k).1))
}

} // verus!
