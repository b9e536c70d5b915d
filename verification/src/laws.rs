//! Laws of the engine's model that relate several components, proved once
//! and for all over the spec functions the executable contracts use.

use vstd::prelude::*;
use crate::fixed::{fx_mul_s, fx_sub_s, SCALE};
use crate::fixed::FX_MAX;
use crate::math::{
    col_seq, dot_s, eff_std, fx_sum, isum, lemma_exact_quotient_bound, lemma_fx_sum_exact,
    lemma_isum_offset, lemma_isum_propto, lemma_tdiv_exact, mean_s, means_s, norm_entry_s,
    norm_row_s, normalize_s, pred_row_s, rect, std_val_s, stds_s,
};
use crate::math::{bias_grad_s, lemma_fx_sum_zero, mse_s, weight_grad_s};

verus! {

/// Squared fixed-point differences do not depend on the order of the
/// operands.
proof fn lemma_sq_sym(x: int, y: int)
    ensures
        fx_mul_s(fx_sub_s(x, y), fx_sub_s(x, y)) == fx_mul_s(fx_sub_s(y, x), fx_sub_s(y, x)),
{
    let d1 = fx_sub_s(x, y);
    let d2 = fx_sub_s(y, x);
    assert(d2 == -d1);
    assert(d2 * d2 == d1 * d1) by (nonlinear_arith)
        requires
            d2 == -d1,
    ;
}

/// The loss evaluator is symmetric in magnitude: swapping the actual and
/// predicted labels leaves the mean squared error unchanged.
pub proof fn lemma_mse_symmetric(a: Seq<int>, p: Seq<int>)
    requires
        a.len() == p.len(),
        a.len() >= 1,
    ensures
        mse_s(a, p) == mse_s(p, a),
{
    let s1 = Seq::new(a.len(), |i: int| fx_mul_s(fx_sub_s(a[i], p[i]), fx_sub_s(a[i], p[i])));
    let s2 = Seq::new(p.len(), |i: int| fx_mul_s(fx_sub_s(p[i], a[i]), fx_sub_s(p[i], a[i])));
    assert forall|i: int| 0 <= i < a.len() implies s1[i] == s2[i] by {
        lemma_sq_sym(a[i], p[i]);
    }
    assert(s1 =~= s2);
}

/// The mean squared error of a label vector against itself is exactly zero.
pub proof fn lemma_mse_zero_when_equal(a: Seq<int>)
    requires
        a.len() >= 1,
    ensures
        mse_s(a, a) == 0,
{
    let s = Seq::new(a.len(), |i: int| fx_mul_s(fx_sub_s(a[i], a[i]), fx_sub_s(a[i], a[i])));
    assert forall|i: int| 0 <= i < a.len() implies s[i] == 0 by {
        let d = fx_sub_s(a[i], a[i]);
        assert(d == 0);
        assert(d * d == 0) by (nonlinear_arith)
            requires
                d == 0,
        ;
        vstd::arithmetic::div_mod::lemma_div_basics(SCALE as int);
    }
    lemma_fx_sum_zero(s);
    vstd::arithmetic::div_mod::lemma_div_basics(a.len() as int);
}

/// When the predictions equal the actual labels everywhere, the loss is at
/// a stationary point: the bias gradient and every weight gradient are
/// exactly zero.
pub proof fn lemma_zero_gradient_when_exact(f: Seq<Seq<int>>, a: Seq<int>)
    requires
        a.len() >= 1,
    ensures
        bias_grad_s(a, a) == 0,
        forall|j: int| #[trigger] weight_grad_s(f, a, a, j) == 0,
{
    let n = a.len() as int;
    let errs = Seq::new(a.len(), |i: int| fx_sub_s(a[i], a[i]));
    assert forall|i: int| 0 <= i < errs.len() implies errs[i] == 0 by {
        assert(fx_sub_s(a[i], a[i]) == 0);
    }
    lemma_fx_sum_zero(errs);
    vstd::arithmetic::div_mod::lemma_div_basics(n);
    assert forall|j: int| #[trigger] weight_grad_s(f, a, a, j) == 0 by {
        let terms = Seq::new(a.len(), |i: int| fx_mul_s(f[i][j], fx_sub_s(a[i], a[i])));
        assert forall|i: int| 0 <= i < terms.len() implies terms[i] == 0 by {
            let d = fx_sub_s(a[i], a[i]);
            assert(d == 0);
            assert(f[i][j] * d == 0) by (nonlinear_arith)
                requires
                    d == 0,
            ;
            vstd::arithmetic::div_mod::lemma_div_basics(SCALE as int);
        }
        lemma_fx_sum_zero(terms);
        vstd::arithmetic::div_mod::lemma_div_basics(n);
    }
}

/// One dot-product term is linear in the weight when the raw product is a
/// multiple of `SCALE` (no precision loss) and the operands are small
/// enough that nothing saturates.
proof fn lemma_term_linear(x: int, wj: int, k: int)
    requires
        -1_000_000_000 <= x <= 1_000_000_000,
        -1_000_000_000 <= wj <= 1_000_000_000,
        -1000 <= k <= 1000,
        (x * wj) % (SCALE as int) == 0,
    ensures
        -1_000_000_000_000 <= fx_mul_s(x, wj) <= 1_000_000_000_000,
        -1_000_000_000_000_000 <= fx_mul_s(x, k * wj) <= 1_000_000_000_000_000,
        fx_mul_s(x, k * wj) == k * fx_mul_s(x, wj),
{
    let s = SCALE as int;
    let p = x * wj;
    assert(-1_000_000_000_000_000_000 <= p <= 1_000_000_000_000_000_000) by (nonlinear_arith)
        requires
            p == x * wj,
            -1_000_000_000 <= x <= 1_000_000_000,
            -1_000_000_000 <= wj <= 1_000_000_000,
    ;
    lemma_tdiv_exact(p, s);
    let q = p / s;
    assert(-1_000_000_000_000 <= q <= 1_000_000_000_000) by (nonlinear_arith)
        requires
            s == 1_000_000,
            s * q == p,
            -1_000_000_000_000_000_000 <= p <= 1_000_000_000_000_000_000,
    ;
    let p2 = x * (k * wj);
    assert(p2 == s * (k * q)) by (nonlinear_arith)
        requires
            p2 == x * (k * wj),
            p == x * wj,
            p == s * q,
    ;
    assert(p2 % s == 0) by {
        vstd::arithmetic::div_mod::lemma_mod_multiples_basic(k * q, s);
        assert(p2 == (k * q) * s) by (nonlinear_arith)
            requires
                p2 == s * (k * q),
        ;
    }
    lemma_tdiv_exact(p2, s);
    let q2 = p2 / s;
    assert(q2 == k * q) by (nonlinear_arith)
        requires
            s >= 1,
            s * q2 == p2,
            p2 == s * (k * q),
    ;
    assert(-1_000_000_000_000_000 <= q2 <= 1_000_000_000_000_000) by (nonlinear_arith)
        requires
            q2 == k * q,
            -1000 <= k <= 1000,
            -1_000_000_000_000 <= q <= 1_000_000_000_000,
    ;
}

/// The predictor is linear in the model parameters: multiplying every
/// weight and the bias by one whole-number constant multiplies every
/// prediction by that constant. The hypotheses rule out the two ways fixed
/// point loses exactness: each raw product must be a multiple of `SCALE`
/// (no truncation), and the operands must be small enough that no
/// intermediate value saturates.
pub proof fn lemma_predictor_linear(row: Seq<int>, w: Seq<int>, b: int, k: int)
    requires
        row.len() == w.len(),
        w.len() <= 1000,
        forall|j: int| 0 <= j < w.len() ==> -1_000_000_000 <= #[trigger] row[j] <= 1_000_000_000,
        forall|j: int| 0 <= j < w.len() ==> -1_000_000_000 <= #[trigger] w[j] <= 1_000_000_000,
        -1000 <= k <= 1000,
        -1_000_000_000_000 <= b <= 1_000_000_000_000,
        forall|j: int| 0 <= j < w.len() ==> #[trigger] ((row[j] * w[j]) % (SCALE as int)) == 0,
    ensures
        pred_row_s(row, Seq::new(w.len(), |j: int| k * w[j]), k * b) == k * pred_row_s(row, w, b),
{
    let m = w.len();
    let w2 = Seq::new(m, |j: int| k * w[j]);
    let terms1 = Seq::new(m, |j: int| fx_mul_s(row[j], w[j]));
    let terms2 = Seq::new(m, |j: int| fx_mul_s(row[j], w2[j]));
    assert forall|j: int| 0 <= j < m implies -1_000_000_000_000 <= #[trigger] terms1[j]
        <= 1_000_000_000_000 by {
        lemma_term_linear(row[j], w[j], k);
    }
    assert forall|j: int| 0 <= j < m implies -1_000_000_000_000_000 <= #[trigger] terms2[j]
        <= 1_000_000_000_000_000 && 1 * terms2[j] == k * terms1[j] by {
        lemma_term_linear(row[j], w[j], k);
    }
    lemma_fx_sum_exact(terms1, 1_000_000_000_000);
    lemma_fx_sum_exact(terms2, 1_000_000_000_000_000);
    lemma_isum_propto(terms1, terms2, k, 1);
    let d1 = fx_sum(terms1);
    let d2 = fx_sum(terms2);
    assert(m * 1_000_000_000_000 <= 1_000_000_000_000_000) by (nonlinear_arith)
        requires
            m <= 1000,
    ;
    assert(m * 1_000_000_000_000_000 <= 1_000_000_000_000_000_000) by (nonlinear_arith)
        requires
            m <= 1000,
    ;
    assert(d2 == k * d1) by (nonlinear_arith)
        requires
            1 * d2 == k * d1,
    ;
    assert(-1_000_000_000_000_000 <= k * b <= 1_000_000_000_000_000) by (nonlinear_arith)
        requires
            -1000 <= k <= 1000,
            -1_000_000_000_000 <= b <= 1_000_000_000_000,
    ;
    assert(dot_s(row, w) == fx_sum(terms1)) by {
        assert(Seq::new(w.len(), |j: int| fx_mul_s(row[j], w[j])) =~= terms1);
    }
    assert(dot_s(row, w2) == fx_sum(terms2)) by {
        assert(Seq::new(w2.len(), |j: int| fx_mul_s(row[j], w2[j])) =~= terms2);
    }
    assert(k * (d1 + b) == k * d1 + k * b) by (nonlinear_arith);
    assert(pred_row_s(row, w2, k * b) == k * pred_row_s(row, w, b));
}

/// One standardized entry computed without precision loss: the effective
/// standard deviation times the entry is exactly `SCALE` times the
/// deviation.
proof fn lemma_norm_entry_exact(x: int, mu: int, sd: int)
    requires
        -1_000_000_000 <= x <= 1_000_000_000,
        -1_000_000_000 <= mu <= 1_000_000_000,
        (fx_sub_s(x, mu) * (SCALE as int)) % eff_std(sd) == 0,
    ensures
        eff_std(sd) * norm_entry_s(x, mu, sd) == (SCALE as int) * (x - mu),
        -2_000_000_000_000_000 <= norm_entry_s(x, mu, sd) <= 2_000_000_000_000_000,
{
    let e = eff_std(sd);
    let d = x - mu;
    assert(fx_sub_s(x, mu) == d);
    let pd = d * (SCALE as int);
    assert(-2_000_000_000_000_000 <= pd <= 2_000_000_000_000_000) by (nonlinear_arith)
        requires
            pd == d * (SCALE as int),
            -2_000_000_000 <= d <= 2_000_000_000,
            SCALE as int == 1_000_000,
    ;
    lemma_tdiv_exact(pd, e);
    lemma_exact_quotient_bound(pd, e, 2_000_000_000_000_000);
}

/// Standardizing a matrix with its own statistics yields columns whose
/// fixed-point mean is exactly zero, on inputs where fixed point loses no
/// precision: the sample count divides the column sum exactly, the
/// effective standard deviation divides every scaled deviation exactly,
/// and the entries are small enough that nothing saturates.
pub proof fn lemma_normalized_column_mean_zero(f: Seq<Seq<int>>, m: int, j: int)
    requires
        1 <= f.len() <= 1000,
        rect(f, m),
        0 <= j < m,
        forall|i: int| 0 <= i < f.len() ==> -1_000_000_000 <= #[trigger] f[i][j] <= 1_000_000_000,
        fx_sum(col_seq(f, j)) % (f.len() as int) == 0,
        forall|i: int|
            0 <= i < f.len() ==> #[trigger] ((fx_sub_s(f[i][j], mean_s(f, j)) * (SCALE as int))
                % eff_std(std_val_s(f, means_s(f, m), j))) == 0,
    ensures
        mean_s(normalize_s(f, means_s(f, m), stds_s(f, means_s(f, m), m)), j) == 0,
{
    let n = f.len() as int;
    let means = means_s(f, m);
    let sds = stds_s(f, means, m);
    let nf = normalize_s(f, means, sds);
    let col = col_seq(f, j);
    assert forall|i: int| 0 <= i < col.len() implies -1_000_000_000 <= #[trigger] col[i]
        <= 1_000_000_000 by {
        assert(col[i] == f[i][j]);
    }
    lemma_fx_sum_exact(col, 1_000_000_000);
    let sc = isum(col);
    assert(n * 1_000_000_000 <= 1_000_000_000_000) by (nonlinear_arith)
        requires
            n <= 1000,
    ;
    lemma_tdiv_exact(sc, n);
    let mu = sc / n;
    assert(-1_000_000_000 <= mu <= 1_000_000_000) by (nonlinear_arith)
        requires
            n >= 1,
            n * mu == sc,
            -(n * 1_000_000_000) <= sc <= n * 1_000_000_000,
    ;
    assert(mean_s(f, j) == mu);
    assert(means[j] == mu);
    let devs = Seq::new(f.len(), |i: int| col[i] - mu);
    lemma_isum_offset(col, mu);
    assert(isum(devs) == 0) by {
        assert(devs =~= Seq::new(col.len(), |i: int| col[i] - mu));
    }
    let e = eff_std(std_val_s(f, means, j));
    assert(e >= 1);
    assert(sds[j] == std_val_s(f, means, j));
    let entries = Seq::new(f.len(), |i: int| norm_entry_s(f[i][j], means[j], sds[j]));
    assert forall|i: int|
        0 <= i < f.len() implies e * (#[trigger] entries[i]) == (SCALE as int) * devs[i]
        && -2_000_000_000_000_000 <= entries[i] <= 2_000_000_000_000_000 by {
        lemma_norm_entry_exact(f[i][j], mu, sds[j]);
        assert(devs[i] == f[i][j] - mu);
    }
    assert(f.len() * 2_000_000_000_000_000 <= FX_MAX as int) by (nonlinear_arith)
        requires
            f.len() <= 1000,
            FX_MAX as int == 0x7FFF_FFFF_FFFF_FFFF,
    ;
    lemma_fx_sum_exact(entries, 2_000_000_000_000_000);
    lemma_isum_propto(devs, entries, SCALE as int, e);
    assert(isum(entries) == 0) by (nonlinear_arith)
        requires
            e >= 1,
            e * isum(entries) == 0,
    ;
    let ncol = col_seq(nf, j);
    assert forall|i: int| 0 <= i < f.len() implies #[trigger] ncol[i] == entries[i] by {
        assert(nf[i] == norm_row_s(f[i], means, sds));
        assert(f[i].len() == m);
        assert(nf[i][j] == norm_entry_s(f[i][j], means[j], sds[j]));
    }
    assert(ncol =~= entries);
    vstd::arithmetic::div_mod::lemma_div_basics(n);
}

} // verus!
