//! Deterministic train/test partitioning: no shuffling, a leading training
//! slice and a trailing testing slice.

use vstd::prelude::*;
use crate::error::RegressionError;
use crate::fixed::SCALE;

verus! {

/// Where the split falls for `n` samples and a fixed-point test fraction
/// `t`: the training partition holds `round((1 - t) * n)` samples, rounding
/// half up.
pub open spec fn split_index_s(n: int, t: int) -> int {
    ((SCALE as int - t) * n + (SCALE as int) / 2) / (SCALE as int)
}

/// Copy one row of a feature matrix.
fn copy_row(r: &Vec<i64>) -> (c: Vec<i64>)
    ensures
        c@ == r@,
{
    let mut c: Vec<i64> = Vec::new();
    let mut i: usize = 0;
    while i < r.len()
        invariant
            i <= r@.len(),
            c@ == r@.take(i as int),
        decreases r@.len() - i,
    {
        c.push(r[i]);
        proof {
            assert(c@ =~= r@.take(i as int + 1));
        }
        i += 1;
    }
    proof {
        assert(r@.take(r@.len() as int) =~= r@);
    }
    c
}

/// Split a feature matrix and its labels into a leading training partition
/// of `round((1 - test_size) * n)` samples and a trailing testing
/// partition, in order and without shuffling. `test_size` is a fixed-point
/// fraction in `[0, 1)`.
pub fn train_test_split(x: Vec<Vec<i64>>, y: Vec<i64>, test_size: i64) -> (r: Result<
    (Vec<Vec<i64>>, Vec<Vec<i64>>, Vec<i64>, Vec<i64>),
    RegressionError,
>)
    requires
        0 <= test_size < SCALE,
    ensures
        r is Err <==> x@.len() != y@.len(),
        match r {
            Ok(parts) => {
                let k = split_index_s(x@.len() as int, test_size as int);
                &&& 0 <= k <= x@.len()
                &&& parts.0@.len() == k
                &&& parts.1@.len() == x@.len() - k
                &&& parts.2@ == y@.take(k)
                &&& parts.3@ == y@.skip(k)
                &&& forall|i: int| 0 <= i < k ==> (#[trigger] parts.0@[i])@ == x@[i]@
                &&& forall|i: int|
                    0 <= i < x@.len() - k ==> (#[trigger] parts.1@[i])@ == x@[k + i]@
            },
            Err(e) => e is ShapeMismatch,
        },
{
    let n = x.len();
    if n != y.len() {
        return Err(RegressionError::ShapeMismatch);
    }
    proof {
        assert(((SCALE - test_size) as int) * (n as int) <= (SCALE as int) * (n as int))
            by (nonlinear_arith)
            requires
                0 <= (SCALE - test_size) as int <= SCALE as int,
                0 <= n as int,
        ;
        assert(((SCALE - test_size) as int) * (n as int) >= 0) by (nonlinear_arith)
            requires
                0 <= (SCALE - test_size) as int,
                0 <= n as int,
        ;
    }
    let num: u128 = ((SCALE - test_size) as u128) * (n as u128) + ((SCALE / 2) as u128);
    let k128: u128 = num / (SCALE as u128);
    proof {
        let s = SCALE as int;
        let numi = num as int;
        vstd::arithmetic::div_mod::lemma_fundamental_div_mod(numi, s);
        assert(numi < s * ((n as int) + 1));
        assert(numi / s <= n as int) by (nonlinear_arith)
            requires
                s > 0,
                numi >= 0,
                numi < s * ((n as int) + 1),
                numi == s * (numi / s) + (numi % s),
                0 <= numi % s < s,
        ;
        vstd::arithmetic::div_mod::lemma_div_pos_is_pos(numi, s);
        assert(k128 as int == split_index_s(n as int, test_size as int));
    }
    let k: usize = k128 as usize;
    let mut x_train: Vec<Vec<i64>> = Vec::new();
    let mut i: usize = 0;
    while i < k
        invariant
            i <= k,
            k <= x@.len(),
            x_train@.len() == i,
            forall|t: int| 0 <= t < i ==> (#[trigger] x_train@[t])@ == x@[t]@,
        decreases k - i,
    {
        x_train.push(copy_row(&x[i]));
        i += 1;
    }
    let mut x_test: Vec<Vec<i64>> = Vec::new();
    let mut i2: usize = k;
    while i2 < x.len()
        invariant
            k <= i2 <= x@.len(),
            x_test@.len() == i2 - k,
            forall|t: int| 0 <= t < i2 - k ==> (#[trigger] x_test@[t])@ == x@[k + t]@,
        decreases x@.len() - i2,
    {
        x_test.push(copy_row(&x[i2]));
        i2 += 1;
    }
    let mut y_train: Vec<i64> = Vec::new();
    let mut i3: usize = 0;
    while i3 < k
        invariant
            i3 <= k,
            k <= y@.len(),
            y_train@ == y@.take(i3 as int),
        decreases k - i3,
    {
        y_train.push(y[i3]);
        proof {
            assert(y_train@ =~= y@.take(i3 as int + 1));
        }
        i3 += 1;
    }
    let mut y_test: Vec<i64> = Vec::new();
    let mut i4: usize = k;
    while i4 < y.len()
        invariant
            k <= i4 <= y@.len(),
            y_test@ == y@.subrange(k as int, i4 as int),
        decreases y@.len() - i4,
    {
        y_test.push(y[i4]);
        proof {
            assert(y_test@ =~= y@.subrange(k as int, i4 as int + 1));
        }
        i4 += 1;
    }
    proof {
        assert(y_train@ == y@.take(k as int));
        assert(y_test@ =~= y@.skip(k as int));
    }
    Ok((x_train, x_test, y_train, y_test))
}

} // verus!
