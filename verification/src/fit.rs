use vstd::prelude::*;
use crate::error::AnalysisError;
use crate::ratio::{Ratio, q_add, q_sub, q_mul, q_div, q_zero, q_int, q_eq, q_add_ok, q_sub_ok, q_mul_ok, q_div_ok};

verus! {

/// One measured sample: bias voltage `x` and probe current `y`.
#[derive(Clone, Copy, Debug, PartialEq, Eq, Structural)]
pub struct Sample {
    pub x: Ratio,
    pub y: Ratio,
}

impl Sample {
    /// Both coordinates are well-formed rationals.
    pub open spec fn wf(self) -> bool {
        self.x.wf() && self.y.wf()
    }

    /// Builds a sample from its two coordinates.
    pub fn new(x: Ratio, y: Ratio) -> (r: Sample)
        requires
            x.wf(),
            y.wf(),
        ensures
            r.wf(),
            r.x == x,
            r.y == y,
    {
        Sample { x, y }
    }
}

/// A contiguous index range `[lo, hi)` selecting the samples of one fit.
#[derive(Clone, Copy, Debug, PartialEq, Eq, Structural)]
pub struct Window {
    pub lo: usize,
    pub hi: usize,
}

impl Window {
    /// Number of samples the window selects.
    pub open spec fn len(self) -> int {
        self.hi as int - self.lo as int
    }

    /// The window lies within a sequence of length `n`.
    pub open spec fn in_bounds(self, n: int) -> bool {
        self.lo <= self.hi && self.hi as int <= n
    }

    /// Builds the window `[lo, hi)`.
    pub fn new(lo: usize, hi: usize) -> (r: Window)
        requires
            lo <= hi,
        ensures
            r.lo == lo,
            r.hi == hi,
    {
        Window { lo, hi }
    }
}

/// A fitted line `y = slope * x + intercept`.
#[derive(Clone, Copy, Debug, PartialEq, Eq, Structural)]
pub struct LinearFit {
    pub intercept: Ratio,
    pub slope: Ratio,
}

impl LinearFit {
    /// Both coefficients are well-formed rationals.
    pub open spec fn wf(self) -> bool {
        self.intercept.wf() && self.slope.wf()
    }
}

/// Exact sum of the x-values of a sample sequence.
pub open spec fn sum_x(s: Seq<Sample>) -> (int, int)
    decreases s.len(),
{
    if s.len() == 0 {
        q_zero()
    } else {
        q_add(sum_x(s.drop_last()), s.last().x.q())
    }
}

/// Exact sum of the y-values of a sample sequence.
pub open spec fn sum_y(s: Seq<Sample>) -> (int, int)
    decreases s.len(),
{
    if s.len() == 0 {
        q_zero()
    } else {
        q_add(sum_y(s.drop_last()), s.last().y.q())
    }
}

/// Exact sum of the products x * y over a sample sequence.
pub open spec fn sum_xy(s: Seq<Sample>) -> (int, int)
    decreases s.len(),
{
    if s.len() == 0 {
        q_zero()
    } else {
        q_add(sum_xy(s.drop_last()), q_mul(s.last().x.q(), s.last().y.q()))
    }
}

/// Exact sum of the squares x * x over a sample sequence.
pub open spec fn sum_xx(s: Seq<Sample>) -> (int, int)
    decreases s.len(),
{
    if s.len() == 0 {
        q_zero()
    } else {
        q_add(sum_xx(s.drop_last()), q_mul(s.last().x.q(), s.last().x.q()))
    }
}

/// Numerator of the closed-form least-squares slope over `s`:
/// `n * sum(x*y) - sum(x) * sum(y)`.
pub open spec fn fit_numer(s: Seq<Sample>) -> (int, int) {
    q_sub(q_mul(q_int(s.len() as int), sum_xy(s)), q_mul(sum_x(s), sum_y(s)))
}

/// Denominator of the closed-form least-squares slope over `s`:
/// `n * sum(x*x) - sum(x) * sum(x)`, which is `n * n` times the variance
/// of the x-values; it is zero exactly when that variance is zero.
pub open spec fn fit_denom(s: Seq<Sample>) -> (int, int) {
    q_sub(q_mul(q_int(s.len() as int), sum_xx(s)), q_mul(sum_x(s), sum_x(s)))
}

/// The textbook closed-form least-squares slope over `s`.
pub open spec fn ols_slope(s: Seq<Sample>) -> (int, int) {
    q_div(fit_numer(s), fit_denom(s))
}

/// The textbook closed-form least-squares intercept over `s`:
/// `(sum(y) - slope * sum(x)) / n`.
pub open spec fn ols_intercept(s: Seq<Sample>) -> (int, int) {
    q_div(q_sub(sum_y(s), q_mul(ols_slope(s), sum_x(s))), q_int(s.len() as int))
}

/// `f` is the ordinary least-squares line of the samples `s`: its
/// coefficients equal the closed-form solution of the normal equations.
pub open spec fn is_ols_fit(s: Seq<Sample>, f: LinearFit) -> bool {
    &&& f.wf()
    &&& !q_eq(fit_denom(s), q_zero())
    &&& f.slope.q() == ols_slope(s)
    &&& f.intercept.q() == ols_intercept(s)
}

/// All running sums over `s` stay exactly representable, step by step:
/// the condition under which the fit's accumulation succeeds.
pub open spec fn sums_ok(s: Seq<Sample>) -> bool
    decreases s.len(),
{
    if s.len() == 0 {
        true
    } else {
        let pre = s.drop_last();
        let t = s.last();
        &&& sums_ok(pre)
        &&& q_add_ok(sum_x(pre), t.x.q())
        &&& q_add_ok(sum_y(pre), t.y.q())
        &&& q_mul_ok(t.x.q(), t.y.q())
        &&& q_add_ok(sum_xy(pre), q_mul(t.x.q(), t.y.q()))
        &&& q_mul_ok(t.x.q(), t.x.q())
        &&& q_add_ok(sum_xx(pre), q_mul(t.x.q(), t.x.q()))
    }
}

/// The sums and the closed-form numerator and denominator over `s` stay
/// exactly representable.
pub open spec fn fit_ranges_ok(s: Seq<Sample>) -> bool {
    &&& sums_ok(s)
    &&& q_mul_ok(q_int(s.len() as int), sum_xy(s))
    &&& q_mul_ok(sum_x(s), sum_y(s))
    &&& q_sub_ok(q_mul(q_int(s.len() as int), sum_xy(s)), q_mul(sum_x(s), sum_y(s)))
    &&& q_mul_ok(q_int(s.len() as int), sum_xx(s))
    &&& q_mul_ok(sum_x(s), sum_x(s))
    &&& q_sub_ok(q_mul(q_int(s.len() as int), sum_xx(s)), q_mul(sum_x(s), sum_x(s)))
}

/// The closed-form slope and intercept of a non-singular system stay
/// exactly representable.
pub open spec fn fit_solve_ok(s: Seq<Sample>) -> bool {
    &&& q_div_ok(fit_numer(s), fit_denom(s))
    &&& q_mul_ok(ols_slope(s), sum_x(s))
    &&& q_sub_ok(sum_y(s), q_mul(ols_slope(s), sum_x(s)))
    &&& q_div_ok(q_sub(sum_y(s), q_mul(ols_slope(s), sum_x(s))), q_int(s.len() as int))
}

/// The complete outcome of fitting the samples `s`: too few samples, a
/// value outside the machine range, a singular system, or the owed fit —
/// each error exactly on its own inputs.
pub open spec fn fit_outcome(s: Seq<Sample>, r: Result<LinearFit, AnalysisError>) -> bool {
    if s.len() < 2 {
        r == Result::<LinearFit, AnalysisError>::Err(AnalysisError::InsufficientData)
    } else if !fit_ranges_ok(s) {
        r == Result::<LinearFit, AnalysisError>::Err(AnalysisError::OutOfRange)
    } else if q_eq(fit_denom(s), q_zero()) {
        r == Result::<LinearFit, AnalysisError>::Err(AnalysisError::SingularFit)
    } else if !fit_solve_ok(s) {
        r == Result::<LinearFit, AnalysisError>::Err(AnalysisError::OutOfRange)
    } else {
        r matches Ok(f) && is_ols_fit(s, f)
    }
}

/// Representable sums over a sequence are representable over each of its
/// prefixes.
proof fn lemma_sums_ok_prefix(s: Seq<Sample>, i: int)
    requires
        0 <= i <= s.len(),
        sums_ok(s),
    ensures
        sums_ok(s.subrange(0, i)),
    decreases s.len() - i,
{
    if i == s.len() {
        assert(s.subrange(0, i) =~= s);
    } else {
        let pre = s.drop_last();
        assert(pre.subrange(0, i) =~= s.subrange(0, i));
        lemma_sums_ok_prefix(pre, i);
    }
}

/// Fits `y = slope * x + intercept` by ordinary least squares over the
/// samples the window selects, solving the normal equations in exact
/// rational arithmetic.
pub fn fit(samples: &Vec<Sample>, w: Window) -> (r: Result<LinearFit, AnalysisError>)
    requires
        w.in_bounds(samples@.len() as int),
        forall|k: int| w.lo <= k < w.hi ==> (#[trigger] samples@[k]).wf(),
    ensures
        ({
            let win = samples@.subrange(w.lo as int, w.hi as int);
            &&& (r == Result::<LinearFit, AnalysisError>::Err(AnalysisError::InsufficientData)
                <==> win.len() < 2)
            &&& (r matches Ok(f) ==> win.len() >= 2 && is_ols_fit(win, f))
            &&& (r == Result::<LinearFit, AnalysisError>::Err(AnalysisError::SingularFit)
                ==> win.len() >= 2 && q_eq(fit_denom(win), q_zero()))
            &&& (r != Result::<LinearFit, AnalysisError>::Err(AnalysisError::OutOfRange) ==> (r
                == Result::<LinearFit, AnalysisError>::Err(AnalysisError::SingularFit)
                <==> win.len() >= 2 && q_eq(fit_denom(win), q_zero())))
            &&& r != Result::<LinearFit, AnalysisError>::Err(AnalysisError::DegenerateParameters)
            &&& fit_outcome(win, r)
        }),
{
    let ghost win = samples@.subrange(w.lo as int, w.hi as int);
    if w.hi - w.lo < 2 {
        return Err(AnalysisError::InsufficientData);
    }
    proof {
        assert(sums_ok(samples@.subrange(w.lo as int, w.lo as int)));
    }
    let mut sx = Ratio::from_int(0);
    let mut sy = Ratio::from_int(0);
    let mut sxy = Ratio::from_int(0);
    let mut sxx = Ratio::from_int(0);
    let mut i = w.lo;
    while i < w.hi
        invariant
            w.lo <= i <= w.hi,
            w.in_bounds(samples@.len() as int),
            w.len() >= 2,
            forall|k: int| w.lo <= k < w.hi ==> (#[trigger] samples@[k]).wf(),
            sx.wf() && sy.wf() && sxy.wf() && sxx.wf(),
            sx.q() == sum_x(samples@.subrange(w.lo as int, i as int)),
            sy.q() == sum_y(samples@.subrange(w.lo as int, i as int)),
            sxy.q() == sum_xy(samples@.subrange(w.lo as int, i as int)),
            sxx.q() == sum_xx(samples@.subrange(w.lo as int, i as int)),
            sums_ok(samples@.subrange(w.lo as int, i as int)),
            win == samples@.subrange(w.lo as int, w.hi as int),
        decreases w.hi - i,
    {
        let s = samples[i];
        proof {
            let pre = samples@.subrange(w.lo as int, i as int);
            let post = samples@.subrange(w.lo as int, i as int + 1);
            assert(post.drop_last() =~= pre);
            assert(post.last() == samples@[i as int]);
        }
        sx = match sx.add(s.x) {
            Some(v) => v,
            None => {
                proof {
                    let k = i as int - w.lo as int;
                    assert(win.subrange(0, k + 1) =~= samples@.subrange(
                        w.lo as int,
                        i as int + 1,
                    ));
                    if sums_ok(win) {
                        lemma_sums_ok_prefix(win, k + 1);
                        assert(false);
                    }
                }
                return Err(AnalysisError::OutOfRange);
            },
        };
        sy = match sy.add(s.y) {
            Some(v) => v,
            None => {
                proof {
                    let k = i as int - w.lo as int;
                    assert(win.subrange(0, k + 1) =~= samples@.subrange(
                        w.lo as int,
                        i as int + 1,
                    ));
                    if sums_ok(win) {
                        lemma_sums_ok_prefix(win, k + 1);
                        assert(false);
                    }
                }
                return Err(AnalysisError::OutOfRange);
            },
        };
        let pxy = match s.x.mul(s.y) {
            Some(v) => v,
            None => {
                proof {
                    let k = i as int - w.lo as int;
                    assert(win.subrange(0, k + 1) =~= samples@.subrange(
                        w.lo as int,
                        i as int + 1,
                    ));
                    if sums_ok(win) {
                        lemma_sums_ok_prefix(win, k + 1);
                        assert(false);
                    }
                }
                return Err(AnalysisError::OutOfRange);
            },
        };
        sxy = match sxy.add(pxy) {
            Some(v) => v,
            None => {
                proof {
                    let k = i as int - w.lo as int;
                    assert(win.subrange(0, k + 1) =~= samples@.subrange(
                        w.lo as int,
                        i as int + 1,
                    ));
                    if sums_ok(win) {
                        lemma_sums_ok_prefix(win, k + 1);
                        assert(false);
                    }
                }
                return Err(AnalysisError::OutOfRange);
            },
        };
        let pxx = match s.x.mul(s.x) {
            Some(v) => v,
            None => {
                proof {
                    let k = i as int - w.lo as int;
                    assert(win.subrange(0, k + 1) =~= samples@.subrange(
                        w.lo as int,
                        i as int + 1,
                    ));
                    if sums_ok(win) {
                        lemma_sums_ok_prefix(win, k + 1);
                        assert(false);
                    }
                }
                return Err(AnalysisError::OutOfRange);
            },
        };
        sxx = match sxx.add(pxx) {
            Some(v) => v,
            None => {
                proof {
                    let k = i as int - w.lo as int;
                    assert(win.subrange(0, k + 1) =~= samples@.subrange(
                        w.lo as int,
                        i as int + 1,
                    ));
                    if sums_ok(win) {
                        lemma_sums_ok_prefix(win, k + 1);
                        assert(false);
                    }
                }
                return Err(AnalysisError::OutOfRange);
            },
        };
        proof {
            assert(sums_ok(samples@.subrange(w.lo as int, i as int + 1)));
        }
        i += 1;
    }
    let n = w.hi - w.lo;
    let nr = Ratio::from_int(n as i128);
    proof {
        assert(nr.q() == q_int(win.len() as int));
    }
    let t1 = match nr.mul(sxy) {
        Some(v) => v,
        None => {
            return Err(AnalysisError::OutOfRange);
        },
    };
    let t2 = match sx.mul(sy) {
        Some(v) => v,
        None => {
            return Err(AnalysisError::OutOfRange);
        },
    };
    let numer = match t1.sub(t2) {
        Some(v) => v,
        None => {
            return Err(AnalysisError::OutOfRange);
        },
    };
    let t3 = match nr.mul(sxx) {
        Some(v) => v,
        None => {
            return Err(AnalysisError::OutOfRange);
        },
    };
    let t4 = match sx.mul(sx) {
        Some(v) => v,
        None => {
            return Err(AnalysisError::OutOfRange);
        },
    };
    let denom = match t3.sub(t4) {
        Some(v) => v,
        None => {
            return Err(AnalysisError::OutOfRange);
        },
    };
    proof {
        assert(fit_ranges_ok(win));
        assert(denom.q() == fit_denom(win));
        crate::ratio::lemma_q_eq_zero(denom.q());
    }
    if denom.num == 0 {
        return Err(AnalysisError::SingularFit);
    }
    let slope = match numer.div(denom) {
        Some(v) => v,
        None => {
            return Err(AnalysisError::OutOfRange);
        },
    };
    let t5 = match slope.mul(sx) {
        Some(v) => v,
        None => {
            return Err(AnalysisError::OutOfRange);
        },
    };
    let t6 = match sy.sub(t5) {
        Some(v) => v,
        None => {
            return Err(AnalysisError::OutOfRange);
        },
    };
    let intercept = match t6.div(nr) {
        Some(v) => v,
        None => {
            return Err(AnalysisError::OutOfRange);
        },
    };
    proof {
        assert(fit_solve_ok(win));
    }
    Ok(LinearFit { intercept, slope })
}

} // verus!
