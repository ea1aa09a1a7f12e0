use vstd::prelude::*;
use crate::fit::{fit_denom, fit_numer, fit_outcome, fit_ranges_ok, fit_solve_ok, is_ols_fit, ols_intercept, ols_slope, sum_x, sum_xx, sum_xy, sum_y, LinearFit, Sample};
use crate::ratio::{
    lemma_q_add_congruence, lemma_q_eq_trans, lemma_q_eq_zero, lemma_q_mul_congruence,
    lemma_q_sub_congruence, q_add, q_div, q_eq, q_int, q_mul, q_sub, q_zero,
};

verus! {

/// Fitting is a pure function of its inputs: the least-squares contract
/// determines the coefficients outright, so any two fits it admits for
/// the same sample sequence are identical, and fitting the same window
/// of the same data twice yields identical results.
pub proof fn lemma_fit_deterministic(s: Seq<Sample>, f1: LinearFit, f2: LinearFit)
    requires
        is_ols_fit(s, f1),
        is_ols_fit(s, f2),
    ensures
        f1 == f2,
{
    assert(f1.slope.num == f2.slope.num);
    assert(f1.slope.den == f2.slope.den);
    assert(f1.intercept.num == f2.intercept.num);
    assert(f1.intercept.den == f2.intercept.den);
}

/// Doubling moves through a product.
proof fn lemma_two_shift(x: int, y: int)
    by (nonlinear_arith)
    ensures
        x * (2 * y) == 2 * (x * y),
{
}

/// Rotating the first factor into a nested product.
proof fn lemma_rot(x: int, y: int, z2: int)
    by (nonlinear_arith)
    ensures
        x * (y * z2) == y * (x * z2),
{
}

/// Distributing a factor over a three-term combination.
proof fn lemma_dist3(t: int, x: int, y: int, z2: int)
    by (nonlinear_arith)
    ensures
        t * (x + y - z2) == t * x + t * y - t * z2,
{
}

/// Distributing a right factor over a difference.
proof fn lemma_dist_sub_r(x: int, y: int, t: int)
    by (nonlinear_arith)
    ensures
        (x - y) * t == x * t - y * t,
{
}

/// Regrouping a product of two products, inner factors exchanged.
proof fn lemma_swap_pairs(x: int, y: int, z2: int, w2: int)
    by (nonlinear_arith)
    ensures
        (x * y) * (z2 * w2) == (x * z2) * (y * w2),
{
}

/// The whole fit outcome is a function of the window alone: any two
/// outcomes the contract admits for the same samples are identical —
/// including which error is reported — so two calls on the same data are
/// bitwise-identical.
pub proof fn lemma_fit_outcome_deterministic(
    s: Seq<Sample>,
    r1: Result<LinearFit, crate::error::AnalysisError>,
    r2: Result<LinearFit, crate::error::AnalysisError>,
)
    requires
        fit_outcome(s, r1),
        fit_outcome(s, r2),
    ensures
        r1 == r2,
{
    if s.len() >= 2 && fit_ranges_ok(s) && !q_eq(fit_denom(s), q_zero()) && fit_solve_ok(s) {
        assert(r1 is Ok && r2 is Ok);
        lemma_fit_deterministic(s, r1->Ok_0, r2->Ok_0);
    }
}

/// Sum of the x-values of a sequence whose x-values all equal `c`:
/// `n * c`.
proof fn lemma_sum_x_const(s: Seq<Sample>, c: (int, int))
    requires
        c.1 > 0,
        forall|i: int| 0 <= i < s.len() ==> (#[trigger] s[i]).wf(),
        forall|i: int| 0 <= i < s.len() ==> q_eq((#[trigger] s[i]).x.q(), c),
    ensures
        q_eq(sum_x(s), q_mul(q_int(s.len() as int), c)),
        sum_x(s).1 > 0,
    decreases s.len(),
{
    if s.len() == 0 {
        assert(0 * (1 * c.1) == 0) by (nonlinear_arith);
        assert((0 * c.0) * 1 == 0) by (nonlinear_arith);
        assert(q_eq(q_zero(), q_mul(q_int(0), c)));
    } else {
        let pre = s.drop_last();
        let n = s.len() as int;
        let last = s.last().x.q();
        assert(forall|i: int| 0 <= i < pre.len() ==> (#[trigger] pre[i]) == s[i]);
        lemma_sum_x_const(pre, c);
        assert(q_eq(s[n - 1].x.q(), c));
        assert(sum_x(s) == q_add(sum_x(pre), last));
        lemma_q_add_congruence(sum_x(pre), q_mul(q_int(n - 1), c), last, c);
        let c0 = c.0;
        let c1 = c.1;
        assert((((n - 1) * c0) * c1 + c0 * (1 * c1)) * (1 * c1) == (n * c0) * ((1 * c1)
            * c1)) by (nonlinear_arith);
        assert(q_eq(q_add(q_mul(q_int(n - 1), c), c), q_mul(q_int(n), c)));
        assert((1 * c1) * c1 > 0) by (nonlinear_arith)
            requires
                c1 > 0,
        ;
        lemma_q_eq_trans(sum_x(s), q_add(q_mul(q_int(n - 1), c), c), q_mul(q_int(n), c));
        assert(sum_x(pre).1 * last.1 > 0) by (nonlinear_arith)
            requires
                sum_x(pre).1 > 0,
                last.1 > 0,
        ;
    }
}

/// Sum of the squared x-values of a sequence whose x-values all equal
/// `c`: `n * c * c`.
proof fn lemma_sum_xx_const(s: Seq<Sample>, c: (int, int))
    requires
        c.1 > 0,
        forall|i: int| 0 <= i < s.len() ==> (#[trigger] s[i]).wf(),
        forall|i: int| 0 <= i < s.len() ==> q_eq((#[trigger] s[i]).x.q(), c),
    ensures
        q_eq(sum_xx(s), q_mul(q_int(s.len() as int), q_mul(c, c))),
        sum_xx(s).1 > 0,
    decreases s.len(),
{
    if s.len() == 0 {
        assert(0 * (1 * (c.1 * c.1)) == 0) by (nonlinear_arith);
        assert((0 * (c.0 * c.0)) * 1 == 0) by (nonlinear_arith);
        assert(q_eq(q_zero(), q_mul(q_int(0), q_mul(c, c))));
    } else {
        let pre = s.drop_last();
        let n = s.len() as int;
        let last = s.last().x.q();
        assert(forall|i: int| 0 <= i < pre.len() ==> (#[trigger] pre[i]) == s[i]);
        lemma_sum_xx_const(pre, c);
        assert(q_eq(s[n - 1].x.q(), c));
        assert(sum_xx(s) == q_add(sum_xx(pre), q_mul(last, last)));
        lemma_q_mul_congruence(last, c, last, c);
        lemma_q_add_congruence(
            sum_xx(pre),
            q_mul(q_int(n - 1), q_mul(c, c)),
            q_mul(last, last),
            q_mul(c, c),
        );
        let c0 = c.0;
        let c1 = c.1;
        assert((((n - 1) * (c0 * c0)) * (c1 * c1) + (c0 * c0) * (1 * (c1 * c1))) * (1 * (c1 * c1))
            == (n * (c0 * c0)) * ((1 * (c1 * c1)) * (c1 * c1))) by (nonlinear_arith);
        assert(q_eq(
            q_add(q_mul(q_int(n - 1), q_mul(c, c)), q_mul(c, c)),
            q_mul(q_int(n), q_mul(c, c)),
        ));
        assert((1 * (c1 * c1)) * (c1 * c1) > 0) by (nonlinear_arith)
            requires
                c1 > 0,
        ;
        lemma_q_eq_trans(
            sum_xx(s),
            q_add(q_mul(q_int(n - 1), q_mul(c, c)), q_mul(c, c)),
            q_mul(q_int(n), q_mul(c, c)),
        );
        assert(sum_xx(pre).1 * (last.1 * last.1) > 0) by (nonlinear_arith)
            requires
                sum_xx(pre).1 > 0,
                last.1 > 0,
        ;
    }
}

/// A window whose x-values are all identical has zero variance in x: the
/// closed-form least-squares denominator over it is zero, so by the fit
/// contract such a window can never fit and is reported as singular.
pub proof fn lemma_identical_x_singular(s: Seq<Sample>)
    requires
        s.len() >= 1,
        forall|i: int| 0 <= i < s.len() ==> (#[trigger] s[i]).wf(),
        forall|i: int| 0 <= i < s.len() ==> q_eq((#[trigger] s[i]).x.q(), s[0].x.q()),
    ensures
        q_eq(fit_denom(s), q_zero()),
{
    let c = s[0].x.q();
    let n = s.len() as int;
    assert(s[0].wf());
    lemma_sum_x_const(s, c);
    lemma_sum_xx_const(s, c);
    let tx = q_mul(q_int(n), c);
    let txx = q_mul(q_int(n), q_mul(c, c));
    assert(q_eq(q_int(n), q_int(n)));
    lemma_q_mul_congruence(q_int(n), q_int(n), sum_xx(s), txx);
    lemma_q_mul_congruence(sum_x(s), tx, sum_x(s), tx);
    lemma_q_sub_congruence(
        q_mul(q_int(n), sum_xx(s)),
        q_mul(q_int(n), txx),
        q_mul(sum_x(s), sum_x(s)),
        q_mul(tx, tx),
    );
    assert(fit_denom(s) == q_sub(q_mul(q_int(n), sum_xx(s)), q_mul(sum_x(s), sum_x(s))));
    let m = q_sub(q_mul(q_int(n), txx), q_mul(tx, tx));
    let c0 = c.0;
    let c1 = c.1;
    assert((n * (n * (c0 * c0))) * ((1 * c1) * (1 * c1)) - ((n * c0) * (n * c0)) * (1 * (1 * (c1
        * c1))) == 0) by (nonlinear_arith);
    assert(m.0 == 0);
    lemma_q_eq_zero(m);
    assert((1 * (1 * (c1 * c1))) * ((1 * c1) * (1 * c1)) > 0) by (nonlinear_arith)
        requires
            c1 > 0,
    ;
    lemma_q_eq_trans(fit_denom(s), m, q_zero());
}

/// A window of exactly two samples with distinct x-values yields a fit
/// passing exactly through both points: the residual at each of the two
/// samples is exactly zero.
pub proof fn lemma_two_point_fit(s: Seq<Sample>, f: LinearFit)
    requires
        s.len() == 2,
        s[0].wf(),
        s[1].wf(),
        !q_eq(s[0].x.q(), s[1].x.q()),
        is_ols_fit(s, f),
    ensures
        q_eq(q_add(q_mul(f.slope.q(), s[0].x.q()), f.intercept.q()), s[0].y.q()),
        q_eq(q_add(q_mul(f.slope.q(), s[1].x.q()), f.intercept.q()), s[1].y.q()),
{
    let pre = s.drop_last();
    assert(pre.len() == 1);
    assert(pre.last() == s[0]);
    assert(s.last() == s[1]);
    assert(pre.drop_last().len() == 0);
    assert(sum_x(pre.drop_last()) == q_zero());
    assert(sum_y(pre.drop_last()) == q_zero());
    assert(sum_xy(pre.drop_last()) == q_zero());
    assert(sum_xx(pre.drop_last()) == q_zero());
    let a0: int = s[0].x.q().0;
    let a1: int = s[0].x.q().1;
    let b0: int = s[0].y.q().0;
    let b1: int = s[0].y.q().1;
    let c0: int = s[1].x.q().0;
    let c1: int = s[1].x.q().1;
    let d0: int = s[1].y.q().0;
    let d1: int = s[1].y.q().1;
    assert(sum_x(pre) == q_add(q_zero(), s[0].x.q()));
    assert(sum_y(pre) == q_add(q_zero(), s[0].y.q()));
    assert(sum_xy(pre) == q_add(q_zero(), q_mul(s[0].x.q(), s[0].y.q())));
    assert(sum_xx(pre) == q_add(q_zero(), q_mul(s[0].x.q(), s[0].x.q())));
    assert(sum_x(s) == q_add(q_add(q_zero(), s[0].x.q()), s[1].x.q()));
    assert(sum_y(s) == q_add(q_add(q_zero(), s[0].y.q()), s[1].y.q()));
    assert(sum_xy(s) == q_add(
        q_add(q_zero(), q_mul(s[0].x.q(), s[0].y.q())),
        q_mul(s[1].x.q(), s[1].y.q()),
    ));
    assert(sum_xx(s) == q_add(
        q_add(q_zero(), q_mul(s[0].x.q(), s[0].x.q())),
        q_mul(s[1].x.q(), s[1].x.q()),
    ));
    // cross-product abbreviations of the two samples' coordinates
    let u: int = a0 * c1;
    let v: int = c0 * a1;
    let w: int = b0 * d1;
    let z: int = d0 * b1;
    let e: int = u - v;
    let g: int = w - z;
    let m1: int = a1 * c1;
    let m2: int = b1 * d1;
    let mm: int = m1 * m2;
    // clean component values of the four sums
    assert(sum_x(s).0 == u + v) by (nonlinear_arith)
        requires
            sum_x(s).0 == (0 * a1 + a0 * 1) * c1 + c0 * (1 * a1),
            u == a0 * c1,
            v == c0 * a1,
    ;
    assert(sum_x(s).1 == m1) by (nonlinear_arith)
        requires
            sum_x(s).1 == (1 * a1) * c1,
            m1 == a1 * c1,
    ;
    assert(sum_y(s).0 == w + z) by (nonlinear_arith)
        requires
            sum_y(s).0 == (0 * b1 + b0 * 1) * d1 + d0 * (1 * b1),
            w == b0 * d1,
            z == d0 * b1,
    ;
    assert(sum_y(s).1 == m2) by (nonlinear_arith)
        requires
            sum_y(s).1 == (1 * b1) * d1,
            m2 == b1 * d1,
    ;
    assert(sum_xy(s).0 == (a0 * b0) * (c1 * d1) + (c0 * d0) * (a1 * b1)) by (nonlinear_arith)
        requires
            sum_xy(s).0 == (0 * (a1 * b1) + (a0 * b0) * 1) * (c1 * d1) + (c0 * d0) * (1 * (a1
                * b1)),
    ;
    lemma_swap_pairs(a0, b0, c1, d1);
    lemma_swap_pairs(c0, d0, a1, b1);
    assert(sum_xy(s).0 == u * w + v * z);
    assert(sum_xy(s).1 == (a1 * b1) * (c1 * d1)) by (nonlinear_arith)
        requires
            sum_xy(s).1 == (1 * (a1 * b1)) * (c1 * d1),
    ;
    lemma_swap_pairs(a1, b1, c1, d1);
    assert(sum_xy(s).1 == mm);
    assert(sum_xx(s).0 == (a0 * a0) * (c1 * c1) + (c0 * c0) * (a1 * a1)) by (nonlinear_arith)
        requires
            sum_xx(s).0 == (0 * (a1 * a1) + (a0 * a0) * 1) * (c1 * c1) + (c0 * c0) * (1 * (a1
                * a1)),
    ;
    lemma_swap_pairs(a0, a0, c1, c1);
    lemma_swap_pairs(c0, c0, a1, a1);
    assert(sum_xx(s).0 == u * u + v * v);
    assert(sum_xx(s).1 == (a1 * a1) * (c1 * c1)) by (nonlinear_arith)
        requires
            sum_xx(s).1 == (1 * (a1 * a1)) * (c1 * c1),
    ;
    lemma_swap_pairs(a1, a1, c1, c1);
    assert(sum_xx(s).1 == m1 * m1);
    // clean component values of the closed-form numerator and denominator
    let n: int = s.len() as int;
    assert(fit_numer(s) == q_sub(q_mul(q_int(n), sum_xy(s)), q_mul(sum_x(s), sum_y(s))));
    assert(fit_denom(s) == q_sub(q_mul(q_int(n), sum_xx(s)), q_mul(sum_x(s), sum_x(s))));
    assert(fit_numer(s).0 == (e * g) * mm) by (nonlinear_arith)
        requires
            fit_numer(s).0 == (n * sum_xy(s).0) * (sum_x(s).1 * sum_y(s).1) - (sum_x(s).0 * sum_y(
                s,
            ).0) * (1 * sum_xy(s).1),
            n == 2,
            sum_xy(s).0 == u * w + v * z,
            sum_xy(s).1 == mm,
            sum_x(s).0 == u + v,
            sum_x(s).1 == m1,
            sum_y(s).0 == w + z,
            sum_y(s).1 == m2,
            mm == m1 * m2,
            e == u - v,
            g == w - z,
    ;
    assert(fit_numer(s).1 == mm * mm) by (nonlinear_arith)
        requires
            fit_numer(s).1 == (1 * sum_xy(s).1) * (sum_x(s).1 * sum_y(s).1),
            sum_xy(s).1 == mm,
            sum_x(s).1 == m1,
            sum_y(s).1 == m2,
            mm == m1 * m2,
    ;
    assert(fit_denom(s).0 == (e * e) * (m1 * m1)) by (nonlinear_arith)
        requires
            fit_denom(s).0 == (n * sum_xx(s).0) * (sum_x(s).1 * sum_x(s).1) - (sum_x(s).0 * sum_x(
                s,
            ).0) * (1 * sum_xx(s).1),
            n == 2,
            sum_xx(s).0 == u * u + v * v,
            sum_xx(s).1 == m1 * m1,
            sum_x(s).0 == u + v,
            sum_x(s).1 == m1,
            e == u - v,
    ;
    assert(fit_denom(s).1 == (m1 * m1) * (m1 * m1)) by (nonlinear_arith)
        requires
            fit_denom(s).1 == (1 * sum_xx(s).1) * (sum_x(s).1 * sum_x(s).1),
            sum_xx(s).1 == m1 * m1,
            sum_x(s).1 == m1,
    ;
    // the denominator is a square, so the quotient takes its first branch
    assert((e * e) * (m1 * m1) >= 0) by (nonlinear_arith);
    assert(fit_denom(s).0 >= 0);
    let sl0: int = ols_slope(s).0;
    let sl1: int = ols_slope(s).1;
    assert(sl0 == fit_numer(s).0 * fit_denom(s).1 && sl1 == fit_numer(s).1 * fit_denom(s).0);
    let kk: int = mm * ((m1 * m1) * (m1 * m1));
    let ll: int = mm * (mm * (m1 * m1));
    assert(sl0 == (e * g) * kk) by (nonlinear_arith)
        requires
            sl0 == fit_numer(s).0 * fit_denom(s).1,
            fit_numer(s).0 == (e * g) * mm,
            fit_denom(s).1 == (m1 * m1) * (m1 * m1),
            kk == mm * ((m1 * m1) * (m1 * m1)),
    ;
    assert(sl1 == (e * e) * ll) by (nonlinear_arith)
        requires
            sl1 == fit_numer(s).1 * fit_denom(s).0,
            fit_numer(s).1 == mm * mm,
            fit_denom(s).0 == (e * e) * (m1 * m1),
            ll == mm * (mm * (m1 * m1)),
    ;
    assert(m2 * kk == m1 * ll) by (nonlinear_arith)
        requires
            kk == mm * ((m1 * m1) * (m1 * m1)),
            ll == mm * (mm * (m1 * m1)),
            mm == m1 * m2,
    ;
    // the intercept: (sum_y - slope * sum_x) / n
    let tnum = q_sub(sum_y(s), q_mul(ols_slope(s), sum_x(s)));
    assert(ols_intercept(s) == q_div(tnum, q_int(n)));
    assert(tnum.0 == sum_y(s).0 * (sl1 * sum_x(s).1) - (sl0 * sum_x(s).0) * sum_y(s).1);
    assert(tnum.1 == sum_y(s).1 * (sl1 * sum_x(s).1));
    let t0: int = tnum.0;
    assert(t0 == (w + z) * (sl1 * m1) - (sl0 * (u + v)) * m2);
    assert(tnum.1 == m2 * (sl1 * m1));
    let ic0: int = ols_intercept(s).0;
    let ic1: int = ols_intercept(s).1;
    assert(n >= 0);
    assert(ic0 == tnum.0 * 1 && ic1 == tnum.1 * n);
    assert(ic0 == t0 && ic1 == 2 * (m2 * (sl1 * m1))) by (nonlinear_arith)
        requires
            ic0 == tnum.0 * 1,
            ic1 == tnum.1 * n,
            tnum.0 == t0,
            tnum.1 == m2 * (sl1 * m1),
            n == 2,
    ;
    // residual at the first sample
    let lhs_a = q_add(q_mul(f.slope.q(), s[0].x.q()), f.intercept.q());
    assert(lhs_a.0 == (sl0 * a0) * ic1 + ic0 * (sl1 * a1));
    assert(lhs_a.1 == (sl1 * a1) * ic1);
    let q1: int = m2 * (sl1 * m1);
    assert(ic1 == 2 * q1);
    let rr: int = (m2 * m1) * (a0 * sl0);
    let inner0: int = 2 * rr + t0 * a1;
    lemma_two_shift(sl0 * a0, q1);
    assert((sl0 * a0) * q1 == sl1 * rr) by (nonlinear_arith)
        requires
            q1 == m2 * (sl1 * m1),
            rr == (m2 * m1) * (a0 * sl0),
    ;
    lemma_rot(sl1, t0, a1);
    assert(sl1 * inner0 == sl1 * (2 * rr) + sl1 * (t0 * a1)) by (nonlinear_arith)
        requires
            inner0 == 2 * rr + t0 * a1,
    ;
    lemma_two_shift(sl1, rr);
    assert(lhs_a.0 == sl1 * inner0);
    // the running factor shared by every term of the residual numerator
    let bb: int = e * (ll * m1);
    assert(rr == (m2 * m1) * (a0 * ((e * g) * kk)));
    assert((m2 * m1) * (a0 * ((e * g) * kk)) == (((a0 * g) * e) * m1) * (m2 * kk))
        by (nonlinear_arith);
    assert((((a0 * g) * e) * m1) * (m2 * kk) == (((a0 * g) * e) * m1) * (m1 * ll));
    assert((((a0 * g) * e) * m1) * (m1 * ll) == ((a0 * m1) * g) * (e * (ll * m1)))
        by (nonlinear_arith);
    assert(rr == ((a0 * m1) * g) * bb);
    let t0b: int = ((w + z) * (sl1 * m1)) * a1;
    let t0c2: int = ((sl0 * (u + v)) * m2) * a1;
    lemma_dist_sub_r((w + z) * (sl1 * m1), (sl0 * (u + v)) * m2, a1);
    assert(t0 * a1 == t0b - t0c2);
    assert(((w + z) * (((e * e) * ll) * m1)) * a1 == ((a1 * e) * (w + z)) * (e * (ll * m1)))
        by (nonlinear_arith);
    assert(t0b == ((a1 * e) * (w + z)) * bb);
    assert(((((e * g) * kk) * (u + v)) * m2) * a1 == (((u + v) * a1) * (e * g)) * (kk * m2))
        by (nonlinear_arith);
    assert((((u + v) * a1) * (e * g)) * (m1 * ll) == (((u + v) * a1) * g) * (e * (ll * m1)))
        by (nonlinear_arith);
    assert(t0c2 == (((u + v) * a1) * g) * bb);
    let br0: int = (2 * (a0 * m1)) * g + (a1 * e) * (w + z) - ((u + v) * a1) * g;
    lemma_dist3(bb, (2 * (a0 * m1)) * g, (a1 * e) * (w + z), ((u + v) * a1) * g);
    assert(bb * ((2 * (a0 * m1)) * g) == 2 * rr) by (nonlinear_arith)
        requires
            rr == ((a0 * m1) * g) * bb,
    ;
    assert(bb * ((a1 * e) * (w + z)) == t0b);
    assert(bb * (((u + v) * a1) * g) == t0c2);
    assert(inner0 == bb * br0);
    assert(2 * (a0 * m1) - (u + v) * a1 == a1 * e) by (nonlinear_arith)
        requires
            m1 == a1 * c1,
            u == a0 * c1,
            v == c0 * a1,
            e == u - v,
    ;
    assert(br0 == (a1 * e) * (2 * w)) by (nonlinear_arith)
        requires
            br0 == (2 * (a0 * m1)) * g + (a1 * e) * (w + z) - ((u + v) * a1) * g,
            2 * (a0 * m1) - (u + v) * a1 == a1 * e,
            g == w - z,
    ;
    assert(lhs_a.0 == sl1 * ((e * (ll * m1)) * ((a1 * e) * (2 * (b0 * d1)))));
    assert(lhs_a.1 == (sl1 * a1) * (2 * ((b1 * d1) * (sl1 * m1))));
    assert((e * (ll * m1)) * e == sl1 * m1) by (nonlinear_arith)
        requires
            sl1 == (e * e) * ll,
    ;
    assert(lhs_a.0 * b1 == ((sl1 * a1) * ((2 * (b0 * d1)) * b1)) * ((e * (ll * m1))
        * e)) by (nonlinear_arith)
        requires
            lhs_a.0 == sl1 * ((e * (ll * m1)) * ((a1 * e) * (2 * (b0 * d1)))),
    ;
    assert(b0 * lhs_a.1 == ((sl1 * a1) * ((2 * (b0 * d1)) * b1)) * (sl1 * m1)) by (nonlinear_arith)
        requires
            lhs_a.1 == (sl1 * a1) * (2 * ((b1 * d1) * (sl1 * m1))),
    ;
    assert(lhs_a.0 * b1 == b0 * lhs_a.1);
    assert(q_eq(lhs_a, s[0].y.q()));
    // residual at the second sample
    let lhs_c = q_add(q_mul(f.slope.q(), s[1].x.q()), f.intercept.q());
    assert(lhs_c.0 == (sl0 * c0) * ic1 + ic0 * (sl1 * c1));
    assert(lhs_c.1 == (sl1 * c1) * ic1);
    let rr1: int = (m2 * m1) * (c0 * sl0);
    let inner1: int = 2 * rr1 + t0 * c1;
    lemma_two_shift(sl0 * c0, q1);
    assert((sl0 * c0) * q1 == sl1 * rr1) by (nonlinear_arith)
        requires
            q1 == m2 * (sl1 * m1),
            rr1 == (m2 * m1) * (c0 * sl0),
    ;
    lemma_rot(sl1, t0, c1);
    assert(sl1 * inner1 == sl1 * (2 * rr1) + sl1 * (t0 * c1)) by (nonlinear_arith)
        requires
            inner1 == 2 * rr1 + t0 * c1,
    ;
    lemma_two_shift(sl1, rr1);
    assert(lhs_c.0 == sl1 * inner1);
    assert(rr1 == (m2 * m1) * (c0 * ((e * g) * kk)));
    assert((m2 * m1) * (c0 * ((e * g) * kk)) == (((c0 * g) * e) * m1) * (m2 * kk))
        by (nonlinear_arith);
    assert((((c0 * g) * e) * m1) * (m2 * kk) == (((c0 * g) * e) * m1) * (m1 * ll));
    assert((((c0 * g) * e) * m1) * (m1 * ll) == ((c0 * m1) * g) * (e * (ll * m1)))
        by (nonlinear_arith);
    assert(rr1 == ((c0 * m1) * g) * bb);
    let t1b: int = ((w + z) * (sl1 * m1)) * c1;
    let t1c: int = ((sl0 * (u + v)) * m2) * c1;
    lemma_dist_sub_r((w + z) * (sl1 * m1), (sl0 * (u + v)) * m2, c1);
    assert(t0 * c1 == t1b - t1c);
    assert(((w + z) * (((e * e) * ll) * m1)) * c1 == ((c1 * e) * (w + z)) * (e * (ll * m1)))
        by (nonlinear_arith);
    assert(t1b == ((c1 * e) * (w + z)) * bb);
    assert(((((e * g) * kk) * (u + v)) * m2) * c1 == (((u + v) * c1) * (e * g)) * (kk * m2))
        by (nonlinear_arith);
    assert((((u + v) * c1) * (e * g)) * (m1 * ll) == (((u + v) * c1) * g) * (e * (ll * m1)))
        by (nonlinear_arith);
    assert(t1c == (((u + v) * c1) * g) * bb);
    let br1: int = (2 * (c0 * m1)) * g + (c1 * e) * (w + z) - ((u + v) * c1) * g;
    lemma_dist3(bb, (2 * (c0 * m1)) * g, (c1 * e) * (w + z), ((u + v) * c1) * g);
    assert(bb * ((2 * (c0 * m1)) * g) == 2 * rr1) by (nonlinear_arith)
        requires
            rr1 == ((c0 * m1) * g) * bb,
    ;
    assert(bb * ((c1 * e) * (w + z)) == t1b);
    assert(bb * (((u + v) * c1) * g) == t1c);
    assert(inner1 == bb * br1);
    assert(2 * (c0 * m1) - (u + v) * c1 == -(c1 * e)) by (nonlinear_arith)
        requires
            m1 == a1 * c1,
            u == a0 * c1,
            v == c0 * a1,
            e == u - v,
    ;
    assert(br1 == (c1 * e) * (2 * z)) by (nonlinear_arith)
        requires
            br1 == (2 * (c0 * m1)) * g + (c1 * e) * (w + z) - ((u + v) * c1) * g,
            2 * (c0 * m1) - (u + v) * c1 == -(c1 * e),
            g == w - z,
    ;
    assert(lhs_c.0 == sl1 * ((e * (ll * m1)) * ((c1 * e) * (2 * (d0 * b1)))));
    assert(lhs_c.1 == (sl1 * c1) * (2 * ((b1 * d1) * (sl1 * m1))));
    assert(lhs_c.0 * d1 == ((sl1 * c1) * ((2 * (d0 * b1)) * d1)) * ((e * (ll * m1))
        * e)) by (nonlinear_arith)
        requires
            lhs_c.0 == sl1 * ((e * (ll * m1)) * ((c1 * e) * (2 * (d0 * b1)))),
    ;
    assert(d0 * lhs_c.1 == ((sl1 * c1) * ((2 * (d0 * b1)) * d1)) * (sl1 * m1)) by (nonlinear_arith)
        requires
            lhs_c.1 == (sl1 * c1) * (2 * ((b1 * d1) * (sl1 * m1))),
    ;
    assert(lhs_c.0 * d1 == d0 * lhs_c.1);
    assert(q_eq(lhs_c, s[1].y.q()));
}

} // verus!
