use vstd::prelude::*;
use crate::error::AnalysisError;
use crate::ratio::{Ratio, q_add, q_mul, q_div, q_zero, q_int, q_eq, q_lt, q_add_ok, q_mul_ok, q_div_ok};

verus! {

/// Denominator of the rational square-root approximation: results carry
/// nine fractional decimal digits.
pub const SQRT_SCALE: i128 = 1_000_000_000;

/// Coefficient of the electron-density formula: 3e21.
pub const DENSITY_COEFF: i128 = 3_000_000_000_000_000_000_000;

/// Coefficient of the density normalization: 2.5e22.
pub const NORM_COEFF: i128 = 25_000_000_000_000_000_000_000;

/// `r` is the integer square root of `v`: the largest integer whose
/// square does not exceed `v`.
pub open spec fn is_isqrt(v: int, r: int) -> bool {
    &&& 0 <= r
    &&& r * r <= v
    &&& v < (r + 1) * (r + 1)
}

/// Two integer square roots of the same value are equal.
pub proof fn lemma_isqrt_unique(v: int, r1: int, r2: int)
    requires
        is_isqrt(v, r1),
        is_isqrt(v, r2),
    ensures
        r1 == r2,
{
    assert(r1 == r2) by (nonlinear_arith)
        requires
            0 <= r1,
            0 <= r2,
            r1 * r1 <= v,
            v < (r1 + 1) * (r1 + 1),
            r2 * r2 <= v,
            v < (r2 + 1) * (r2 + 1),
    ;
}

/// Floor of `a * SQRT_SCALE * SQRT_SCALE` for a rational pair `a` with a
/// positive denominator.
pub open spec fn floor_scaled(a: (int, int)) -> int {
    (a.0 * (SQRT_SCALE as int) * (SQRT_SCALE as int)) / a.1
}

/// Integer square root by binary search.
pub fn isqrt(v: u128) -> (r: u64)
    ensures
        is_isqrt(v as int, r as int),
{
    let mut lo: u64 = 0;
    let mut hi: u64 = u64::MAX;
    proof {
        assert((hi as int + 1) * (hi as int + 1) > u128::MAX as int) by (nonlinear_arith)
            requires
                hi == u64::MAX,
        ;
    }
    while lo < hi
        invariant
            lo <= hi,
            (lo as int) * (lo as int) <= v as int,
            (v as int) < (hi as int + 1) * (hi as int + 1),
        decreases hi - lo,
    {
        let mid = hi - (hi - lo) / 2;
        let too_big = match (mid as u128).checked_mul(mid as u128) {
            Some(sq) => sq > v,
            None => true,
        };
        if too_big {
            hi = mid - 1;
        } else {
            lo = mid;
        }
    }
    lo
}

/// Rational approximation of the square root of a nonnegative rational:
/// the integer square root of `a` scaled by `SQRT_SCALE * SQRT_SCALE`,
/// over the denominator `SQRT_SCALE`; exact to one part in `SQRT_SCALE`.
pub fn sqrt_scaled(a: Ratio) -> (r: Option<Ratio>)
    requires
        a.wf(),
        a.num >= 0,
    ensures
        r matches Some(s) ==> {
            &&& s.wf()
            &&& s.num >= 0
            &&& s.den == SQRT_SCALE
            &&& is_isqrt(floor_scaled(a.q()), s.num as int)
        },
        r is Some <==> a.num as int * (SQRT_SCALE as int) * (SQRT_SCALE as int) <= i128::MAX,
{
    let t = match a.num.checked_mul(SQRT_SCALE) {
        Some(v) => v,
        None => {
            proof {
                assert(a.num as int * (SQRT_SCALE as int) * (SQRT_SCALE as int) > i128::MAX)
                    by (nonlinear_arith)
                    requires
                        a.num >= 0,
                        a.num as int * (SQRT_SCALE as int) > i128::MAX,
                ;
            }
            return None;
        },
    };
    let t2 = match t.checked_mul(SQRT_SCALE) {
        Some(v) => v,
        None => {
            return None;
        },
    };
    proof {
        assert(t2 >= 0) by (nonlinear_arith)
            requires
                a.num >= 0,
                t == a.num as int * (SQRT_SCALE as int),
                t2 == t as int * (SQRT_SCALE as int),
        ;
    }
    let v = (t2 as u128) / (a.den as u128);
    let s0 = isqrt(v);
    Some(Ratio { num: s0 as i128, den: SQRT_SCALE })
}

/// Plasma parameters derived from the two fitted intercepts and the
/// zero-bias reference current.
#[derive(Clone, Copy, Debug, PartialEq, Eq, Structural)]
pub struct PlasmaParams {
    pub electron_temp: Ratio,
    pub electron_density: Ratio,
    pub density: Ratio,
}

/// Electron temperature formula: `((i_sp * i_sn) / (i_sp + i_sn)) / d_i`.
pub open spec fn temp_spec(i_sp: (int, int), i_sn: (int, int), d_i: (int, int)) -> (int, int) {
    q_div(q_div(q_mul(i_sp, i_sn), q_add(i_sp, i_sn)), d_i)
}

/// The inputs on which the closed-form parameter formulas hit a zero
/// denominator or a negative value under the square root: intercepts
/// summing to zero, a zero reference current, a negative or zero electron
/// temperature, or a zero probe constant.
pub open spec fn params_degenerate(
    i_sp: (int, int),
    i_sn: (int, int),
    d_i: (int, int),
    p: (int, int),
) -> bool {
    ||| q_eq(q_add(i_sp, i_sn), q_zero())
    ||| q_eq(d_i, q_zero())
    ||| q_lt(temp_spec(i_sp, i_sn, d_i), q_zero())
    ||| q_eq(temp_spec(i_sp, i_sn, d_i), q_zero())
    ||| q_eq(p, q_zero())
}

/// `pp` holds the derived parameters: the electron temperature exactly,
/// and the densities computed from the scaled square-root approximation
/// `s0 / SQRT_SCALE` of that temperature:
/// `electron_density = 3e21 * (i_sp + i_sn) / sqrt(temp)` and
/// `density = electron_density / (2.5e22 * p)`.
pub open spec fn is_params(
    i_sp: (int, int),
    i_sn: (int, int),
    d_i: (int, int),
    p: (int, int),
    pp: PlasmaParams,
) -> bool {
    &&& pp.electron_temp.wf()
    &&& pp.electron_density.wf()
    &&& pp.density.wf()
    &&& pp.electron_temp.q() == temp_spec(i_sp, i_sn, d_i)
    &&& exists|s0: int|
        {
            &&& #[trigger] is_isqrt(floor_scaled(temp_spec(i_sp, i_sn, d_i)), s0)
            &&& s0 >= 1
            &&& pp.electron_density.q() == q_div(
                q_mul(q_int(DENSITY_COEFF as int), q_add(i_sp, i_sn)),
                (s0, SQRT_SCALE as int),
            )
            &&& pp.density.q() == q_div(
                pp.electron_density.q(),
                q_mul(q_int(NORM_COEFF as int), p),
            )
        }
}

/// The density computation stays in machine range when the scaled square
/// root of the temperature is `s0 / SQRT_SCALE`.
pub open spec fn density_ok(s: (int, int), p: (int, int), s0: int) -> bool {
    let e = q_div(q_mul(q_int(DENSITY_COEFF as int), s), (s0, SQRT_SCALE as int));
    &&& q_mul_ok(q_int(DENSITY_COEFF as int), s)
    &&& q_div_ok(q_mul(q_int(DENSITY_COEFF as int), s), (s0, SQRT_SCALE as int))
    &&& q_mul_ok(q_int(NORM_COEFF as int), p)
    &&& q_div_ok(e, q_mul(q_int(NORM_COEFF as int), p))
}

/// The complete outcome of deriving the parameters from
/// `(i_sp, i_sn, d_i, p)`: the degenerate error exactly on the degenerate
/// inputs, the machine-range error exactly when an exact intermediate
/// leaves `i128` or the temperature falls below the square root's
/// resolution, and otherwise the owed record.
pub open spec fn estimate_outcome(
    f: (int, int),
    t: (int, int),
    d: (int, int),
    p: (int, int),
    r: Result<PlasmaParams, AnalysisError>,
) -> bool {
    let s = q_add(f, t);
    let ft = q_mul(f, t);
    let te = temp_spec(f, t, d);
    if !q_add_ok(f, t) {
        r == Result::<PlasmaParams, AnalysisError>::Err(AnalysisError::OutOfRange)
    } else if q_eq(s, q_zero()) || q_eq(d, q_zero()) {
        r == Result::<PlasmaParams, AnalysisError>::Err(AnalysisError::DegenerateParameters)
    } else if !q_mul_ok(f, t) || !q_div_ok(ft, s) || !q_div_ok(q_div(ft, s), d) {
        r == Result::<PlasmaParams, AnalysisError>::Err(AnalysisError::OutOfRange)
    } else if q_lt(te, q_zero()) || q_eq(te, q_zero()) || q_eq(p, q_zero()) {
        r == Result::<PlasmaParams, AnalysisError>::Err(AnalysisError::DegenerateParameters)
    } else if te.0 * (SQRT_SCALE as int) * (SQRT_SCALE as int) > i128::MAX || floor_scaled(te)
        < 1 {
        r == Result::<PlasmaParams, AnalysisError>::Err(AnalysisError::OutOfRange)
    } else if forall|s0: int| #[trigger]
        is_isqrt(floor_scaled(te), s0) ==> !density_ok(s, p, s0) {
        r == Result::<PlasmaParams, AnalysisError>::Err(AnalysisError::OutOfRange)
    } else {
        r matches Ok(pp) && is_params(f, t, d, p, pp)
    }
}

/// What deriving the parameters from `(i_sp, i_sn, d_i, p)` may return:
/// the derived record on non-degenerate inputs, `DegenerateParameters`
/// exactly on the degenerate ones, and `OutOfRange` only when an exact
/// intermediate leaves the machine range.
pub open spec fn params_outcome(
    i_sp: (int, int),
    i_sn: (int, int),
    d_i: (int, int),
    p: (int, int),
    r: Result<PlasmaParams, AnalysisError>,
) -> bool {
    &&& (r matches Ok(pp) ==> !params_degenerate(i_sp, i_sn, d_i, p) && is_params(
        i_sp,
        i_sn,
        d_i,
        p,
        pp,
    ))
    &&& (r == Result::<PlasmaParams, AnalysisError>::Err(AnalysisError::DegenerateParameters)
        ==> params_degenerate(i_sp, i_sn, d_i, p))
    &&& (r matches Err(e) ==> e == AnalysisError::DegenerateParameters || e
        == AnalysisError::OutOfRange)
    &&& (r != Result::<PlasmaParams, AnalysisError>::Err(AnalysisError::OutOfRange) ==> (r
        == Result::<PlasmaParams, AnalysisError>::Err(AnalysisError::DegenerateParameters)
        <==> params_degenerate(i_sp, i_sn, d_i, p)))
}

impl PlasmaParams {
    /// Derives the plasma parameters from the front intercept `i_sp`, the
    /// tail intercept `i_sn`, the zero-bias reference current `d_i` and
    /// the probe constant `p`, in exact rational arithmetic except for the
    /// square root, which is approximated to one part in `SQRT_SCALE`.
    pub fn new(i_sp: Ratio, i_sn: Ratio, d_i: Ratio, p: Ratio) -> (r: Result<
        PlasmaParams,
        AnalysisError,
    >)
        requires
            i_sp.wf(),
            i_sn.wf(),
            d_i.wf(),
            p.wf(),
        ensures
            params_outcome(i_sp.q(), i_sn.q(), d_i.q(), p.q(), r),
            estimate_outcome(i_sp.q(), i_sn.q(), d_i.q(), p.q(), r),
    {
        let s = match i_sp.add(i_sn) {
            Some(v) => v,
            None => {
                return Err(AnalysisError::OutOfRange);
            },
        };
        proof {
            crate::ratio::lemma_q_eq_zero(q_add(i_sp.q(), i_sn.q()));
            crate::ratio::lemma_q_eq_zero(d_i.q());
            crate::ratio::lemma_q_eq_zero(p.q());
            crate::ratio::lemma_q_eq_zero(temp_spec(i_sp.q(), i_sn.q(), d_i.q()));
            crate::ratio::lemma_q_lt_zero(temp_spec(i_sp.q(), i_sn.q(), d_i.q()));
        }
        if s.num == 0 {
            return Err(AnalysisError::DegenerateParameters);
        }
        if d_i.num == 0 {
            return Err(AnalysisError::DegenerateParameters);
        }
        let ft = match i_sp.mul(i_sn) {
            Some(v) => v,
            None => {
                return Err(AnalysisError::OutOfRange);
            },
        };
        let t1 = match ft.div(s) {
            Some(v) => v,
            None => {
                return Err(AnalysisError::OutOfRange);
            },
        };
        let te = match t1.div(d_i) {
            Some(v) => v,
            None => {
                return Err(AnalysisError::OutOfRange);
            },
        };
        if te.num < 0 {
            return Err(AnalysisError::DegenerateParameters);
        }
        if te.num == 0 {
            return Err(AnalysisError::DegenerateParameters);
        }
        if p.num == 0 {
            return Err(AnalysisError::DegenerateParameters);
        }
        proof {
            assert(te.q() == temp_spec(i_sp.q(), i_sn.q(), d_i.q()));
        }
        let sq = match sqrt_scaled(te) {
            Some(v) => v,
            None => {
                return Err(AnalysisError::OutOfRange);
            },
        };
        if sq.num == 0 {
            proof {
                assert((0 + 1) * (0 + 1) == 1) by (nonlinear_arith);
                assert(floor_scaled(temp_spec(i_sp.q(), i_sn.q(), d_i.q())) < 1);
            }
            return Err(AnalysisError::OutOfRange);
        }
        proof {
            assert(floor_scaled(temp_spec(i_sp.q(), i_sn.q(), d_i.q())) >= 1) by (nonlinear_arith)
                requires
                    1 <= sq.num as int,
                    (sq.num as int) * (sq.num as int) <= floor_scaled(
                        temp_spec(i_sp.q(), i_sn.q(), d_i.q()),
                    ),
            ;
        }
        let coeff = Ratio::from_int(DENSITY_COEFF);
        let num1 = match coeff.mul(s) {
            Some(v) => v,
            None => {
                proof {
                    let fl = floor_scaled(temp_spec(i_sp.q(), i_sn.q(), d_i.q()));
                    assert forall|s0: int| #[trigger]
                        is_isqrt(fl, s0) implies !density_ok(
                        q_add(i_sp.q(), i_sn.q()),
                        p.q(),
                        s0,
                    ) by {
                        lemma_isqrt_unique(fl, s0, sq.num as int);
                    }
                }
                return Err(AnalysisError::OutOfRange);
            },
        };
        let e_dens = match num1.div(sq) {
            Some(v) => v,
            None => {
                proof {
                    let fl = floor_scaled(temp_spec(i_sp.q(), i_sn.q(), d_i.q()));
                    assert forall|s0: int| #[trigger]
                        is_isqrt(fl, s0) implies !density_ok(
                        q_add(i_sp.q(), i_sn.q()),
                        p.q(),
                        s0,
                    ) by {
                        lemma_isqrt_unique(fl, s0, sq.num as int);
                    }
                }
                return Err(AnalysisError::OutOfRange);
            },
        };
        let nc = match Ratio::from_int(NORM_COEFF).mul(p) {
            Some(v) => v,
            None => {
                proof {
                    let fl = floor_scaled(temp_spec(i_sp.q(), i_sn.q(), d_i.q()));
                    assert forall|s0: int| #[trigger]
                        is_isqrt(fl, s0) implies !density_ok(
                        q_add(i_sp.q(), i_sn.q()),
                        p.q(),
                        s0,
                    ) by {
                        lemma_isqrt_unique(fl, s0, sq.num as int);
                    }
                }
                return Err(AnalysisError::OutOfRange);
            },
        };
        proof {
            assert(NORM_COEFF as int * p.num as int != 0) by (nonlinear_arith)
                requires
                    p.num != 0,
            ;
        }
        let dens = match e_dens.div(nc) {
            Some(v) => v,
            None => {
                proof {
                    let fl = floor_scaled(temp_spec(i_sp.q(), i_sn.q(), d_i.q()));
                    assert forall|s0: int| #[trigger]
                        is_isqrt(fl, s0) implies !density_ok(
                        q_add(i_sp.q(), i_sn.q()),
                        p.q(),
                        s0,
                    ) by {
                        lemma_isqrt_unique(fl, s0, sq.num as int);
                    }
                }
                return Err(AnalysisError::OutOfRange);
            },
        };
        let pp = PlasmaParams { electron_temp: te, electron_density: e_dens, density: dens };
        proof {
            assert(!params_degenerate(i_sp.q(), i_sn.q(), d_i.q(), p.q()));
            let fl = floor_scaled(temp_spec(i_sp.q(), i_sn.q(), d_i.q()));
            assert(is_isqrt(fl, sq.num as int));
            assert(is_params(i_sp.q(), i_sn.q(), d_i.q(), p.q(), pp));
            assert(density_ok(q_add(i_sp.q(), i_sn.q()), p.q(), sq.num as int));
            if forall|s0: int| #[trigger]
                is_isqrt(fl, s0) ==> !density_ok(q_add(i_sp.q(), i_sn.q()), p.q(), s0) {
                assert(!density_ok(q_add(i_sp.q(), i_sn.q()), p.q(), sq.num as int));
                assert(false);
            }
        }
        Ok(pp)
    }
}

} // verus!
