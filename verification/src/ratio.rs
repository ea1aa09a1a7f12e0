use vstd::prelude::*;

verus! {

/// An exact rational number `num / den` with a positive denominator.
///
/// All analysis arithmetic is carried out exactly on these values; an
/// operation whose exact result has no representation with `i128`
/// components reports `None` instead of losing precision.
#[derive(Clone, Copy, Debug, PartialEq, Eq, Structural)]
pub struct Ratio {
    pub num: i128,
    pub den: i128,
}

/// Sum of two rationals represented as (numerator, denominator) pairs.
pub open spec fn q_add(a: (int, int), b: (int, int)) -> (int, int) {
    (a.0 * b.1 + b.0 * a.1, a.1 * b.1)
}

/// Difference of two rationals represented as pairs.
pub open spec fn q_sub(a: (int, int), b: (int, int)) -> (int, int) {
    (a.0 * b.1 - b.0 * a.1, a.1 * b.1)
}

/// Product of two rationals represented as pairs.
pub open spec fn q_mul(a: (int, int), b: (int, int)) -> (int, int) {
    (a.0 * b.0, a.1 * b.1)
}

/// Quotient of two rationals represented as pairs, with the sign moved
/// into the numerator so a positive denominator stays positive.
pub open spec fn q_div(a: (int, int), b: (int, int)) -> (int, int) {
    if b.0 >= 0 {
        (a.0 * b.1, a.1 * b.0)
    } else {
        (-(a.0 * b.1), -(a.1 * b.0))
    }
}

/// The rational zero.
pub open spec fn q_zero() -> (int, int) {
    (0, 1)
}

/// The integer `n` as a rational pair.
pub open spec fn q_int(n: int) -> (int, int) {
    (n, 1)
}

/// Value equality of two rational pairs (by cross-multiplication); an
/// equivalence relation as long as both denominators are nonzero.
pub open spec fn q_eq(a: (int, int), b: (int, int)) -> bool {
    a.0 * b.1 == b.0 * a.1
}

/// Strict order on rational pairs; meaningful when both denominators are
/// positive.
pub open spec fn q_lt(a: (int, int), b: (int, int)) -> bool {
    a.0 * b.1 < b.0 * a.1
}

/// Distributivity of multiplication over addition.
proof fn lemma_dist_add(x: int, y: int, t: int)
    by (nonlinear_arith)
    ensures
        (x + y) * t == x * t + y * t,
{
}

/// Distributivity of multiplication over subtraction.
proof fn lemma_dist_sub(x: int, y: int, t: int)
    by (nonlinear_arith)
    ensures
        (x - y) * t == x * t - y * t,
{
}

/// Regrouping a product of two products, inner factors exchanged.
proof fn lemma_swap_inner(x: int, y: int, z: int, w: int)
    by (nonlinear_arith)
    ensures
        (x * y) * (z * w) == (x * z) * (y * w),
{
}

/// Regrouping a product of two products, outer factors exchanged.
proof fn lemma_swap_outer(x: int, y: int, z: int, w: int)
    by (nonlinear_arith)
    ensures
        (x * y) * (z * w) == (x * w) * (y * z),
{
}

/// The exact sum's intermediate products and components all fit `i128`:
/// the condition under which `Ratio::add` succeeds.
pub open spec fn q_add_ok(a: (int, int), b: (int, int)) -> bool {
    &&& i128::MIN <= a.0 * b.1 <= i128::MAX
    &&& i128::MIN <= b.0 * a.1 <= i128::MAX
    &&& i128::MIN <= a.0 * b.1 + b.0 * a.1 <= i128::MAX
    &&& a.1 * b.1 <= i128::MAX
}

/// The exact difference's intermediate products and components all fit
/// `i128`: the condition under which `Ratio::sub` succeeds.
pub open spec fn q_sub_ok(a: (int, int), b: (int, int)) -> bool {
    &&& i128::MIN <= a.0 * b.1 <= i128::MAX
    &&& i128::MIN <= b.0 * a.1 <= i128::MAX
    &&& i128::MIN <= a.0 * b.1 - b.0 * a.1 <= i128::MAX
    &&& a.1 * b.1 <= i128::MAX
}

/// The exact product's components fit `i128`: the condition under which
/// `Ratio::mul` succeeds.
pub open spec fn q_mul_ok(a: (int, int), b: (int, int)) -> bool {
    &&& i128::MIN <= a.0 * b.0 <= i128::MAX
    &&& a.1 * b.1 <= i128::MAX
}

/// The exact quotient's components fit `i128`: the condition under which
/// `Ratio::div` succeeds.
pub open spec fn q_div_ok(a: (int, int), b: (int, int)) -> bool {
    let m = q_div(a, b);
    &&& i128::MIN <= m.0 <= i128::MAX
    &&& m.1 <= i128::MAX
}

/// Value equality of rational pairs is transitive across a middle pair
/// with a nonzero denominator.
pub proof fn lemma_q_eq_trans(a: (int, int), b: (int, int), c: (int, int))
    requires
        b.1 != 0,
        q_eq(a, b),
        q_eq(b, c),
    ensures
        q_eq(a, c),
{
    assert(a.0 * c.1 == c.0 * a.1) by (nonlinear_arith)
        requires
            b.1 != 0,
            a.0 * b.1 == b.0 * a.1,
            b.0 * c.1 == c.0 * b.1,
    ;
}

/// Addition of rational pairs respects value equality.
pub proof fn lemma_q_add_congruence(a: (int, int), a2: (int, int), b: (int, int), b2: (int, int))
    requires
        q_eq(a, a2),
        q_eq(b, b2),
    ensures
        q_eq(q_add(a, b), q_add(a2, b2)),
{
    lemma_dist_add(a.0 * b.1, b.0 * a.1, a2.1 * b2.1);
    lemma_swap_inner(a.0, b.1, a2.1, b2.1);
    lemma_swap_outer(b.0, a.1, a2.1, b2.1);
    lemma_dist_add(a2.0 * b2.1, b2.0 * a2.1, a.1 * b.1);
    lemma_swap_inner(a2.0, b2.1, a.1, b.1);
    lemma_swap_outer(b2.0, a2.1, a.1, b.1);
}

/// Subtraction of rational pairs respects value equality.
pub proof fn lemma_q_sub_congruence(a: (int, int), a2: (int, int), b: (int, int), b2: (int, int))
    requires
        q_eq(a, a2),
        q_eq(b, b2),
    ensures
        q_eq(q_sub(a, b), q_sub(a2, b2)),
{
    lemma_dist_sub(a.0 * b.1, b.0 * a.1, a2.1 * b2.1);
    lemma_swap_inner(a.0, b.1, a2.1, b2.1);
    lemma_swap_outer(b.0, a.1, a2.1, b2.1);
    lemma_dist_sub(a2.0 * b2.1, b2.0 * a2.1, a.1 * b.1);
    lemma_swap_inner(a2.0, b2.1, a.1, b.1);
    lemma_swap_outer(b2.0, a2.1, a.1, b.1);
}

/// Multiplication of rational pairs respects value equality.
pub proof fn lemma_q_mul_congruence(a: (int, int), a2: (int, int), b: (int, int), b2: (int, int))
    requires
        q_eq(a, a2),
        q_eq(b, b2),
    ensures
        q_eq(q_mul(a, b), q_mul(a2, b2)),
{
    assert((a.0 * b.0) * (a2.1 * b2.1) == (a2.0 * b2.0) * (a.1 * b.1)) by (nonlinear_arith)
        requires
            a.0 * a2.1 == a2.0 * a.1,
            b.0 * b2.1 == b2.0 * b.1,
    ;
}

/// A rational pair is zero exactly when its numerator is zero.
pub proof fn lemma_q_eq_zero(a: (int, int))
    ensures
        q_eq(a, q_zero()) <==> a.0 == 0,
{
    assert(a.0 * 1 == a.0) by (nonlinear_arith);
    assert(0 * a.1 == 0) by (nonlinear_arith);
}

/// A rational pair with a positive denominator is negative exactly when
/// its numerator is negative.
pub proof fn lemma_q_lt_zero(a: (int, int))
    ensures
        q_lt(a, q_zero()) <==> a.0 < 0,
{
    assert(a.0 * 1 == a.0) by (nonlinear_arith);
    assert(0 * a.1 == 0) by (nonlinear_arith);
}

impl Ratio {
    /// Mathematical value as a (numerator, denominator) pair.
    pub open spec fn q(self) -> (int, int) {
        (self.num as int, self.den as int)
    }

    /// Well-formed: the denominator is positive.
    pub open spec fn wf(self) -> bool {
        self.den > 0
    }

    /// Builds the rational `num / den`.
    pub fn new(num: i128, den: i128) -> (r: Ratio)
        requires
            den > 0,
        ensures
            r.wf(),
            r.num == num,
            r.den == den,
    {
        Ratio { num, den }
    }

    /// Builds the rational `n / 1`.
    pub fn from_int(n: i128) -> (r: Ratio)
        ensures
            r.wf(),
            r.q() == q_int(n as int),
    {
        Ratio { num: n, den: 1 }
    }

    /// Exact sum; `None` exactly when an intermediate product or the final
    /// numerator does not fit in `i128`.
    pub fn add(self, rhs: Ratio) -> (r: Option<Ratio>)
        requires
            self.wf(),
            rhs.wf(),
        ensures
            r matches Some(v) ==> v.wf() && v.q() == q_add(self.q(), rhs.q()),
            r is Some <==> q_add_ok(self.q(), rhs.q()),
    {
        proof {
            assert(self.den as int * rhs.den as int >= 1) by (nonlinear_arith)
                requires
                    self.den >= 1,
                    rhs.den >= 1,
            ;
        }
        let n1 = match self.num.checked_mul(rhs.den) {
            Some(v) => v,
            None => {
                return None;
            },
        };
        let n2 = match rhs.num.checked_mul(self.den) {
            Some(v) => v,
            None => {
                return None;
            },
        };
        let n = match n1.checked_add(n2) {
            Some(v) => v,
            None => {
                return None;
            },
        };
        let d = match self.den.checked_mul(rhs.den) {
            Some(v) => v,
            None => {
                return None;
            },
        };
        Some(Ratio { num: n, den: d })
    }

    /// Exact difference; `None` exactly when an intermediate product or the
    /// final numerator does not fit in `i128`.
    pub fn sub(self, rhs: Ratio) -> (r: Option<Ratio>)
        requires
            self.wf(),
            rhs.wf(),
        ensures
            r matches Some(v) ==> v.wf() && v.q() == q_sub(self.q(), rhs.q()),
            r is Some <==> q_sub_ok(self.q(), rhs.q()),
    {
        proof {
            assert(self.den as int * rhs.den as int >= 1) by (nonlinear_arith)
                requires
                    self.den >= 1,
                    rhs.den >= 1,
            ;
        }
        let n1 = match self.num.checked_mul(rhs.den) {
            Some(v) => v,
            None => {
                return None;
            },
        };
        let n2 = match rhs.num.checked_mul(self.den) {
            Some(v) => v,
            None => {
                return None;
            },
        };
        let n = match n1.checked_sub(n2) {
            Some(v) => v,
            None => {
                return None;
            },
        };
        let d = match self.den.checked_mul(rhs.den) {
            Some(v) => v,
            None => {
                return None;
            },
        };
        Some(Ratio { num: n, den: d })
    }

    /// Exact product; `None` exactly when a component of the result does
    /// not fit in `i128`.
    pub fn mul(self, rhs: Ratio) -> (r: Option<Ratio>)
        requires
            self.wf(),
            rhs.wf(),
        ensures
            r matches Some(v) ==> v.wf() && v.q() == q_mul(self.q(), rhs.q()),
            r is Some <==> q_mul_ok(self.q(), rhs.q()),
    {
        proof {
            assert(self.den as int * rhs.den as int >= 1) by (nonlinear_arith)
                requires
                    self.den >= 1,
                    rhs.den >= 1,
            ;
        }
        let n = match self.num.checked_mul(rhs.num) {
            Some(v) => v,
            None => {
                return None;
            },
        };
        let d = match self.den.checked_mul(rhs.den) {
            Some(v) => v,
            None => {
                return None;
            },
        };
        Some(Ratio { num: n, den: d })
    }

    /// Exact quotient by a nonzero rational; `None` exactly when a
    /// component of the result does not fit in `i128`.
    pub fn div(self, rhs: Ratio) -> (r: Option<Ratio>)
        requires
            self.wf(),
            rhs.wf(),
            rhs.num != 0,
        ensures
            r matches Some(v) ==> v.wf() && v.q() == q_div(self.q(), rhs.q()),
            r is Some <==> q_div_ok(self.q(), rhs.q()),
    {
        if rhs.num > 0 {
            proof {
                assert(self.den as int * rhs.num as int >= 1) by (nonlinear_arith)
                    requires
                        self.den >= 1,
                        rhs.num >= 1,
                ;
            }
            let n = match self.num.checked_mul(rhs.den) {
                Some(v) => v,
                None => {
                    return None;
                },
            };
            let d = match self.den.checked_mul(rhs.num) {
                Some(v) => v,
                None => {
                    return None;
                },
            };
            Some(Ratio { num: n, den: d })
        } else {
            proof {
                assert((-(self.den as int)) * rhs.num as int >= 1) by (nonlinear_arith)
                    requires
                        self.den >= 1,
                        rhs.num <= -1,
                ;
                assert(self.num as int * (-(rhs.den as int)) == -(self.num as int
                    * rhs.den as int)) by (nonlinear_arith);
                assert((-(self.den as int)) * rhs.num as int == -(self.den as int
                    * rhs.num as int)) by (nonlinear_arith);
            }
            let n = match self.num.checked_mul(-rhs.den) {
                Some(v) => v,
                None => {
                    return None;
                },
            };
            let d = match (-self.den).checked_mul(rhs.num) {
                Some(v) => v,
                None => {
                    return None;
                },
            };
            Some(Ratio { num: n, den: d })
        }
    }
}

} // verus!
