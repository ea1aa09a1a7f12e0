use vstd::prelude::*;
use crate::error::AnalysisError;
use crate::fit::{LinearFit, Sample};
use crate::ratio::{Ratio, q_add, q_mul, q_add_ok, q_mul_ok};

verus! {

/// `c` reconstructs the line `f` over `domain`: it has the same length
/// and the same x-values, and `y = slope * x + intercept` at every index.
pub open spec fn is_reconstruction(domain: Seq<Ratio>, f: LinearFit, c: Seq<Sample>) -> bool {
    &&& c.len() == domain.len()
    &&& forall|i: int|
        0 <= i < domain.len() ==> {
            &&& (#[trigger] c[i]).x == domain[i]
            &&& c[i].y.q() == q_add(q_mul(f.slope.q(), domain[i].q()), f.intercept.q())
            &&& c[i].wf()
        }
}

/// Every fitted value over `domain` stays exactly representable: the
/// condition under which reconstruction succeeds.
pub open spec fn curve_ok(domain: Seq<Ratio>, slope: (int, int), intercept: (int, int)) -> bool {
    forall|i: int|
        0 <= i < domain.len() ==> {
            &&& q_mul_ok(slope, (#[trigger] domain[i]).q())
            &&& q_add_ok(q_mul(slope, domain[i].q()), intercept)
        }
}

/// Recomputes the fitted y-value at every x of `domain`, producing a
/// curve spanning the whole domain for comparison against the raw trace.
pub fn reconstruct(domain: &Vec<Ratio>, f: &LinearFit) -> (r: Result<Vec<Sample>, AnalysisError>)
    requires
        f.wf(),
        forall|i: int| 0 <= i < domain@.len() ==> (#[trigger] domain@[i]).wf(),
    ensures
        r matches Ok(c) ==> is_reconstruction(domain@, *f, c@),
        r matches Err(e) ==> e == AnalysisError::OutOfRange,
        r is Ok <==> curve_ok(domain@, f.slope.q(), f.intercept.q()),
{
    let mut c: Vec<Sample> = Vec::new();
    let mut i: usize = 0;
    while i < domain.len()
        invariant
            i <= domain@.len(),
            f.wf(),
            forall|k: int| 0 <= k < domain@.len() ==> (#[trigger] domain@[k]).wf(),
            c@.len() == i as int,
            forall|k: int|
                0 <= k < i ==> {
                    &&& q_mul_ok(f.slope.q(), (#[trigger] domain@[k]).q())
                    &&& q_add_ok(q_mul(f.slope.q(), domain@[k].q()), f.intercept.q())
                },
            forall|k: int|
                0 <= k < i ==> {
                    &&& (#[trigger] c@[k]).x == domain@[k]
                    &&& c@[k].y.q() == q_add(q_mul(f.slope.q(), domain@[k].q()), f.intercept.q())
                    &&& c@[k].wf()
                },
        decreases domain@.len() - i,
    {
        let x = domain[i];
        let t = match f.slope.mul(x) {
            Some(v) => v,
            None => {
                proof {
                    if curve_ok(domain@, f.slope.q(), f.intercept.q()) {
                        assert(q_mul_ok(f.slope.q(), domain@[i as int].q()));
                        assert(false);
                    }
                }
                return Err(AnalysisError::OutOfRange);
            },
        };
        let y = match t.add(f.intercept) {
            Some(v) => v,
            None => {
                proof {
                    if curve_ok(domain@, f.slope.q(), f.intercept.q()) {
                        assert(q_add_ok(q_mul(f.slope.q(), domain@[i as int].q()), f.intercept.q()));
                        assert(false);
                    }
                }
                return Err(AnalysisError::OutOfRange);
            },
        };
        c.push(Sample { x, y });
        i += 1;
    }
    Ok(c)
}

} // verus!
