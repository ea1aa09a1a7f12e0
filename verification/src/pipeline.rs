use vstd::prelude::*;
use crate::curve::{curve_ok, is_reconstruction, reconstruct};
use crate::error::AnalysisError;
use crate::fit::{fit, fit_denom, fit_ranges_ok, fit_solve_ok, is_ols_fit, ols_intercept, ols_slope, LinearFit, Sample, Window};
use crate::params::{estimate_outcome, params_outcome, PlasmaParams};
use crate::ratio::{Ratio, q_eq, q_zero};
use crate::reference::{is_reference_level, reference_level, ReferenceLevel};

verus! {

/// The x-values of a sample sequence, in order.
pub open spec fn domain_of(s: Seq<Sample>) -> Seq<Ratio> {
    Seq::new(s.len(), |i: int| s[i].x)
}

/// Every stage of the pipeline stays within machine range and both
/// windows admit a fit: the condition under which the analysis succeeds.
pub open spec fn analysis_feasible(s: Seq<Sample>, front: Window, tail: Window) -> bool {
    let fwin = s.subrange(front.lo as int, front.hi as int);
    let twin = s.subrange(tail.lo as int, tail.hi as int);
    &&& fwin.len() >= 2
    &&& fit_ranges_ok(fwin)
    &&& !q_eq(fit_denom(fwin), q_zero())
    &&& fit_solve_ok(fwin)
    &&& twin.len() >= 2
    &&& fit_ranges_ok(twin)
    &&& !q_eq(fit_denom(twin), q_zero())
    &&& fit_solve_ok(twin)
    &&& curve_ok(domain_of(s), ols_slope(fwin), ols_intercept(fwin))
    &&& curve_ok(domain_of(s), ols_slope(twin), ols_intercept(twin))
}

/// Everything one sweep analysis produces: the two regime fits, their
/// reconstructions over the full domain, the zero-bias reference, and the
/// derived plasma parameters (kept as a result of their own, since a
/// degenerate estimate does not invalidate the fits and curves).
#[derive(Debug)]
pub struct Analysis {
    pub front_fit: LinearFit,
    pub tail_fit: LinearFit,
    pub front_curve: Vec<Sample>,
    pub tail_curve: Vec<Sample>,
    pub reference: ReferenceLevel,
    pub params: Result<PlasmaParams, AnalysisError>,
}

/// Runs the whole pipeline over one sweep: fits the front and tail
/// windows by least squares, reconstructs both fitted lines over the full
/// domain, looks up the zero-bias reference current, and derives the
/// plasma parameters from the two intercepts, the reference and the probe
/// constant.
pub fn analyze(samples: &Vec<Sample>, front: Window, tail: Window, probe_constant: Ratio) -> (r:
    Result<Analysis, AnalysisError>)
    requires
        front.in_bounds(samples@.len() as int),
        tail.in_bounds(samples@.len() as int),
        probe_constant.wf(),
        forall|i: int| 0 <= i < samples@.len() ==> (#[trigger] samples@[i]).wf(),
    ensures
        ({
            let fwin = samples@.subrange(front.lo as int, front.hi as int);
            let twin = samples@.subrange(tail.lo as int, tail.hi as int);
            &&& (r matches Ok(a) ==> {
                &&& is_ols_fit(fwin, a.front_fit)
                &&& is_ols_fit(twin, a.tail_fit)
                &&& is_reconstruction(domain_of(samples@), a.front_fit, a.front_curve@)
                &&& is_reconstruction(domain_of(samples@), a.tail_fit, a.tail_curve@)
                &&& is_reference_level(samples@, a.reference)
                &&& params_outcome(
                    a.front_fit.intercept.q(),
                    a.tail_fit.intercept.q(),
                    a.reference.value.q(),
                    probe_constant.q(),
                    a.params,
                )
                &&& estimate_outcome(
                    a.front_fit.intercept.q(),
                    a.tail_fit.intercept.q(),
                    a.reference.value.q(),
                    probe_constant.q(),
                    a.params,
                )
            })
            &&& (r is Ok <==> analysis_feasible(samples@, front, tail))
            &&& (front.len() < 2 || tail.len() < 2 ==> r is Err)
            &&& (r matches Err(e) ==> {
                &&& e != AnalysisError::DegenerateParameters
                &&& (e == AnalysisError::InsufficientData ==> front.len() < 2 || tail.len() < 2)
                &&& (e == AnalysisError::SingularFit ==> q_eq(fit_denom(fwin), q_zero()) || q_eq(
                    fit_denom(twin),
                    q_zero(),
                ))
            })
        }),
{
    let front_fit = match fit(samples, front) {
        Ok(f) => f,
        Err(e) => {
            return Err(e);
        },
    };
    let tail_fit = match fit(samples, tail) {
        Ok(f) => f,
        Err(e) => {
            return Err(e);
        },
    };
    let mut xs: Vec<Ratio> = Vec::new();
    let mut i: usize = 0;
    while i < samples.len()
        invariant
            i <= samples@.len(),
            forall|k: int| 0 <= k < samples@.len() ==> (#[trigger] samples@[k]).wf(),
            xs@.len() == i as int,
            forall|k: int| 0 <= k < i ==> xs@[k] == (#[trigger] samples@[k]).x,
        decreases samples@.len() - i,
    {
        let x = samples[i].x;
        xs.push(x);
        i += 1;
    }
    proof {
        assert(xs@ =~= domain_of(samples@));
    }
    let front_curve = match reconstruct(&xs, &front_fit) {
        Ok(c) => c,
        Err(e) => {
            return Err(e);
        },
    };
    let tail_curve = match reconstruct(&xs, &tail_fit) {
        Ok(c) => c,
        Err(e) => {
            return Err(e);
        },
    };
    let reference = reference_level(samples);
    let params = PlasmaParams::new(
        front_fit.intercept,
        tail_fit.intercept,
        reference.value,
        probe_constant,
    );
    Ok(
        Analysis {
            front_fit,
            tail_fit,
            front_curve,
            tail_curve,
            reference,
            params,
        },
    )
}

} // verus!
