use vstd::prelude::*;
use crate::fit::Sample;
use crate::ratio::{Ratio, q_eq, q_zero};

verus! {

/// The sample's bias voltage is exactly zero.
pub open spec fn zero_x(s: Sample) -> bool {
    q_eq(s.x.q(), q_zero())
}

/// The current measured at zero bias, together with its provenance:
/// `defaulted` says whether the value is the explicit fallback `0` used
/// when no sample has x exactly equal to zero.
#[derive(Clone, Copy, Debug, PartialEq, Eq, Structural)]
pub struct ReferenceLevel {
    pub value: Ratio,
    pub defaulted: bool,
}

/// `r` is the zero-bias reference of `s`: the y-value of the first sample
/// whose x is exactly zero, or the flagged fallback zero when no sample
/// has x equal to zero.
pub open spec fn is_reference_level(s: Seq<Sample>, r: ReferenceLevel) -> bool {
    &&& r.value.wf()
    &&& (r.defaulted <==> (forall|i: int| 0 <= i < s.len() ==> !zero_x(#[trigger] s[i])))
    &&& (r.defaulted ==> r.value.q() == q_zero())
    &&& (!r.defaulted ==> exists|i: int|
        {
            &&& 0 <= i < s.len()
            &&& zero_x(#[trigger] s[i])
            &&& r.value == s[i].y
            &&& (forall|j: int| 0 <= j < i ==> !zero_x(#[trigger] s[j]))
        })
}

/// Scans for the first sample whose x equals zero exactly and returns its
/// y; when there is none, returns zero with the `defaulted` flag set, so
/// the pipeline can continue while the caller sees the degraded state.
pub fn reference_level(samples: &Vec<Sample>) -> (r: ReferenceLevel)
    requires
        forall|i: int| 0 <= i < samples@.len() ==> (#[trigger] samples@[i]).wf(),
    ensures
        is_reference_level(samples@, r),
{
    let mut i: usize = 0;
    while i < samples.len()
        invariant
            i <= samples@.len(),
            forall|k: int| 0 <= k < samples@.len() ==> (#[trigger] samples@[k]).wf(),
            forall|j: int| 0 <= j < i ==> !zero_x(#[trigger] samples@[j]),
        decreases samples@.len() - i,
    {
        if samples[i].x.num == 0 {
            return ReferenceLevel { value: samples[i].y, defaulted: false };
        }
        i += 1;
    }
    ReferenceLevel { value: Ratio::from_int(0), defaulted: true }
}

} // verus!
