use vstd::prelude::*;

verus! {

/// Failure taxonomy of the analysis pipeline.
#[derive(Clone, Copy, Debug, PartialEq, Eq, Structural)]
pub enum AnalysisError {
    /// A fit window selects fewer than two samples.
    InsufficientData,
    /// The x-values of a fit window have zero variance, so the
    /// least-squares system has no unique solution.
    SingularFit,
    /// The parameter formulas hit a zero denominator or a negative value
    /// under the square root.
    DegenerateParameters,
    /// An exact intermediate value has no representation with `i128`
    /// components; the idealized computation itself is not at fault.
    OutOfRange,
}

impl AnalysisError {
    /// A short description of the failure.
    pub fn describe(&self) -> (r: &'static str)
    {
        match self {
            AnalysisError::InsufficientData => "fit window selects fewer than two samples",
            AnalysisError::SingularFit => "fit window has zero variance in x",
            AnalysisError::DegenerateParameters => "parameter formulas are degenerate",
            AnalysisError::OutOfRange => "exact value does not fit the machine range",
        }
    }
}

} // verus!
