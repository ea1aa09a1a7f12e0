//! Analysis core for a Langmuir-probe voltage/current sweep.
//!
//! The library works on exact rational numbers: it fits two linear regimes
//! to an ordered sample sequence by ordinary least squares, reconstructs the
//! fitted lines over the full domain, looks up the probe current at zero
//! bias, and derives plasma parameters (electron temperature and density)
//! from the fitted intercepts in closed form.

pub mod curve;
pub mod error;
pub mod fit;
pub mod laws;
pub mod params;
pub mod pipeline;
pub mod ratio;
pub mod reference;
