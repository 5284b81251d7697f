//! Streaming estimation of quantiles and of equiprobable histogram
//! boundaries with the piecewise-parabolic marker algorithm.
//!
//! Observations are ordered integer keys. The arithmetic that proposes a new
//! height for a marker is supplied by the caller through [`Interpolate`];
//! everything that decides where a marker stands, how it is counted and
//! whether a proposal is taken is decided here.

pub mod histogram;
pub mod keys;
pub mod laws;
pub mod markers;
pub mod quantile;
pub mod refusal;

pub use histogram::Histogram;
pub use markers::{Interpolate, InvalidMarker, Markers, Proposal, Shift, State, Stencil};
pub use quantile::Quantile;
