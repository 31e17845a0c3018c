//! Verified bookkeeping of the spar heave-pitch simulation: the segment
//! schedule of the Welch spectral estimator and the sample decimation of the
//! phase portrait.

pub mod plotting;
pub mod psd;
