//! Decisions of frequency-domain gravitational-wave models of compact-binary
//! coalescences, proved on the encodings of binary64 numbers.
//!
//! The models evaluate closed-form expressions in binary64 arithmetic. What they decide
//! along the way is exact: which of the three frequency regions a frequency falls in, which
//! form the peak-frequency expression takes, whether a set of source parameters describes a
//! binary at all, and whether a strain sample is a usable number. Those decisions are the
//! subject of this crate.

pub mod binary64;
pub mod imrphenomd;
pub mod pn;
pub mod waveform;
