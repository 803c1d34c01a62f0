//! The computational core of an instrument tuner.
//!
//! Samples of any integer encoding are normalised to exact fractions of the
//! encoding's range, frames are reduced to one amplitude, the most recent
//! amplitudes are kept in a sliding window, the dominant bin of a spectrum
//! is selected, and a position on the twelve-tone scale is spelled as an
//! octave, a note and an accidental.
//!
//! Everything here is integer arithmetic. Whatever needs floating point (the
//! transform itself, logarithms of a frequency) is left to the caller, which
//! hands the library integers and receives integers back.

pub mod analyser;
pub mod frame;
pub mod input;
pub mod normalize;
pub mod note;
pub mod sample;
pub mod text;
pub mod window;
