//! Audio assembly pipeline for phoneme-based speech synthesis.
//!
//! The library covers the verified core of the pipeline: splitting a
//! sentence into words, extracting phoneme tokens from predictor output,
//! mapping tokens to clip file names, decoding and encoding PCM wave
//! containers, and concatenating decoded waveforms into one composition.

pub mod bytes;
pub mod compose;
pub mod pipeline;
pub mod resolver;
pub mod segmenter;
pub mod tokenizer;
pub mod wave;

use vstd::prelude::*;

verus! {

/// The errors the audio pipeline can report.
#[derive(Clone, Copy, Debug, PartialEq, Eq, Structural)]
pub enum WaveError {
    /// A wave container is malformed: bad header, unsupported format tag,
    /// or declared data length beyond the available bytes.
    FormatError,
    /// Two waveforms in one composition disagree on sample rate,
    /// channel count, or bit depth.
    FormatMismatch,
    /// A composition was requested over zero waveforms.
    EmptyComposition,
}

} // verus!
