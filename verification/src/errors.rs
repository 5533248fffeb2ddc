use vstd::prelude::*;

verus! {

/// Failures of the audio-extraction stage, in the order they are detected:
/// a missing input file, a transcoder that exited non-zero (carrying its
/// captured standard-error text), an output file that was never created, and
/// an output file of zero length.
#[derive(Debug, Clone)]
pub enum ExtractionError {
    InputNotFound,
    TranscodeFailed(String),
    OutputMissing,
    OutputEmpty,
}

/// Failures of the PCM decoding stage: a container that cannot be parsed,
/// a sample that fails to decode mid-stream (the whole decode is then
/// abandoned), and an integer bit depth outside {16, 24, 32}.
#[derive(Debug, Clone, Copy, PartialEq, Eq, Structural)]
pub enum DecodeError {
    OpenFailed,
    SampleReadFailed,
    UnsupportedBitDepth(u16),
}

/// First failure of a pipeline run, tagged with the stage that produced it.
/// `UnsupportedModel` carries the model name that was rejected.
#[derive(Debug, Clone)]
pub enum PipelineError {
    UnsupportedModel(String),
    Extraction(ExtractionError),
    Decode(DecodeError),
}

} // verus!
