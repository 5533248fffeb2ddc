mod analyze;
mod decode;
mod errors;
mod extract;
mod model;
mod stats;
mod text;
mod transcript;

pub use analyze::{
    analyze, analyze_chunked, analyze_coarse, duration_ticks, lemma_segments_contiguous, SegView,
    SegmentPolicy, TranscriptionSegment, TICKS_PER_SECOND,
};
pub use decode::{
    decode_wav, lemma_normalization_exact, lemma_scale_exact, BufView, SampleBuffer, SampleData,
    SampleSeq,
};
pub use errors::{DecodeError, ExtractionError, PipelineError};
pub use extract::{
    check_extraction_input, check_extraction_output, format_i64, format_u64, is_supported_format,
    media_extension, media_file_stem, probe_warns, temp_audio_filename, transcoder_args,
};
pub use model::WhisperModel;
pub use stats::{audio_stats, range_stats, AudioStats};
pub use text::{eq_ignore_ascii_case, trim_str};
pub use transcript::{full_text_of, transcribe_audio_bytes, TranscriptionResult};
