use vstd::prelude::*;

use crate::analyze::{analyze, analyze_spec, SegView, SegmentPolicy, TranscriptionSegment};
use crate::decode::{decode_spec, decode_wav, view_frames, BufView};
use crate::errors::{DecodeError, PipelineError};
use crate::model::{model_for, WhisperModel};
use crate::text::{join_trimmed, lemma_join_trimmed_push, trim_str};
use vstd::string::StringExecFns;

verus! {

/// The texts of a segment sequence, in order.
pub open spec fn seg_texts(segs: Seq<SegView>) -> Seq<Seq<char>> {
    segs.map_values(|s: SegView| s.text)
}

/// A whole transcript: its ordered segments, and the derived full text,
/// which is the space-joined concatenation of the individually trimmed
/// segment texts, in segment order.
#[derive(Debug)]
pub struct TranscriptionResult {
    pub segments: Vec<TranscriptionSegment>,
    pub full_text: String,
}

/// The space-joined concatenation of the trimmed segment texts, in order.
pub fn full_text_of(segs: &Vec<TranscriptionSegment>) -> (r: String)
    ensures
        r@ == join_trimmed(seg_texts(segs@.map_values(|s: TranscriptionSegment| s@))),
{
    let mut acc = String::new();
    let mut i: usize = 0;
    while i < segs.len()
        invariant
            i <= segs@.len(),
            acc@ == join_trimmed(
                seg_texts(segs@.subrange(0, i as int).map_values(|s: TranscriptionSegment| s@)),
            ),
        decreases segs@.len() - i,
    {
        let piece = trim_str(segs[i].text.as_str());
        if i > 0 {
            acc.append(" ");
        }
        acc.append(piece);
        proof {
            let prefix = seg_texts(
                segs@.subrange(0, i as int).map_values(|s: TranscriptionSegment| s@),
            );
            lemma_join_trimmed_push(prefix, segs@[i as int]@.text);
            assert(seg_texts(
                segs@.subrange(0, i + 1).map_values(|s: TranscriptionSegment| s@),
            ) =~= prefix.push(segs@[i as int]@.text));
            reveal_strlit(" ");
            assert(" "@ =~= seq![' ']);
            assert(acc@ =~= join_trimmed(prefix.push(segs@[i as int]@.text)));
        }
        i += 1;
    }
    proof {
        assert(segs@.subrange(0, segs@.len() as int) =~= segs@);
    }
    acc
}

impl TranscriptionResult {
    /// Builds the result owning the segments, deriving the full text from
    /// them: each text trimmed, joined with single spaces, in order.
    pub fn new(segments: Vec<TranscriptionSegment>) -> (r: TranscriptionResult)
        ensures
            r.segments == segments,
            r.full_text@ == join_trimmed(
                seg_texts(segments@.map_values(|s: TranscriptionSegment| s@)),
            ),
    {
        let full_text = full_text_of(&segments);
        TranscriptionResult { segments, full_text }
    }
}

/// Runs the computational body of a pipeline run on a WAV byte stream:
/// validates the model selector, decodes the stream, analyzes the buffer
/// under the chunked policy, and aggregates the full text. Fails with the
/// selector's error on an unknown model, and with the decoder's error,
/// stage-tagged, when decoding fails; the analyzer itself cannot fail.
pub fn transcribe_audio_bytes(bytes: &Vec<u8>, model_size: &str) -> (r: Result<
    TranscriptionResult,
    PipelineError,
>)
    ensures
        match r {
            Ok(res) => {
                &&& model_for(model_size@) is Some
                &&& decode_spec(bytes@) matches Ok(bv)
                &&& res.segments@.map_values(|s: TranscriptionSegment| s@) == analyze_spec(
                    view_frames(bv),
                    SegmentPolicy::Chunked,
                )
                &&& res.full_text@ == join_trimmed(
                    seg_texts(analyze_spec(view_frames(bv), SegmentPolicy::Chunked)),
                )
            },
            Err(PipelineError::UnsupportedModel(v)) => model_for(model_size@) is None && v@
                == model_size@,
            Err(PipelineError::Decode(e)) => model_for(model_size@) is Some && decode_spec(bytes@)
                == Err::<BufView, DecodeError>(e),
            Err(PipelineError::Extraction(_)) => false,
        },
{
    match WhisperModel::from_str(model_size) {
        Ok(_) => {}
        Err(e) => {
            return Err(e);
        }
    }
    let buf = match decode_wav(bytes) {
        Ok(b) => b,
        Err(e) => {
            return Err(PipelineError::Decode(e));
        }
    };
    let segs = analyze(&buf, SegmentPolicy::Chunked);
    let res = TranscriptionResult::new(segs);
    proof {
        assert(view_frames(buf@) == buf.spec_frames() as int);
    }
    Ok(res)
}

} // verus!
