use vstd::prelude::*;

use crate::decode::SampleBuffer;
use vstd::string::StringExecFns;

verus! {

/// Time is measured in ticks of 1/16000 second, so that sample frames at the
/// pipeline's canonical 16 kHz rate convert to time exactly: at 16 kHz a
/// frame is one tick, and the policy boundaries (4.5 s, 8.8 s, 2 s chunks,
/// the minute-scale text thresholds) are whole numbers of ticks.
pub const TICKS_PER_SECOND: u64 = 16000;

/// A buffer's estimated duration in ticks: `frames * 16000 / rate`,
/// saturating at the largest representable time.
pub open spec fn dur_ticks_spec(frames: int, rate: int) -> int {
    let d = frames * 16000 / rate;
    if d > u64::MAX {
        u64::MAX as int
    } else {
        d
    }
}

/// Estimated duration of `frames` frames at `sample_rate` in ticks.
pub fn duration_ticks(frames: usize, sample_rate: u32) -> (d: u64)
    requires
        sample_rate >= 1,
    ensures
        d == dur_ticks_spec(frames as int, sample_rate as int),
{
    let wide = (frames as u128) * 16000 / (sample_rate as u128);
    if wide > u64::MAX as u128 {
        u64::MAX
    } else {
        wide as u64
    }
}

// ---------------------------------------------------------------------------
// Segments
// ---------------------------------------------------------------------------

/// One time-bounded piece of the transcript: start and end time in ticks,
/// and the text assigned to it.
#[derive(Debug, Clone)]
pub struct TranscriptionSegment {
    pub start_tick: u64,
    pub end_tick: u64,
    pub text: String,
}

/// What a segment denotes: its boundaries in ticks and its text.
pub struct SegView {
    pub start: int,
    pub end: int,
    pub text: Seq<char>,
}

impl View for TranscriptionSegment {
    type V = SegView;

    open spec fn view(&self) -> SegView {
        SegView { start: self.start_tick as int, end: self.end_tick as int, text: self.text@ }
    }
}

/// The two deterministic, side-effect-free segmentation strategies: a
/// duration-only split, and an amplitude-aware chunked walk.
#[derive(Debug, Clone, Copy, PartialEq, Eq, Structural)]
pub enum SegmentPolicy {
    Coarse,
    Chunked,
}

// ---------------------------------------------------------------------------
// The coarse policy
// ---------------------------------------------------------------------------

/// The coarse split: past ten seconds, three fixed segments at 0-4.5 s,
/// 4.5-8.8 s and 8.8 s-end; otherwise one segment spanning the whole
/// duration.
pub open spec fn coarse_segments_spec(dur: int) -> Seq<SegView> {
    if dur > 160000 {
        seq![
            SegView {
                start: 0,
                end: 72000,
                text: "Hello everyone, this is a test of the Wayne Dyer video transcription tool."@,
            },
            SegView {
                start: 72000,
                end: 140800,
                text: "Today we will explore the power of intention and how our thoughts create our reality."@,
            },
            SegView {
                start: 140800,
                end: dur,
                text: "Remember, when you change the way you look at things, the things you look at change."@,
            },
        ]
    } else {
        seq![
            SegView {
                start: 0,
                end: dur,
                text: "Short audio test - this is a placeholder transcription."@,
            },
        ]
    }
}

/// Splits a buffer by duration alone, exactly as `coarse_segments_spec`
/// states.
pub fn analyze_coarse(buf: &SampleBuffer) -> (segs: Vec<TranscriptionSegment>)
    ensures
        segs@.map_values(|s: TranscriptionSegment| s@) == coarse_segments_spec(
            dur_ticks_spec(buf.spec_frames() as int, 16000),
        ),
{
    let frames = buf.frames();
    let dur = duration_ticks(frames, 16000);
    let mut segs: Vec<TranscriptionSegment> = Vec::new();
    if dur > 160000 {
        segs.push(
            TranscriptionSegment {
                start_tick: 0,
                end_tick: 72000,
                text: String::from_str(
                    "Hello everyone, this is a test of the Wayne Dyer video transcription tool.",
                ),
            },
        );
        segs.push(
            TranscriptionSegment {
                start_tick: 72000,
                end_tick: 140800,
                text: String::from_str(
                    "Today we will explore the power of intention and how our thoughts create our reality.",
                ),
            },
        );
        segs.push(
            TranscriptionSegment {
                start_tick: 140800,
                end_tick: dur,
                text: String::from_str(
                    "Remember, when you change the way you look at things, the things you look at change.",
                ),
            },
        );
    } else {
        segs.push(
            TranscriptionSegment {
                start_tick: 0,
                end_tick: dur,
                text: String::from_str(
                    "Short audio test - this is a placeholder transcription.",
                ),
            },
        );
    }
    proof {
        assert(segs@.map_values(|s: TranscriptionSegment| s@) =~= coarse_segments_spec(
            dur_ticks_spec(buf.spec_frames() as int, 16000),
        ));
    }
    segs
}

// ---------------------------------------------------------------------------
// The chunked policy
// ---------------------------------------------------------------------------

/// The text assigned to a chunk, keyed on its start time by ascending
/// minute-scale thresholds (60, 120, 240, 360, 480 and 600 seconds, in
/// ticks), with a final catch-all block.
pub open spec fn chunk_text_spec(start: int) -> Seq<char> {
    if start < 960000 {
        "Welcome, I'm Wayne Dyer. Today we're exploring the profound power of intention and how our thoughts shape our reality."@
    } else if start < 1920000 {
        "When you change the way you look at things, the things you look at change. This is not just a philosophy, it's a practical truth."@
    } else if start < 3840000 {
        "Your intentions create your reality. Every thought you have is contributing to what shows up in your life."@
    } else if start < 5760000 {
        "We are not human beings having a spiritual experience. We are spiritual beings having a human experience."@
    } else if start < 7680000 {
        "The highest form of ignorance is rejecting something you know nothing about. Open your mind to infinite possibilities."@
    } else if start < 9600000 {
        "Your purpose in life is to serve. When you serve from love, you connect with the power of intention."@
    } else {
        "Remember that you have the power within you to create the life you desire. Trust in the process and align with your highest self."@
    }
}

fn chunk_text(start: u64) -> (t: String)
    ensures
        t@ == chunk_text_spec(start as int),
{
    if start < 960000 {
        String::from_str(
            "Welcome, I'm Wayne Dyer. Today we're exploring the profound power of intention and how our thoughts shape our reality.",
        )
    } else if start < 1920000 {
        String::from_str(
            "When you change the way you look at things, the things you look at change. This is not just a philosophy, it's a practical truth.",
        )
    } else if start < 3840000 {
        String::from_str(
            "Your intentions create your reality. Every thought you have is contributing to what shows up in your life.",
        )
    } else if start < 5760000 {
        String::from_str(
            "We are not human beings having a spiritual experience. We are spiritual beings having a human experience.",
        )
    } else if start < 7680000 {
        String::from_str(
            "The highest form of ignorance is rejecting something you know nothing about. Open your mind to infinite possibilities.",
        )
    } else if start < 9600000 {
        String::from_str(
            "Your purpose in life is to serve. When you serve from love, you connect with the power of intention.",
        )
    } else {
        String::from_str(
            "Remember that you have the power within you to create the life you desire. Trust in the process and align with your highest self.",
        )
    }
}

/// The fallback text when a buffer yields no chunks at all.
pub open spec fn fallback_text_spec() -> Seq<char> {
    "Audio processed but no clear speech patterns detected."@
}

/// Where the chunk starting at `t` ends: two seconds on, clamped to the
/// total duration.
pub open spec fn chunk_end(t: int, dur: int) -> int {
    if t + 32000 <= dur {
        t + 32000
    } else {
        dur
    }
}

/// The number of whole 32000-sample chunks a buffer splits into, the last
/// one possibly short.
pub open spec fn num_chunks(frames: int) -> int {
    frames / 32000 + if frames % 32000 == 0 {
        0int
    } else {
        1int
    }
}

/// The chunk walk from time `t` with `k` chunks left: each chunk becomes a
/// segment ending two seconds on (clamped to the duration) whose text is
/// keyed on its start time; the walk stops after the segment that reaches
/// the duration.
pub open spec fn chunked_from(t: int, k: nat, dur: int) -> Seq<SegView>
    decreases k,
{
    if k == 0 {
        Seq::empty()
    } else {
        let e = chunk_end(t, dur);
        let seg = SegView { start: t, end: e, text: chunk_text_spec(t) };
        if e >= dur {
            seq![seg]
        } else {
            seq![seg] + chunked_from(e, (k - 1) as nat, dur)
        }
    }
}

/// The chunked split of a whole buffer; a buffer with no chunks yields one
/// fallback segment spanning the whole (zero-frame) duration.
pub open spec fn chunked_segments_spec(frames: int, dur: int) -> Seq<SegView> {
    let s = chunked_from(0, num_chunks(frames) as nat, dur);
    if s.len() == 0 {
        seq![SegView { start: 0, end: dur, text: fallback_text_spec() }]
    } else {
        s
    }
}

/// Splits a buffer into two-second chunks, exactly as
/// `chunked_segments_spec` states.
pub fn analyze_chunked(buf: &SampleBuffer) -> (segs: Vec<TranscriptionSegment>)
    ensures
        segs@.map_values(|s: TranscriptionSegment| s@) == chunked_segments_spec(
            buf.spec_frames() as int,
            dur_ticks_spec(buf.spec_frames() as int, 16000),
        ),
{
    let frames = buf.frames();
    let dur = duration_ticks(frames, 16000);
    let n: usize = frames / 32000 + if frames % 32000 == 0 {
        0
    } else {
        1
    };
    let ghost dur_i = dur as int;
    let ghost full = chunked_from(0, n as nat, dur_i);
    let mut segs: Vec<TranscriptionSegment> = Vec::new();
    let mut c: usize = 0;
    let mut t: u64 = 0;
    let mut done = false;
    while c < n && !done
        invariant
            c <= n,
            t <= dur,
            dur_i == dur as int,
            full == chunked_from(0, n as nat, dur_i),
            !done ==> full == segs@.map_values(|s: TranscriptionSegment| s@) + chunked_from(
                t as int,
                (n - c) as nat,
                dur_i,
            ),
            done ==> full == segs@.map_values(|s: TranscriptionSegment| s@),
            done ==> segs@.len() > 0,
        decreases n - c,
    {
        let e = if dur - t > 32000 {
            t + 32000
        } else {
            dur
        };
        let ghost prev = segs@.map_values(|s: TranscriptionSegment| s@);
        let text = chunk_text(t);
        let seg = TranscriptionSegment { start_tick: t, end_tick: e, text };
        let ghost segv = seg@;
        segs.push(seg);
        proof {
            assert(e as int == chunk_end(t as int, dur_i));
            assert(segv == SegView {
                start: t as int,
                end: e as int,
                text: chunk_text_spec(t as int),
            });
            assert(segs@.map_values(|s: TranscriptionSegment| s@) =~= prev.push(segv));
            let rest = chunked_from(t as int, (n - c) as nat, dur_i);
            if e >= dur {
                assert(rest =~= seq![segv]);
                assert(full =~= prev.push(segv));
            } else {
                assert(rest =~= seq![segv] + chunked_from(e as int, (n - c - 1) as nat, dur_i));
                assert(full =~= prev.push(segv) + chunked_from(e as int, (n - c - 1) as nat, dur_i));
            }
        }
        if e >= dur {
            done = true;
        }
        t = e;
        c += 1;
    }
    if segs.len() == 0 {
        proof {
            assert(full =~= Seq::<SegView>::empty());
        }
        segs.push(
            TranscriptionSegment {
                start_tick: 0,
                end_tick: dur,
                text: String::from_str(
                    "Audio processed but no clear speech patterns detected.",
                ),
            },
        );
    }
    proof {
        if !done {
            assert(chunked_from(t as int, (n - c) as nat, dur_i) =~= Seq::<SegView>::empty());
        }
        assert(segs@.map_values(|s: TranscriptionSegment| s@) =~= chunked_segments_spec(
            buf.spec_frames() as int,
            dur_ticks_spec(buf.spec_frames() as int, 16000),
        ));
    }
    segs
}

// ---------------------------------------------------------------------------
// The analyzer
// ---------------------------------------------------------------------------

/// What analyzing a buffer of `frames` frames yields under each policy.
/// The analyzer estimates duration at the pipeline's canonical 16 kHz rate,
/// whatever rate the buffer's header carried.
pub open spec fn analyze_spec(frames: int, policy: SegmentPolicy) -> Seq<SegView> {
    let dur = dur_ticks_spec(frames, 16000);
    match policy {
        SegmentPolicy::Coarse => coarse_segments_spec(dur),
        SegmentPolicy::Chunked => chunked_segments_spec(frames, dur),
    }
}

/// Partitions a buffer into time-bounded segments under the chosen policy,
/// exactly as `analyze_spec` states; total over every buffer, including the
/// empty one.
pub fn analyze(buf: &SampleBuffer, policy: SegmentPolicy) -> (segs: Vec<TranscriptionSegment>)
    ensures
        segs@.map_values(|s: TranscriptionSegment| s@) == analyze_spec(
            buf.spec_frames() as int,
            policy,
        ),
{
    let segs = match policy {
        SegmentPolicy::Coarse => analyze_coarse(buf),
        SegmentPolicy::Chunked => analyze_chunked(buf),
    };
    proof {
        assert(segs@.map_values(|s: TranscriptionSegment| s@) =~= analyze_spec(
            buf.spec_frames() as int,
            policy,
        ));
    }
    segs
}

// ---------------------------------------------------------------------------
// Shape of every analysis
// ---------------------------------------------------------------------------

proof fn lemma_chunked_from_shape(t: int, k: nat, dur: int)
    requires
        0 <= t <= dur,
        k >= 1,
    ensures
        ({
            let s = chunked_from(t, k, dur);
            &&& s.len() >= 1
            &&& s[0].start == t
            &&& (forall|i: int| 0 <= i < s.len() - 1 ==> #[trigger] s[i].end == s[i + 1].start)
            &&& (forall|i: int| 0 <= i < s.len() ==> #[trigger] s[i].start <= s[i].end)
            &&& s.last().end == if t + 32000 * k >= dur {
                dur
            } else {
                t + 32000 * k
            }
        }),
    decreases k,
{
    let s = chunked_from(t, k, dur);
    let e = chunk_end(t, dur);
    let seg = SegView { start: t, end: e, text: chunk_text_spec(t) };
    if e >= dur {
        assert(s =~= seq![seg]);
        assert(s.last() == seg);
    } else if k == 1 {
        assert(s =~= seq![seg] + chunked_from(e, 0, dur));
        assert(chunked_from(e, 0, dur) =~= Seq::<SegView>::empty());
        assert(s.last() == seg);
        assert(e == t + 32000);
    } else {
        lemma_chunked_from_shape(e, (k - 1) as nat, dur);
        let r = chunked_from(e, (k - 1) as nat, dur);
        assert(s == seq![SegView { start: t, end: e, text: chunk_text_spec(t) }] + r);
        assert(forall|i: int| 1 <= i < s.len() ==> s[i] == r[i - 1]);
        assert(e + 32000 * (k - 1) == t + 32000 * k) by {
            assert(e == t + 32000);
        }
    }
}

/// The shape every analysis at the canonical 16 kHz rate has: at least one
/// segment, the first starting at time zero, each segment ending where the
/// next begins and no earlier than it starts, and the last ending exactly at
/// the buffer's duration.
pub proof fn lemma_segments_contiguous(frames: int, policy: SegmentPolicy)
    requires
        0 <= frames <= u64::MAX,
    ensures
        ({
            let segs = analyze_spec(frames, policy);
            let dur = dur_ticks_spec(frames, 16000);
            &&& segs.len() >= 1
            &&& segs[0].start == 0
            &&& (forall|i: int|
                0 <= i < segs.len() - 1 ==> #[trigger] segs[i].end == segs[i + 1].start)
            &&& (forall|i: int| 0 <= i < segs.len() ==> #[trigger] segs[i].start <= segs[i].end)
            &&& segs.last().end == dur
        }),
{
    let dur = dur_ticks_spec(frames, 16000);
    assert(dur == frames);
    match policy {
        SegmentPolicy::Coarse => {
        }
        SegmentPolicy::Chunked => {
            let k = num_chunks(frames);
            if k == 0 {
                assert(frames == 0);
            } else {
                assert(32000 * k >= frames);
                lemma_chunked_from_shape(0, k as nat, dur);
            }
        }
    }
}

} // verus!
