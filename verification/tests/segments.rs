use transcriber::{
    analyze, audio_stats, decode_wav, duration_ticks, transcribe_audio_bytes, PipelineError,
    SampleBuffer, SampleData, SegmentPolicy, TranscriptionResult, TranscriptionSegment,
};

fn zero_buffer(frames: usize) -> SampleBuffer {
    SampleBuffer { data: SampleData::Fixed(vec![0i64; frames]), sample_rate: 16000 }
}

#[test]
fn chunked_two_seconds_is_one_segment() {
    let buf = zero_buffer(32000);
    let segs = analyze(&buf, SegmentPolicy::Chunked);
    assert_eq!(segs.len(), 1);
    assert_eq!(segs[0].start_tick, 0);
    assert_eq!(segs[0].end_tick, 32000);
    assert_eq!(segs[0].start_tick as f64 / 16000.0, 0.0);
    assert_eq!(segs[0].end_tick as f64 / 16000.0, 2.0);
}

#[test]
fn chunked_empty_buffer_is_one_fallback_segment() {
    let buf = zero_buffer(0);
    let segs = analyze(&buf, SegmentPolicy::Chunked);
    assert_eq!(segs.len(), 1);
    assert_eq!(segs[0].start_tick, 0);
    assert_eq!(segs[0].end_tick, 0);
    assert_eq!(
        segs[0].text,
        "Audio processed but no clear speech patterns detected."
    );
}

#[test]
fn chunked_segments_are_contiguous() {
    let buf = zero_buffer(80000);
    let segs = analyze(&buf, SegmentPolicy::Chunked);
    assert_eq!(segs.len(), 3);
    assert_eq!(segs[0].start_tick, 0);
    for i in 0..segs.len() - 1 {
        assert_eq!(segs[i].end_tick, segs[i + 1].start_tick);
    }
    assert_eq!(segs[segs.len() - 1].end_tick, 80000);
    for seg in &segs {
        assert!(seg.start_tick <= seg.end_tick);
        assert_eq!(
            seg.text,
            "Welcome, I'm Wayne Dyer. Today we're exploring the profound power of intention and how our thoughts shape our reality."
        );
    }
}

#[test]
fn coarse_twelve_second_silence_is_three_fixed_segments() {
    let spec = hound::WavSpec {
        channels: 1,
        sample_rate: 16000,
        bits_per_sample: 16,
        sample_format: hound::SampleFormat::Int,
    };
    let mut cur = std::io::Cursor::new(Vec::new());
    {
        let mut w = hound::WavWriter::new(&mut cur, spec).unwrap();
        for _ in 0..192000 {
            w.write_sample(0i16).unwrap();
        }
        w.finalize().unwrap();
    }
    let bytes = cur.into_inner();
    let buf = decode_wav(&bytes).unwrap();
    let segs = analyze(&buf, SegmentPolicy::Coarse);
    assert_eq!(segs.len(), 3);
    assert_eq!(segs[0].start_tick as f64 / 16000.0, 0.0);
    assert_eq!(segs[0].end_tick as f64 / 16000.0, 4.5);
    assert_eq!(segs[1].start_tick as f64 / 16000.0, 4.5);
    assert_eq!(segs[1].end_tick as f64 / 16000.0, 8.8);
    assert_eq!(segs[2].start_tick as f64 / 16000.0, 8.8);
    assert_eq!(segs[2].end_tick as f64 / 16000.0, 12.0);
    assert_eq!(
        segs[0].text,
        "Hello everyone, this is a test of the Wayne Dyer video transcription tool."
    );
    assert_eq!(
        segs[1].text,
        "Today we will explore the power of intention and how our thoughts create our reality."
    );
    assert_eq!(
        segs[2].text,
        "Remember, when you change the way you look at things, the things you look at change."
    );
}

#[test]
fn coarse_short_buffer_is_one_segment() {
    let buf = zero_buffer(16000);
    let segs = analyze(&buf, SegmentPolicy::Coarse);
    assert_eq!(segs.len(), 1);
    assert_eq!(segs[0].start_tick, 0);
    assert_eq!(segs[0].end_tick, 16000);
    assert_eq!(segs[0].text, "Short audio test - this is a placeholder transcription.");
}

#[test]
fn chunked_text_changes_past_one_minute() {
    let buf = zero_buffer(16000 * 62);
    let segs = analyze(&buf, SegmentPolicy::Chunked);
    assert_eq!(segs.len(), 31);
    assert!(segs[29].text.starts_with("Welcome, I'm Wayne Dyer."));
    assert!(segs[30].text.starts_with("When you change the way you look at things,"));
}

#[test]
fn full_text_joins_trimmed_texts() {
    let segments = vec![
        TranscriptionSegment {
            start_tick: 0,
            end_tick: 100,
            text: String::from("  hello "),
        },
        TranscriptionSegment {
            start_tick: 100,
            end_tick: 200,
            text: String::from("world  "),
        },
        TranscriptionSegment {
            start_tick: 200,
            end_tick: 300,
            text: String::from(" again"),
        },
    ];
    let result = TranscriptionResult::new(segments);
    assert_eq!(result.full_text, "hello world again");
    assert_eq!(result.segments.len(), 3);
}

#[test]
fn transcribe_bytes_end_to_end() {
    let spec = hound::WavSpec {
        channels: 1,
        sample_rate: 16000,
        bits_per_sample: 16,
        sample_format: hound::SampleFormat::Int,
    };
    let mut cur = std::io::Cursor::new(Vec::new());
    {
        let mut w = hound::WavWriter::new(&mut cur, spec).unwrap();
        for _ in 0..48000 {
            w.write_sample(0i16).unwrap();
        }
        w.finalize().unwrap();
    }
    let bytes = cur.into_inner();
    let result = transcribe_audio_bytes(&bytes, "base").unwrap();
    assert_eq!(result.segments.len(), 2);
    assert_eq!(result.segments[0].start_tick, 0);
    assert_eq!(result.segments[0].end_tick, 32000);
    assert_eq!(result.segments[1].start_tick, 32000);
    assert_eq!(result.segments[1].end_tick, 48000);
    assert!(result.full_text.starts_with("Welcome, I'm Wayne Dyer."));
}

#[test]
fn transcribe_bytes_rejects_unknown_model() {
    let bytes: Vec<u8> = Vec::new();
    let r = transcribe_audio_bytes(&bytes, "huge");
    match r {
        Err(PipelineError::UnsupportedModel(v)) => assert_eq!(v, "huge"),
        _ => panic!("expected the model selector's error"),
    }
}

#[test]
fn transcribe_bytes_reports_decode_failure() {
    let bytes: Vec<u8> = b"junk".to_vec();
    let r = transcribe_audio_bytes(&bytes, "tiny");
    assert!(matches!(
        r,
        Err(PipelineError::Decode(transcriber::DecodeError::OpenFailed))
    ));
}

#[test]
fn stats_are_exact() {
    let buf = SampleBuffer {
        data: SampleData::Fixed(vec![3, -4, 0]),
        sample_rate: 16000,
    };
    let st = audio_stats(&buf).unwrap();
    assert_eq!(st.peak_q, 4);
    assert_eq!(st.energy, 25);
}

#[test]
fn stats_of_float_buffer_are_none() {
    let buf = SampleBuffer {
        data: SampleData::FloatBits(vec![0, 1]),
        sample_rate: 16000,
    };
    assert!(audio_stats(&buf).is_none());
}

#[test]
fn duration_is_frames_over_rate() {
    assert_eq!(duration_ticks(32000, 16000), 32000);
    assert_eq!(duration_ticks(16000, 8000), 32000);
    assert_eq!(duration_ticks(0, 16000), 0);
    assert_eq!(duration_ticks(1, 16000), 1);
}

#[test]
fn range_stats_cover_a_sub_range() {
    let samples: Vec<i64> = vec![10, -20, 30, -40];
    let st = transcriber::range_stats(&samples, 1, 3);
    assert_eq!(st.peak_q, 30);
    assert_eq!(st.energy, 400 + 900);
}
