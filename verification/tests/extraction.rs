use transcriber::{
    check_extraction_input, check_extraction_output, eq_ignore_ascii_case, format_i64, format_u64,
    is_supported_format, media_extension, media_file_stem, probe_warns, temp_audio_filename,
    transcoder_args, trim_str, ExtractionError, WhisperModel,
};

#[test]
fn test_temp_audio_path_creation() {
    let video_path = "/path/to/wayne_dyer_video.mp4";
    let stem = media_file_stem(video_path);
    let audio_path = temp_audio_filename(stem.as_str(), 1700000000);
    assert!(audio_path.starts_with("wayne_dyer_video_"));
    assert!(media_extension(audio_path.as_str()).unwrap() == "wav");
}

#[test]
fn temp_filename_formats_token() {
    assert_eq!(temp_audio_filename("clip", 42), "clip_42.wav");
    assert_eq!(temp_audio_filename("clip", 0), "clip_0.wav");
    assert_eq!(temp_audio_filename("clip", -5), "clip_-5.wav");
}

#[test]
fn decimal_formatting_is_exact() {
    assert_eq!(format_u64(0), "0");
    assert_eq!(format_u64(7), "7");
    assert_eq!(format_u64(1234567890), "1234567890");
    assert_eq!(format_u64(u64::MAX), "18446744073709551615");
    assert_eq!(format_i64(-1234), "-1234");
    assert_eq!(format_i64(i64::MIN), "-9223372036854775808");
}

#[test]
fn file_stem_and_extension() {
    assert_eq!(media_file_stem("/a/b/video.mp4"), "video");
    assert_eq!(media_file_stem("video.tar.gz"), "video.tar");
    assert_eq!(media_file_stem("noext"), "noext");
    assert_eq!(media_file_stem("/ends/in/slash/"), "audio_extract");
    assert_eq!(media_extension("/a/b/video.mp4").unwrap(), "mp4");
    assert!(media_extension("noext").is_none());
    assert!(media_extension("/a/.hidden").is_none());
}

#[test]
fn supported_formats_are_case_insensitive() {
    assert!(is_supported_format("mp4"));
    assert!(is_supported_format("MP4"));
    assert!(is_supported_format("FlAc"));
    assert!(is_supported_format("3gp"));
    assert!(!is_supported_format("xyz"));
    assert!(!is_supported_format(""));
}

#[test]
fn probe_warns_only_on_unknown_extensions() {
    assert!(!probe_warns("/a/b.mp4"));
    assert!(!probe_warns("/a/b.WAV"));
    assert!(probe_warns("/a/b.xyz"));
    assert!(!probe_warns("/a/noext"));
}

#[test]
fn transcoder_argument_list_is_exact() {
    let args = transcoder_args("/in/video.mp4", "/tmp/out.wav");
    let expected: Vec<&str> = vec![
        "-i",
        "/in/video.mp4",
        "-vn",
        "-acodec",
        "pcm_s16le",
        "-ar",
        "16000",
        "-ac",
        "1",
        "-y",
        "-hide_banner",
        "-loglevel",
        "error",
        "/tmp/out.wav",
    ];
    assert_eq!(args.len(), expected.len());
    for (a, e) in args.iter().zip(expected.iter()) {
        assert_eq!(a, e);
    }
}

#[test]
fn missing_input_is_rejected_before_any_invocation() {
    let r = check_extraction_input(false);
    assert!(matches!(r, Err(ExtractionError::InputNotFound)));
    assert!(check_extraction_input(true).is_ok());
}

#[test]
fn extraction_outcome_errors_in_order() {
    let r = check_extraction_output(false, String::from("boom"), true, 10);
    match r {
        Err(ExtractionError::TranscodeFailed(s)) => assert_eq!(s, "boom"),
        _ => panic!("expected the transcoder's error"),
    }
    assert!(matches!(
        check_extraction_output(true, String::new(), false, 0),
        Err(ExtractionError::OutputMissing)
    ));
    assert!(matches!(
        check_extraction_output(true, String::new(), true, 0),
        Err(ExtractionError::OutputEmpty)
    ));
    assert!(check_extraction_output(true, String::new(), true, 123).is_ok());
}

#[test]
fn model_selector_parses_case_insensitively() {
    assert!(matches!(WhisperModel::from_str("tiny"), Ok(WhisperModel::Tiny)));
    assert!(matches!(WhisperModel::from_str("TINY"), Ok(WhisperModel::Tiny)));
    assert!(matches!(WhisperModel::from_str("Base"), Ok(WhisperModel::Base)));
    assert!(matches!(WhisperModel::from_str("small"), Ok(WhisperModel::Small)));
    assert!(matches!(WhisperModel::from_str("medium"), Ok(WhisperModel::Medium)));
    assert!(matches!(WhisperModel::from_str("LARGE"), Ok(WhisperModel::Large)));
    match WhisperModel::from_str("huge") {
        Err(transcriber::PipelineError::UnsupportedModel(v)) => assert_eq!(v, "huge"),
        _ => panic!("expected the selector's error"),
    }
}

#[test]
fn model_names_and_descriptions() {
    assert_eq!(WhisperModel::Tiny.model_name(), "models/ggml-tiny.bin");
    assert_eq!(WhisperModel::Base.model_name(), "openai/whisper-base");
    assert_eq!(WhisperModel::Large.model_name(), "openai/whisper-large-v3");
    assert_eq!(WhisperModel::Tiny.description(), "Tiny (fastest, least accurate)");
    assert_eq!(WhisperModel::Medium.description(), "Medium (high accuracy, slower)");
}

#[test]
fn trimming_and_case_folding() {
    assert_eq!(trim_str("  a b  "), "a b");
    assert_eq!(trim_str("\t\n x \r\n"), "x");
    assert_eq!(trim_str(""), "");
    assert_eq!(trim_str("   "), "");
    assert!(eq_ignore_ascii_case("WaV", "wav"));
    assert!(!eq_ignore_ascii_case("wax", "wav"));
}
