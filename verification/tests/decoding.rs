use transcriber::{decode_wav, DecodeError, SampleData};

fn wav_bytes_int(bits: u16, samples: &[i32]) -> Vec<u8> {
    let spec = hound::WavSpec {
        channels: 1,
        sample_rate: 16000,
        bits_per_sample: bits,
        sample_format: hound::SampleFormat::Int,
    };
    let mut cur = std::io::Cursor::new(Vec::new());
    {
        let mut w = hound::WavWriter::new(&mut cur, spec).unwrap();
        for &s in samples {
            w.write_sample(s).unwrap();
        }
        w.finalize().unwrap();
    }
    cur.into_inner()
}

fn wav_bytes_float(samples: &[f32]) -> Vec<u8> {
    let spec = hound::WavSpec {
        channels: 1,
        sample_rate: 16000,
        bits_per_sample: 32,
        sample_format: hound::SampleFormat::Float,
    };
    let mut cur = std::io::Cursor::new(Vec::new());
    {
        let mut w = hound::WavWriter::new(&mut cur, spec).unwrap();
        for &s in samples {
            w.write_sample(s).unwrap();
        }
        w.finalize().unwrap();
    }
    cur.into_inner()
}

fn fixed_samples(bytes: &[u8]) -> Vec<i64> {
    let buf = decode_wav(&bytes.to_vec()).unwrap();
    assert_eq!(buf.sample_rate, 16000);
    match buf.data {
        SampleData::Fixed(q) => q,
        SampleData::FloatBits(_) => panic!("expected integer-sourced samples"),
    }
}

#[test]
fn decode_16bit_normalizes_by_32768() {
    let values: [i32; 5] = [0, 1, -1, 32767, -32768];
    let bytes = wav_bytes_int(16, &values);
    let q = fixed_samples(&bytes);
    assert_eq!(q.len(), values.len());
    for (i, &v) in values.iter().enumerate() {
        assert_eq!(q[i], (v as i64) * 65536);
        let normalized = q[i] as f64 / 2147483648.0;
        assert_eq!(normalized, v as f64 / 32768.0);
    }
}

#[test]
fn decode_24bit_normalizes_by_8388608() {
    let values: [i32; 5] = [0, 1, -1, 8388607, -8388608];
    let bytes = wav_bytes_int(24, &values);
    let q = fixed_samples(&bytes);
    assert_eq!(q.len(), values.len());
    for (i, &v) in values.iter().enumerate() {
        assert_eq!(q[i], (v as i64) * 256);
        let normalized = q[i] as f64 / 2147483648.0;
        assert_eq!(normalized, v as f64 / 8388608.0);
    }
}

#[test]
fn decode_32bit_normalizes_by_2147483648() {
    let values: [i32; 5] = [0, 1, -1, 2147483647, -2147483648];
    let bytes = wav_bytes_int(32, &values);
    let q = fixed_samples(&bytes);
    assert_eq!(q.len(), values.len());
    for (i, &v) in values.iter().enumerate() {
        assert_eq!(q[i], v as i64);
        let normalized = q[i] as f64 / 2147483648.0;
        assert_eq!(normalized, v as f64 / 2147483648.0);
    }
}

#[test]
fn decode_float_is_bit_identical() {
    let values: [f32; 6] = [0.0, 0.5, -1.0, 1.0, 0.25, -0.125];
    let bytes = wav_bytes_float(&values);
    let buf = decode_wav(&bytes).unwrap();
    assert_eq!(buf.sample_rate, 16000);
    match buf.data {
        SampleData::FloatBits(bits) => {
            assert_eq!(bits.len(), values.len());
            for (i, &v) in values.iter().enumerate() {
                assert_eq!(bits[i], v.to_bits());
                assert_eq!(f32::from_bits(bits[i]), v);
            }
        }
        SampleData::Fixed(_) => panic!("expected float-sourced samples"),
    }
}

#[test]
fn decode_8bit_is_unsupported() {
    let spec = hound::WavSpec {
        channels: 1,
        sample_rate: 16000,
        bits_per_sample: 8,
        sample_format: hound::SampleFormat::Int,
    };
    let mut cur = std::io::Cursor::new(Vec::new());
    {
        let mut w = hound::WavWriter::new(&mut cur, spec).unwrap();
        for s in [0i8, 1, -1] {
            w.write_sample(s).unwrap();
        }
        w.finalize().unwrap();
    }
    let bytes = cur.into_inner();
    let r = decode_wav(&bytes);
    assert!(matches!(r, Err(DecodeError::UnsupportedBitDepth(8))));
}

#[test]
fn decode_garbage_fails_to_open() {
    let bytes: Vec<u8> = b"this is not a wav container".to_vec();
    let r = decode_wav(&bytes);
    assert!(matches!(r, Err(DecodeError::OpenFailed)));
}

#[test]
fn decode_empty_wav_yields_empty_buffer() {
    let bytes = wav_bytes_int(16, &[]);
    let q = fixed_samples(&bytes);
    assert_eq!(q.len(), 0);
}

#[test]
fn decode_stereo_keeps_interleaved_samples() {
    let spec = hound::WavSpec {
        channels: 2,
        sample_rate: 16000,
        bits_per_sample: 16,
        sample_format: hound::SampleFormat::Int,
    };
    let mut cur = std::io::Cursor::new(Vec::new());
    {
        let mut w = hound::WavWriter::new(&mut cur, spec).unwrap();
        for s in [1i16, -1, 2, -2] {
            w.write_sample(s).unwrap();
        }
        w.finalize().unwrap();
    }
    let bytes = cur.into_inner();
    let buf = decode_wav(&bytes).unwrap();
    match buf.data {
        SampleData::Fixed(q) => {
            assert_eq!(q, vec![65536, -65536, 131072, -131072]);
        }
        SampleData::FloatBits(_) => panic!("expected integer-sourced samples"),
    }
}
