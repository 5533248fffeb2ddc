use vstd::prelude::*;

use crate::errors::DecodeError;

verus! {

// ---------------------------------------------------------------------------
// Trusted view of the WAV parser
// ---------------------------------------------------------------------------

/// What parsing a WAV byte stream's header yields: channel count, sample
/// rate, bits per sample, whether samples are IEEE floats, the byte offset
/// at which sample data starts, and the number of stored samples; `None`
/// when the container cannot be parsed.
pub uninterp spec fn wav_parse(bytes: Seq<u8>) -> Option<(u16, u32, u16, bool, usize, u32)>;

/// The 16-bit integer samples a WAV byte stream holds; `None` when any
/// sample fails to decode.
pub uninterp spec fn wav_samples_i16(bytes: Seq<u8>) -> Option<Seq<i16>>;

/// The integer samples a WAV byte stream holds, widened to 32 bits; `None`
/// when any sample fails to decode.
pub uninterp spec fn wav_samples_i32(bytes: Seq<u8>) -> Option<Seq<i32>>;

/// Relies on hound::WavReader: `new` parses the RIFF/WAVE header and leaves
/// the reader positioned at the first stored sample, `spec` reports the
/// format read from the header, and `len` the number of stored samples; all
/// are functions of the bytes alone.
#[verifier::external_body]
fn probe_wav(bytes: &Vec<u8>) -> (r: Option<(u16, u32, u16, bool, usize, u32)>)
    ensures
        r == wav_parse(bytes@),
{
    match hound::WavReader::new(std::io::Cursor::new(bytes.as_slice())) {
        Ok(reader) => {
            let spec = reader.spec();
            let is_float = matches!(spec.sample_format, hound::SampleFormat::Float);
            let n = reader.len();
            let off = reader.into_inner().position() as usize;
            Some((spec.channels, spec.sample_rate, spec.bits_per_sample, is_float, off, n))
        }
        Err(_) => None,
    }
}

/// Relies on hound::WavReader::samples::<i16>: the stored 16-bit samples,
/// a function of the bytes alone.
#[verifier::external_body]
fn read_wav_samples_i16(bytes: &Vec<u8>) -> (r: Option<Vec<i16>>)
    ensures
        r.deep_view() == wav_samples_i16(bytes@),
{
    match hound::WavReader::new(std::io::Cursor::new(bytes.as_slice())) {
        Ok(mut reader) => reader.samples::<i16>().collect::<Result<Vec<i16>, _>>().ok(),
        Err(_) => None,
    }
}

/// Relies on hound::WavReader::samples::<i32>: the stored integer samples,
/// a function of the bytes alone. A 24-bit sample is read from three bytes
/// and sign-extended, so it lies within the signed 24-bit range.
#[verifier::external_body]
fn read_wav_samples_i32(bytes: &Vec<u8>) -> (r: Option<Vec<i32>>)
    ensures
        r.deep_view() == wav_samples_i32(bytes@),
        (r matches Some(v) ==> (wav_parse(bytes@) matches Some(h) ==> (h.2 == 24 ==> forall|i: int|
            0 <= i < v@.len() ==> -0x80_0000 <= #[trigger] v@[i] < 0x80_0000))),
{
    match hound::WavReader::new(std::io::Cursor::new(bytes.as_slice())) {
        Ok(mut reader) => reader.samples::<i32>().collect::<Result<Vec<i32>, _>>().ok(),
        Err(_) => None,
    }
}

// ---------------------------------------------------------------------------
// Stored float samples, read as their bit patterns
// ---------------------------------------------------------------------------

/// The 32-bit word stored little-endian at byte offset `off`.
pub open spec fn le_word_at(bytes: Seq<u8>, off: int) -> u32 {
    (bytes[off] as int + 256 * (bytes[off + 1] as int) + 65536 * (bytes[off + 2] as int) + 16777216
        * (bytes[off + 3] as int)) as u32
}

/// The stored 32-bit float samples of a parsed WAV byte stream, each as its
/// IEEE-754 bit pattern: the sample-count many little-endian words from the
/// data offset on; `None` when the data runs past the end of the stream.
pub open spec fn wav_float_bits(bytes: Seq<u8>, off: int, n: int) -> Option<Seq<u32>> {
    if off + 4 * n <= bytes.len() {
        Some(Seq::new(n as nat, |i: int| le_word_at(bytes, off + 4 * i)))
    } else {
        None
    }
}

fn read_le_words(bytes: &Vec<u8>, off: usize, n: usize) -> (v: Vec<u32>)
    requires
        off + 4 * n <= bytes@.len(),
    ensures
        v@ == Seq::new(n as nat, |i: int| le_word_at(bytes@, off as int + 4 * i)),
{
    let blen = bytes.len();
    let mut v: Vec<u32> = Vec::new();
    let mut i: usize = 0;
    while i < n
        invariant
            i <= n,
            off + 4 * n <= blen,
            blen == bytes@.len(),
            v@.len() == i,
            forall|j: int| 0 <= j < i ==> #[trigger] v@[j] == le_word_at(bytes@, off + 4 * j),
        decreases n - i,
    {
        let p = off + 4 * i;
        let b0 = bytes[p];
        let b1 = bytes[p + 1];
        let b2 = bytes[p + 2];
        let b3 = bytes[p + 3];
        let w = b0 as u32 + 256 * (b1 as u32) + 65536 * (b2 as u32) + 16777216 * (b3 as u32);
        v.push(w);
        i += 1;
    }
    proof {
        assert(v@ =~= Seq::new(n as nat, |i: int| le_word_at(bytes@, off as int + 4 * i)));
    }
    v
}

// ---------------------------------------------------------------------------
// The normalized sample buffer
// ---------------------------------------------------------------------------

/// A decoded buffer's samples, in one of two exact carriers.
///
/// An integer-sourced sample of bit depth b is normalized by dividing by
/// 2^(b-1); it is carried as the fixed-point numerator q with the sample's
/// value being q / 2^31, which represents the quotient exactly. A
/// float-sourced sample is normalized by the identity and carried as its
/// unchanged IEEE-754 bit pattern.
#[derive(Debug, Clone)]
pub enum SampleData {
    Fixed(Vec<i64>),
    FloatBits(Vec<u32>),
}

/// A decoded, normalized sample sequence annotated with its originating
/// sample rate. Every fixed-point value q satisfies |q| <= 2^31, that is,
/// every sample value lies in [-1.0, 1.0].
#[derive(Debug, Clone)]
pub struct SampleBuffer {
    pub data: SampleData,
    pub sample_rate: u32,
}

/// The mathematical contents of a buffer: fixed-point numerators over 2^31,
/// or raw IEEE-754 bit patterns.
pub enum SampleSeq {
    Fixed(Seq<int>),
    FloatBits(Seq<u32>),
}

/// What a buffer denotes: its samples and its sample rate.
pub struct BufView {
    pub samples: SampleSeq,
    pub rate: int,
}

/// The number of frames a buffer view holds.
pub open spec fn view_frames(bv: BufView) -> int {
    match bv.samples {
        SampleSeq::Fixed(s) => s.len() as int,
        SampleSeq::FloatBits(s) => s.len() as int,
    }
}

impl View for SampleBuffer {
    type V = BufView;

    open spec fn view(&self) -> BufView {
        BufView {
            samples: match self.data {
                SampleData::Fixed(v) => SampleSeq::Fixed(v@.map_values(|q: i64| q as int)),
                SampleData::FloatBits(v) => SampleSeq::FloatBits(v@),
            },
            rate: self.sample_rate as int,
        }
    }
}

impl SampleBuffer {
    /// Every fixed-point sample lies in [-1.0, 1.0], that is |q| <= 2^31.
    pub open spec fn wf(&self) -> bool {
        match self@.samples {
            SampleSeq::Fixed(s) => forall|i: int|
                0 <= i < s.len() ==> -0x8000_0000 <= #[trigger] s[i] <= 0x8000_0000,
            SampleSeq::FloatBits(_) => true,
        }
    }

    /// The number of frames the buffer holds.
    pub open spec fn spec_frames(&self) -> nat {
        match self@.samples {
            SampleSeq::Fixed(s) => s.len(),
            SampleSeq::FloatBits(s) => s.len(),
        }
    }

    pub fn frames(&self) -> (n: usize)
        ensures
            n == self.spec_frames(),
    {
        match &self.data {
            SampleData::Fixed(v) => v.len(),
            SampleData::FloatBits(v) => v.len(),
        }
    }
}

// ---------------------------------------------------------------------------
// Normalization
// ---------------------------------------------------------------------------

/// The normalization divisor for a supported integer bit depth: 2^(b-1).
pub open spec fn divisor_of(bits: u16) -> int {
    if bits == 16 {
        32768
    } else if bits == 24 {
        8388608
    } else {
        2147483648
    }
}

/// The factor that carries a raw integer sample to its fixed-point numerator
/// over 2^31: multiplying by it is exactly division by `divisor_of(bits)`
/// on the normalized scale, since factor * divisor = 2^31.
pub open spec fn scale_of(bits: u16) -> int {
    if bits == 16 {
        0x1_0000
    } else if bits == 24 {
        0x100
    } else {
        1
    }
}

/// On the supported bit depths the fixed-point carrier is exact:
/// q = raw * scale and q / 2^31 = raw / divisor denote the same rational.
pub proof fn lemma_scale_exact(bits: u16)
    requires
        bits == 16 || bits == 24 || bits == 32,
    ensures
        scale_of(bits) * divisor_of(bits) == 0x8000_0000,
{
}

/// Integer normalization is exact for every supported bit depth: the
/// fixed-point numerator q = raw * scale that decoding produces satisfies
/// q * divisor = raw * 2^31, so q / 2^31 and raw / divisor are the same
/// rational number — the sample value the normalization table prescribes.
pub proof fn lemma_normalization_exact(raw: int, bits: u16)
    requires
        bits == 16 || bits == 24 || bits == 32,
    ensures
        (raw * scale_of(bits)) * divisor_of(bits) == raw * 0x8000_0000,
{
    lemma_scale_exact(bits);
    let s = scale_of(bits);
    let d = divisor_of(bits);
    assert((raw * s) * d == raw * (s * d)) by (nonlinear_arith);
}

/// What a WAV byte stream decodes to: the header is read; float samples pass
/// through bit-identically; integer samples of bit depth b in {16, 24, 32}
/// are normalized by 2^(b-1), carried as fixed-point numerators over 2^31;
/// any other integer bit depth is rejected, as is an unparsable container or
/// a sample that fails to decode.
pub open spec fn decode_spec(bytes: Seq<u8>) -> Result<BufView, DecodeError> {
    match wav_parse(bytes) {
        None => Err(DecodeError::OpenFailed),
        Some(h) => {
            let rate = h.1 as int;
            if h.3 {
                if h.2 == 32 {
                    match wav_float_bits(bytes, h.4 as int, h.5 as int) {
                        None => Err(DecodeError::SampleReadFailed),
                        Some(v) => Ok(BufView { samples: SampleSeq::FloatBits(v), rate }),
                    }
                } else {
                    Err(DecodeError::SampleReadFailed)
                }
            } else if h.2 == 16 {
                match wav_samples_i16(bytes) {
                    None => Err(DecodeError::SampleReadFailed),
                    Some(v) => Ok(
                        BufView {
                            samples: SampleSeq::Fixed(
                                v.map_values(|x: i16| x as int * scale_of(16)),
                            ),
                            rate,
                        },
                    ),
                }
            } else if h.2 == 24 || h.2 == 32 {
                match wav_samples_i32(bytes) {
                    None => Err(DecodeError::SampleReadFailed),
                    Some(v) => Ok(
                        BufView {
                            samples: SampleSeq::Fixed(
                                v.map_values(|x: i32| x as int * scale_of(h.2)),
                            ),
                            rate,
                        },
                    ),
                }
            } else {
                Err(DecodeError::UnsupportedBitDepth(h.2))
            }
        }
    }
}

fn scale_i16_samples(s: &Vec<i16>) -> (q: Vec<i64>)
    ensures
        q@.map_values(|x: i64| x as int) == s@.map_values(|x: i16| x as int * 0x1_0000),
        forall|i: int| 0 <= i < q@.len() ==> -0x8000_0000 <= #[trigger] q@[i] <= 0x8000_0000,
{
    let mut q: Vec<i64> = Vec::new();
    let mut i: usize = 0;
    while i < s.len()
        invariant
            i <= s@.len(),
            q@.len() == i,
            forall|j: int| 0 <= j < i ==> #[trigger] q@[j] == s@[j] as int * 0x1_0000,
            forall|j: int| 0 <= j < i ==> -0x8000_0000 <= #[trigger] q@[j] <= 0x8000_0000,
        decreases s@.len() - i,
    {
        let x = s[i];
        q.push((x as i64) * 0x1_0000);
        i += 1;
    }
    proof {
        assert(q@.map_values(|x: i64| x as int) =~= s@.map_values(|x: i16| x as int * 0x1_0000));
    }
    q
}

fn scale_i32_samples(s: &Vec<i32>, factor: i64) -> (q: Vec<i64>)
    requires
        factor == 1 || factor == 0x100,
        factor == 0x100 ==> forall|i: int| 0 <= i < s@.len() ==> -0x80_0000 <= #[trigger] s@[i]
            < 0x80_0000,
    ensures
        q@.map_values(|x: i64| x as int) == s@.map_values(|x: i32| x as int * factor),
        forall|i: int| 0 <= i < q@.len() ==> -0x8000_0000 <= #[trigger] q@[i] <= 0x8000_0000,
{
    let mut q: Vec<i64> = Vec::new();
    let mut i: usize = 0;
    while i < s.len()
        invariant
            i <= s@.len(),
            q@.len() == i,
            factor == 1 || factor == 0x100,
            factor == 0x100 ==> forall|k: int| 0 <= k < s@.len() ==> -0x80_0000 <= #[trigger] s@[k]
                < 0x80_0000,
            forall|j: int| 0 <= j < i ==> #[trigger] q@[j] == s@[j] as int * factor,
            forall|j: int| 0 <= j < i ==> -0x8000_0000 <= #[trigger] q@[j] <= 0x8000_0000,
        decreases s@.len() - i,
    {
        let x = s[i];
        q.push((x as i64) * factor);
        i += 1;
    }
    proof {
        assert(q@.map_values(|x: i64| x as int) =~= s@.map_values(|x: i32| x as int * factor));
    }
    q
}

/// Decodes a WAV byte stream into a normalized sample buffer, exactly as
/// `decode_spec` states: all-or-nothing, never a partial buffer.
pub fn decode_wav(bytes: &Vec<u8>) -> (r: Result<SampleBuffer, DecodeError>)
    ensures
        match r {
            Ok(buf) => buf.wf() && decode_spec(bytes@) == Ok::<BufView, DecodeError>(buf@),
            Err(e) => decode_spec(bytes@) == Err::<BufView, DecodeError>(e),
        },
{
    match probe_wav(bytes) {
        None => Err(DecodeError::OpenFailed),
        Some((_channels, rate, bits, is_float, off, n)) => {
            if is_float {
                if bits == 32 {
                    let len = bytes.len();
                    if off <= len && (n as u64) * 4 <= (len - off) as u64 {
                        let v = read_le_words(bytes, off, n as usize);
                        let buf = SampleBuffer { data: SampleData::FloatBits(v), sample_rate: rate };
                        proof {
                            let spec_r = decode_spec(bytes@);
                            assert(spec_r is Ok);
                            assert(spec_r->Ok_0.samples->FloatBits_0 =~= buf@.samples->FloatBits_0);
                            assert(spec_r == Ok::<BufView, DecodeError>(buf@));
                        }
                        Ok(buf)
                    } else {
                        Err(DecodeError::SampleReadFailed)
                    }
                } else {
                    Err(DecodeError::SampleReadFailed)
                }
            } else if bits == 16 {
                match read_wav_samples_i16(bytes) {
                    None => Err(DecodeError::SampleReadFailed),
                    Some(v) => {
                        let q = scale_i16_samples(&v);
                        let buf = SampleBuffer { data: SampleData::Fixed(q), sample_rate: rate };
                        proof {
                            assert(v.deep_view() =~= v@);
                            let spec_r = decode_spec(bytes@);
                            assert(spec_r is Ok);
                            assert(spec_r->Ok_0.samples->Fixed_0 =~= buf@.samples->Fixed_0);
                            assert(spec_r == Ok::<BufView, DecodeError>(buf@));
                        }
                        Ok(buf)
                    }
                }
            } else if bits == 24 || bits == 32 {
                match read_wav_samples_i32(bytes) {
                    None => Err(DecodeError::SampleReadFailed),
                    Some(v) => {
                        let factor: i64 = if bits == 24 {
                            0x100
                        } else {
                            1
                        };
                        let q = scale_i32_samples(&v, factor);
                        let buf = SampleBuffer { data: SampleData::Fixed(q), sample_rate: rate };
                        proof {
                            assert(v.deep_view() =~= v@);
                            let spec_r = decode_spec(bytes@);
                            assert(spec_r is Ok);
                            assert(spec_r->Ok_0.samples->Fixed_0 =~= buf@.samples->Fixed_0);
                            assert(spec_r == Ok::<BufView, DecodeError>(buf@));
                        }
                        Ok(buf)
                    }
                }
            } else {
                Err(DecodeError::UnsupportedBitDepth(bits))
            }
        }
    }
}

} // verus!
