use vstd::prelude::*;

use crate::errors::ExtractionError;
use crate::text::{eq_ignore_ascii_case, lower_spec};
use vstd::string::{StrSliceExecFns, StringExecFns};

verus! {

// ---------------------------------------------------------------------------
// Path names
// ---------------------------------------------------------------------------

/// The index of the last occurrence of `c` in `s`, or -1 when absent.
pub open spec fn find_last(s: Seq<char>, c: char) -> int
    decreases s.len(),
{
    if s.len() == 0 {
        -1
    } else if s[s.len() - 1] == c {
        s.len() - 1
    } else {
        find_last(s.subrange(0, s.len() - 1), c)
    }
}

proof fn lemma_find_last_at(s: Seq<char>, c: char, k: int)
    requires
        0 <= k < s.len(),
        s[k] == c,
        forall|j: int| k < j < s.len() ==> s[j] != c,
    ensures
        find_last(s, c) == k,
    decreases s.len(),
{
    if k < s.len() - 1 {
        let t = s.subrange(0, s.len() - 1);
        lemma_find_last_at(t, c, k);
    }
}

proof fn lemma_find_last_none(s: Seq<char>, c: char)
    requires
        forall|j: int| 0 <= j < s.len() ==> s[j] != c,
    ensures
        find_last(s, c) == -1,
    decreases s.len(),
{
    if s.len() > 0 {
        lemma_find_last_none(s.subrange(0, s.len() - 1), c);
    }
}

fn find_last_char(s: &str, c: char) -> (r: Option<usize>)
    ensures
        match r {
            Some(i) => i < s@.len() && find_last(s@, c) == i as int,
            None => find_last(s@, c) == -1,
        },
{
    let n = s.unicode_len();
    let mut i: usize = n;
    while i > 0
        invariant
            i <= n,
            n == s@.len(),
            forall|j: int| i <= j < n ==> s@[j] != c,
        decreases i,
    {
        if s.get_char(i - 1) == c {
            proof {
                lemma_find_last_at(s@, c, i - 1);
            }
            return Some(i - 1);
        }
        i -= 1;
    }
    proof {
        lemma_find_last_none(s@, c);
    }
    None
}

/// The part of a path after its last slash.
pub open spec fn file_name_spec(path: Seq<char>) -> Seq<char> {
    path.subrange(find_last(path, '/') + 1, path.len() as int)
}

/// The extension of a path's file name: what follows the last dot, provided
/// that dot is neither absent nor the name's first character.
pub open spec fn extension_spec(path: Seq<char>) -> Option<Seq<char>> {
    let name = file_name_spec(path);
    let d = find_last(name, '.');
    if d > 0 {
        Some(name.subrange(d + 1, name.len() as int))
    } else {
        None
    }
}

/// The stem of a path's file name: what precedes the extension, or the whole
/// name when there is none.
pub open spec fn file_stem_spec(path: Seq<char>) -> Seq<char> {
    let name = file_name_spec(path);
    let d = find_last(name, '.');
    if d > 0 {
        name.subrange(0, d)
    } else {
        name
    }
}

/// The extension of a path, if it has one.
pub fn media_extension(path: &str) -> (r: Option<String>)
    ensures
        match r {
            Some(e) => extension_spec(path@) == Some(e@),
            None => extension_spec(path@) is None,
        },
{
    let n = path.unicode_len();
    let start = match find_last_char(path, '/') {
        Some(i) => i + 1,
        None => 0,
    };
    let name = path.substring_char(start, n);
    proof {
        assert(name@ =~= file_name_spec(path@));
    }
    let m = name.unicode_len();
    match find_last_char(name, '.') {
        Some(d) => {
            if d > 0 {
                Some(String::from_str(name.substring_char(d + 1, m)))
            } else {
                None
            }
        }
        None => None,
    }
}

/// The stem of a path's file name, with a fixed substitute when the path has
/// no file name at all.
pub fn media_file_stem(path: &str) -> (r: String)
    ensures
        r@ == if file_stem_spec(path@).len() == 0 {
            "audio_extract"@
        } else {
            file_stem_spec(path@)
        },
{
    let n = path.unicode_len();
    let start = match find_last_char(path, '/') {
        Some(i) => i + 1,
        None => 0,
    };
    let name = path.substring_char(start, n);
    proof {
        assert(name@ =~= file_name_spec(path@));
    }
    let m = name.unicode_len();
    let stem = match find_last_char(name, '.') {
        Some(d) => {
            if d > 0 {
                name.substring_char(0, d)
            } else {
                name
            }
        }
        None => name,
    };
    if stem.unicode_len() == 0 {
        String::from_str("audio_extract")
    } else {
        String::from_str(stem)
    }
}

// ---------------------------------------------------------------------------
// The format prober
// ---------------------------------------------------------------------------

/// Whether an extension, folded to lower case, is on the fixed list of
/// commonly supported container and audio formats.
pub open spec fn is_supported_ext(ext: Seq<char>) -> bool {
    let l = lower_spec(ext);
    ||| l == "mp4"@
    ||| l == "avi"@
    ||| l == "mov"@
    ||| l == "mkv"@
    ||| l == "wmv"@
    ||| l == "flv"@
    ||| l == "webm"@
    ||| l == "ogv"@
    ||| l == "3gp"@
    ||| l == "m4v"@
    ||| l == "vob"@
    ||| l == "ts"@
    ||| l == "mpg"@
    ||| l == "mpeg"@
    ||| l == "mp3"@
    ||| l == "wav"@
    ||| l == "flac"@
    ||| l == "aac"@
    ||| l == "ogg"@
    ||| l == "m4a"@
}

/// Whether an extension is on the supported-format list, case-insensitively.
pub fn is_supported_format(ext: &str) -> (b: bool)
    ensures
        b == is_supported_ext(ext@),
{
    if eq_ignore_ascii_case(ext, "mp4") {
        true
    } else if eq_ignore_ascii_case(ext, "avi") {
        true
    } else if eq_ignore_ascii_case(ext, "mov") {
        true
    } else if eq_ignore_ascii_case(ext, "mkv") {
        true
    } else if eq_ignore_ascii_case(ext, "wmv") {
        true
    } else if eq_ignore_ascii_case(ext, "flv") {
        true
    } else if eq_ignore_ascii_case(ext, "webm") {
        true
    } else if eq_ignore_ascii_case(ext, "ogv") {
        true
    } else if eq_ignore_ascii_case(ext, "3gp") {
        true
    } else if eq_ignore_ascii_case(ext, "m4v") {
        true
    } else if eq_ignore_ascii_case(ext, "vob") {
        true
    } else if eq_ignore_ascii_case(ext, "ts") {
        true
    } else if eq_ignore_ascii_case(ext, "mpg") {
        true
    } else if eq_ignore_ascii_case(ext, "mpeg") {
        true
    } else if eq_ignore_ascii_case(ext, "mp3") {
        true
    } else if eq_ignore_ascii_case(ext, "wav") {
        true
    } else if eq_ignore_ascii_case(ext, "flac") {
        true
    } else if eq_ignore_ascii_case(ext, "aac") {
        true
    } else if eq_ignore_ascii_case(ext, "ogg") {
        true
    } else if eq_ignore_ascii_case(ext, "m4a") {
        true
    } else {
        false
    }
}

/// The advisory probe: true exactly when the path carries an extension
/// outside the supported list, in which case the caller may warn; the
/// probe never blocks processing and has no failure path.
pub fn probe_warns(path: &str) -> (warn: bool)
    ensures
        warn == (extension_spec(path@) matches Some(e) && !is_supported_ext(e)),
{
    match media_extension(path) {
        None => false,
        Some(e) => !is_supported_format(e.as_str()),
    }
}

// ---------------------------------------------------------------------------
// Decimal formatting and the temporary output name
// ---------------------------------------------------------------------------

/// The character of a decimal digit.
pub open spec fn digit_char(d: int) -> char {
    ((48 + d) as u8) as char
}

/// The decimal digits of a non-negative number, most significant first.
pub open spec fn dec_nat(n: int) -> Seq<char>
    decreases n,
{
    if n < 10 {
        seq![digit_char(if n >= 0 {
            n
        } else {
            0
        })]
    } else {
        dec_nat(n / 10) + seq![digit_char(n % 10)]
    }
}

/// The decimal representation of a signed number.
pub open spec fn dec_int(n: int) -> Seq<char> {
    if n < 0 {
        seq!['-'] + dec_nat(-n)
    } else {
        dec_nat(n)
    }
}

fn digit_str(d: u64) -> (r: String)
    requires
        d < 10,
    ensures
        r@ == seq![digit_char(d as int)],
{
    let r = if d == 0 {
        String::from_str("0")
    } else if d == 1 {
        String::from_str("1")
    } else if d == 2 {
        String::from_str("2")
    } else if d == 3 {
        String::from_str("3")
    } else if d == 4 {
        String::from_str("4")
    } else if d == 5 {
        String::from_str("5")
    } else if d == 6 {
        String::from_str("6")
    } else if d == 7 {
        String::from_str("7")
    } else if d == 8 {
        String::from_str("8")
    } else {
        String::from_str("9")
    };
    proof {
        reveal_strlit("0");
        reveal_strlit("1");
        reveal_strlit("2");
        reveal_strlit("3");
        reveal_strlit("4");
        reveal_strlit("5");
        reveal_strlit("6");
        reveal_strlit("7");
        reveal_strlit("8");
        reveal_strlit("9");
        assert(r@ =~= seq![digit_char(d as int)]);
    }
    r
}

/// A number's decimal digits, most significant first.
pub fn format_u64(n: u64) -> (r: String)
    ensures
        r@ == dec_nat(n as int),
    decreases n,
{
    if n < 10 {
        digit_str(n)
    } else {
        let mut s = format_u64(n / 10);
        let d = digit_str(n % 10);
        s.append(d.as_str());
        s
    }
}

/// A signed number in decimal, with a leading minus sign when negative.
pub fn format_i64(n: i64) -> (r: String)
    ensures
        r@ == dec_int(n as int),
{
    if n >= 0 {
        format_u64(n as u64)
    } else {
        let mag: u64 = if n == i64::MIN {
            9223372036854775808u64
        } else {
            (-n) as u64
        };
        let mut s = String::from_str("-");
        let d = format_u64(mag);
        s.append(d.as_str());
        proof {
            reveal_strlit("-");
            assert(s@ =~= seq!['-'] + dec_nat(-(n as int)));
        }
        s
    }
}

/// The name of the temporary extracted-audio file: the input's stem, an
/// underscore, a uniqueness token in decimal, and the `.wav` extension.
pub open spec fn temp_wav_name_spec(stem: Seq<char>, token: int) -> Seq<char> {
    stem + "_"@ + dec_int(token) + ".wav"@
}

/// Builds the temporary output file name for an input stem and a uniqueness
/// token.
pub fn temp_audio_filename(stem: &str, token: i64) -> (r: String)
    ensures
        r@ == temp_wav_name_spec(stem@, token as int),
{
    let mut s = String::from_str(stem);
    s.append("_");
    let digits = format_i64(token);
    s.append(digits.as_str());
    s.append(".wav");
    proof {
        assert(s@ =~= temp_wav_name_spec(stem@, token as int));
    }
    s
}

// ---------------------------------------------------------------------------
// The transcoder invocation
// ---------------------------------------------------------------------------

/// The argument list handed to the external transcoder: input path, video
/// discarded, 16-bit signed PCM, resampled to 16 kHz, downmixed to mono,
/// overwriting its output, banner hidden, error-level diagnostics only,
/// and the output path last.
pub open spec fn transcoder_args_spec(input: Seq<char>, output: Seq<char>) -> Seq<Seq<char>> {
    seq![
        "-i"@,
        input,
        "-vn"@,
        "-acodec"@,
        "pcm_s16le"@,
        "-ar"@,
        "16000"@,
        "-ac"@,
        "1"@,
        "-y"@,
        "-hide_banner"@,
        "-loglevel"@,
        "error"@,
        output,
    ]
}

/// Builds the transcoder's argument list for an input and output path.
pub fn transcoder_args(input: &str, output: &str) -> (args: Vec<String>)
    ensures
        args@.map_values(|s: String| s@) == transcoder_args_spec(input@, output@),
{
    let mut v: Vec<String> = Vec::new();
    v.push(String::from_str("-i"));
    v.push(String::from_str(input));
    v.push(String::from_str("-vn"));
    v.push(String::from_str("-acodec"));
    v.push(String::from_str("pcm_s16le"));
    v.push(String::from_str("-ar"));
    v.push(String::from_str("16000"));
    v.push(String::from_str("-ac"));
    v.push(String::from_str("1"));
    v.push(String::from_str("-y"));
    v.push(String::from_str("-hide_banner"));
    v.push(String::from_str("-loglevel"));
    v.push(String::from_str("error"));
    v.push(String::from_str(output));
    proof {
        assert(v@.map_values(|s: String| s@) =~= transcoder_args_spec(input@, output@));
    }
    v
}

// ---------------------------------------------------------------------------
// Stage decisions
// ---------------------------------------------------------------------------

/// The extraction precondition: an input that does not exist is rejected
/// before anything else happens, so no transcoder is ever invoked for it.
pub fn check_extraction_input(input_exists: bool) -> (r: Result<(), ExtractionError>)
    ensures
        input_exists ==> r is Ok,
        !input_exists ==> r matches Err(ExtractionError::InputNotFound),
{
    if input_exists {
        Ok(())
    } else {
        Err(ExtractionError::InputNotFound)
    }
}

/// The extraction postcondition, judged from what the transcoder run showed:
/// a non-zero exit fails with the captured standard-error text; an output
/// that was never created fails as missing; an empty output fails as empty;
/// otherwise the extraction succeeded.
pub fn check_extraction_output(
    exit_ok: bool,
    stderr: String,
    output_exists: bool,
    output_len: u64,
) -> (r: Result<(), ExtractionError>)
    ensures
        match r {
            Ok(_) => exit_ok && output_exists && output_len > 0,
            Err(ExtractionError::TranscodeFailed(s)) => !exit_ok && s@ == stderr@,
            Err(ExtractionError::OutputMissing) => exit_ok && !output_exists,
            Err(ExtractionError::OutputEmpty) => exit_ok && output_exists && output_len == 0,
            Err(_) => false,
        },
{
    if !exit_ok {
        Err(ExtractionError::TranscodeFailed(stderr))
    } else if !output_exists {
        Err(ExtractionError::OutputMissing)
    } else if output_len == 0 {
        Err(ExtractionError::OutputEmpty)
    } else {
        Ok(())
    }
}

} // verus!
