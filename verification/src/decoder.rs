//! The offline waveform decoder: parse a WAV container, normalize every
//! sample, downmix stereo to mono, and return the canonical waveform with
//! its duration. All-or-nothing: any failure aborts the whole decode.
//!
//! Container parsing is done by `hound` on an in-memory byte buffer; what
//! it yields is named by uninterpreted functions of the bytes, and
//! everything after the parse -- format dispatch, normalization, mixing,
//! duration -- is verified exactly in `decode_samples`.

use vstd::prelude::*;
use crate::errors::DecodeError;
use crate::sample::SampleFormat;
use crate::sample::fmt_den;
use crate::sample::norm_seq;
use crate::sample::raw_in_range;
use crate::sample::den_of;
use crate::sample::normalize_block;
use crate::sample::wave_wf;
use crate::mixer::downmix;
use crate::mixer::mixed_seq;

verus! {

/// The encoding descriptor read from a WAV header; consumed entirely
/// within one decode.
#[derive(Clone, Copy, PartialEq, Eq, Structural, Debug)]
pub struct WavHeader {
    pub channels: u16,
    pub sample_rate: u32,
    pub bits_per_sample: u16,
    pub float_format: bool,
}

/// A fully decoded waveform: mono numerators over `den`, so sample `i` has
/// the canonical value `samples[i] / den`; `duration_ms_num / sample_rate`
/// is the duration in milliseconds. Immutable once produced.
#[derive(Clone, Debug)]
pub struct WavData {
    pub samples: Vec<i64>,
    pub den: u64,
    pub sample_rate: u32,
    pub duration_ms_num: u128,
}

pub open spec fn wav_data_wf(w: WavData) -> bool {
    &&& 1 <= w.sample_rate
    &&& w.duration_ms_num == w.samples@.len() * 1000
    &&& wave_wf(w.samples@, w.den as int)
}

/// The sample format a WAV encoding descriptor selects, if supported:
/// integer samples of 16, 24 or 32 bits. Floating-point sources and other
/// bit depths are not supported here.
pub open spec fn format_for(bits: u16, float_format: bool) -> Option<SampleFormat> {
    if float_format {
        None
    } else if bits == 16 {
        Some(SampleFormat::Signed16)
    } else if bits == 24 {
        Some(SampleFormat::Signed24)
    } else if bits == 32 {
        Some(SampleFormat::Signed32)
    } else {
        None
    }
}

/// The mono numerators a decode yields: normalization, then a stereo
/// downmix when the source has two channels.
pub open spec fn decoded_samples(fmt: SampleFormat, channels: u16, raw: Seq<i32>) -> Seq<i64> {
    if channels == 2 {
        mixed_seq(norm_seq(fmt, raw))
    } else {
        norm_seq(fmt, raw)
    }
}

/// The denominator of the decoded numerators: doubled by a stereo downmix.
pub open spec fn decoded_den(fmt: SampleFormat, channels: u16) -> int {
    if channels == 2 {
        2 * fmt_den(fmt)
    } else {
        fmt_den(fmt)
    }
}

/// 16-bit samples widened to the raw container type.
pub open spec fn widened16(s: Seq<i16>) -> Seq<i32> {
    s.map_values(|v: i16| v as i32)
}

/// The header of a syntactically valid WAV byte string, or nothing when
/// the bytes do not parse as one: (channels, sample rate, bits per sample,
/// whether samples are floating point).
pub uninterp spec fn wav_header_of(b: Seq<u8>) -> Option<(u16, u32, u16, bool)>;

/// The 16-bit samples of a WAV byte string, interleaved, in data-chunk
/// order; nothing when the bytes do not parse or a sample cannot be read.
/// Reading is a function of the bytes alone, so both halves are determined
/// by the byte string.
pub uninterp spec fn wav_samples16_of(b: Seq<u8>) -> Option<Seq<i16>>;

/// The integer samples of a WAV byte string read into 32-bit containers,
/// interleaved, in data-chunk order; nothing when the bytes do not parse
/// or a sample cannot be read. Reading is a function of the bytes alone.
pub uninterp spec fn wav_samples32_of(b: Seq<u8>) -> Option<Seq<i32>>;

/// The raw 32-bit sample containers a decode of `b` works on: 16-bit data
/// widened, wider data as read. Nothing when the data chunk is unreadable.
pub open spec fn wav_raw_samples_of(b: Seq<u8>, bits: u16) -> Option<Seq<i32>> {
    if bits == 16 {
        match wav_samples16_of(b) {
            Some(s) => Some(widened16(s)),
            None => None,
        }
    } else {
        wav_samples32_of(b)
    }
}

/// Relies on `hound::WavReader::new` and `WavReader::spec`: parses the
/// RIFF/WAVE header of the byte buffer and reports the channel count,
/// sample rate, bits per sample and sample format; any malformed or
/// truncated header is an error.
#[verifier::external_body]
fn read_wav_header(bytes: &Vec<u8>) -> (r: Result<WavHeader, DecodeError>)
    ensures
        (r is Ok) == (wav_header_of(bytes@) is Some),
        r matches Ok(h) ==> wav_header_of(bytes@) == Some(
            (h.channels, h.sample_rate, h.bits_per_sample, h.float_format),
        ),
        r matches Err(e) ==> e == DecodeError::OpenFailed,
{
    match hound::WavReader::new(std::io::Cursor::new(bytes.as_slice())) {
        Ok(reader) => {
            let s = reader.spec();
            Ok(WavHeader {
                channels: s.channels,
                sample_rate: s.sample_rate,
                bits_per_sample: s.bits_per_sample,
                float_format: matches!(s.sample_format, hound::SampleFormat::Float),
            })
        },
        Err(_) => Err(DecodeError::OpenFailed),
    }
}

/// Relies on `hound::WavReader::samples::<i16>`: yields every sample of
/// the data chunk in order; an unreadable or mismatched sample is an
/// error. The whole read, success included, depends on the byte buffer
/// alone.
#[verifier::external_body]
fn read_wav_samples16(bytes: &Vec<u8>) -> (r: Result<Vec<i16>, DecodeError>)
    ensures
        (r is Ok) == (wav_samples16_of(bytes@) is Some),
        r matches Ok(v) ==> Some(v@) == wav_samples16_of(bytes@),
        r matches Err(e) ==> e == DecodeError::SampleReadFailed,
{
    let mut reader = match hound::WavReader::new(std::io::Cursor::new(bytes.as_slice())) {
        Ok(reader) => reader,
        Err(_) => return Err(DecodeError::SampleReadFailed),
    };
    match reader.samples::<i16>().collect::<Result<Vec<i16>, _>>() {
        Ok(v) => Ok(v),
        Err(_) => Err(DecodeError::SampleReadFailed),
    }
}

/// For a byte string whose header declares 24-bit samples, every sample in
/// `v` lies within the 24-bit two's-complement range.
pub open spec fn wav24_in_range(b: Seq<u8>, v: Seq<i32>) -> bool {
    (wav_header_of(b) matches Some(h) && h.2 == 24) ==> forall|i: int|
        0 <= i < v.len() ==> -0x80_0000 <= #[trigger] v[i] <= 0x7F_FFFF
}

/// Relies on `hound::WavReader::samples::<i32>`: yields every sample of
/// the data chunk in order; an unreadable or mismatched sample is an
/// error. The whole read, success included, depends on the byte buffer
/// alone. A 24-bit sample is sign-extended from three data bytes (or a
/// masked four-byte container), so it always lies within the 24-bit range.
#[verifier::external_body]
fn read_wav_samples32(bytes: &Vec<u8>) -> (r: Result<Vec<i32>, DecodeError>)
    ensures
        (r is Ok) == (wav_samples32_of(bytes@) is Some),
        r matches Ok(v) ==> Some(v@) == wav_samples32_of(bytes@) && wav24_in_range(bytes@, v@),
        r matches Err(e) ==> e == DecodeError::SampleReadFailed,
{
    let mut reader = match hound::WavReader::new(std::io::Cursor::new(bytes.as_slice())) {
        Ok(reader) => reader,
        Err(_) => return Err(DecodeError::SampleReadFailed),
    };
    match reader.samples::<i32>().collect::<Result<Vec<i32>, _>>() {
        Ok(v) => Ok(v),
        Err(_) => Err(DecodeError::SampleReadFailed),
    }
}

/// The verified decode pipeline on raw integer samples: normalize every
/// sample, downmix to mono when stereo, and derive the duration. Succeeds
/// exactly when the sample rate is positive and the layout is mono or
/// stereo; a zero sample rate is a malformed header, any other channel
/// count an unsupported layout.
pub fn decode_samples(fmt: SampleFormat, channels: u16, sample_rate: u32, raw: &Vec<i32>) -> (r:
    Result<WavData, DecodeError>)
    requires
        forall|i: int| 0 <= i < raw@.len() ==> raw_in_range(fmt, #[trigger] raw@[i] as int),
    ensures
        sample_rate == 0 ==> r == Err::<WavData, DecodeError>(DecodeError::OpenFailed),
        sample_rate >= 1 && channels != 1 && channels != 2 ==> r == Err::<WavData, DecodeError>(
            DecodeError::UnsupportedChannelLayout(channels),
        ),
        sample_rate >= 1 && (channels == 1 || channels == 2) ==> (r matches Ok(w) && wav_data_wf(w)
            && w.sample_rate == sample_rate && w.samples@ == decoded_samples(fmt, channels, raw@)
            && w.den as int == decoded_den(fmt, channels)),
{
    if sample_rate == 0 {
        return Err(DecodeError::OpenFailed);
    }
    let den = den_of(fmt);
    let normed = normalize_block(fmt, raw);
    proof {
        assert(normed@ =~= norm_seq(fmt, raw@));
    }
    match downmix(&normed, channels, den) {
        Ok((mono, mono_den)) => {
            let duration_ms_num = (mono.len() as u128) * 1000;
            Ok(WavData { samples: mono, den: mono_den, sample_rate, duration_ms_num })
        },
        Err(e) => Err(e),
    }
}

/// Decodes a whole WAV byte buffer: header parse, format dispatch, then
/// the verified pipeline of `decode_samples`. The contract follows the
/// header the bytes carry: no header means `OpenFailed`; a floating-point
/// source or an unsupported bit depth means `UnsupportedFormat` with the
/// offending bit depth; a zero sample rate means `OpenFailed`; a channel
/// count beyond stereo means `UnsupportedChannelLayout`; otherwise the
/// decode succeeds exactly when the byte string's data chunk is readable,
/// the result is the decoded waveform of those samples, and an unreadable
/// chunk means `SampleReadFailed` -- if and only if.
pub fn decode_wav_bytes(bytes: &Vec<u8>) -> (r: Result<WavData, DecodeError>)
    ensures
        wav_header_of(bytes@) is None ==> r == Err::<WavData, DecodeError>(DecodeError::OpenFailed),
        wav_header_of(bytes@) matches Some(h) ==> {
            let f = format_for(h.2, h.3);
            &&& (f is None ==> r == Err::<WavData, DecodeError>(
                DecodeError::UnsupportedFormat(h.2),
            ))
            &&& (f is Some && h.1 == 0 ==> r == Err::<WavData, DecodeError>(DecodeError::OpenFailed))
            &&& (f is Some && h.1 >= 1 && h.0 != 1 && h.0 != 2 ==> r == Err::<WavData, DecodeError>(
                DecodeError::UnsupportedChannelLayout(h.0),
            ))
            &&& (f matches Some(fmt) ==> (h.1 >= 1 && (h.0 == 1 || h.0 == 2) ==> {
                &&& (r is Ok) == (wav_raw_samples_of(bytes@, h.2) is Some)
                &&& (r matches Err(e) ==> e == DecodeError::SampleReadFailed)
                &&& (r matches Ok(w) ==> wav_raw_samples_of(bytes@, h.2) matches Some(raw)
                    && wav_data_wf(w) && w.sample_rate == h.1 && w.samples@ == decoded_samples(
                    fmt,
                    h.0,
                    raw,
                ) && w.den as int == decoded_den(fmt, h.0))
            }))
        },
{
    let header = match read_wav_header(bytes) {
        Ok(h) => h,
        Err(e) => {
            return Err(e);
        },
    };
    let fmt = if header.float_format {
        return Err(DecodeError::UnsupportedFormat(header.bits_per_sample));
    } else if header.bits_per_sample == 16 {
        SampleFormat::Signed16
    } else if header.bits_per_sample == 24 {
        SampleFormat::Signed24
    } else if header.bits_per_sample == 32 {
        SampleFormat::Signed32
    } else {
        return Err(DecodeError::UnsupportedFormat(header.bits_per_sample));
    };
    if header.sample_rate == 0 {
        return Err(DecodeError::OpenFailed);
    }
    if header.channels != 1 && header.channels != 2 {
        return Err(DecodeError::UnsupportedChannelLayout(header.channels));
    }
    let raw: Vec<i32> = if header.bits_per_sample == 16 {
        let narrow = match read_wav_samples16(bytes) {
            Ok(v) => v,
            Err(e) => {
                return Err(e);
            },
        };
        let mut wide: Vec<i32> = Vec::new();
        let mut k: usize = 0;
        while k < narrow.len()
            invariant
                k <= narrow@.len(),
                wide@ == widened16(narrow@.take(k as int)),
            decreases narrow@.len() - k,
        {
            wide.push(narrow[k] as i32);
            k = k + 1;
            proof {
                assert(wide@ =~= widened16(narrow@.take(k as int)));
            }
        }
        proof {
            assert(narrow@.take(narrow@.len() as int) =~= narrow@);
        }
        wide
    } else {
        match read_wav_samples32(bytes) {
            Ok(v) => v,
            Err(e) => {
                return Err(e);
            },
        }
    };
    proof {
        let h = wav_header_of(bytes@)->0;
        if h.2 == 16 {
            assert forall|i: int| 0 <= i < raw@.len() implies raw_in_range(
                fmt,
                #[trigger] raw@[i] as int,
            ) by {
                assert(raw@[i] == wav_samples16_of(bytes@)->0[i] as i32);
            }
        }
    }
    decode_samples(fmt, header.channels, header.sample_rate, &raw)
}

} // verus!
