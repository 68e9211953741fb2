use std::io::Cursor;

use audio_monitor::decoder::decode_samples;
use audio_monitor::decoder::decode_wav_bytes;
use audio_monitor::errors::DecodeError;
use audio_monitor::sample::SampleFormat;

fn wav_bytes(
    spec: hound::WavSpec,
    write: impl FnOnce(&mut hound::WavWriter<Cursor<&mut Vec<u8>>>),
) -> Vec<u8> {
    let mut buf = Vec::new();
    {
        let mut writer = hound::WavWriter::new(Cursor::new(&mut buf), spec).unwrap();
        write(&mut writer);
        writer.finalize().unwrap();
    }
    buf
}

fn int_spec(channels: u16, sample_rate: u32, bits: u16) -> hound::WavSpec {
    hound::WavSpec {
        channels,
        sample_rate,
        bits_per_sample: bits,
        sample_format: hound::SampleFormat::Int,
    }
}

#[test]
fn mono_16_bit_round_trip() {
    let bytes = wav_bytes(int_spec(1, 8000, 16), |w| {
        for s in [0i16, 16384, -16384, 32767] {
            w.write_sample(s).unwrap();
        }
    });
    let wav = decode_wav_bytes(&bytes).unwrap();
    assert_eq!(wav.samples, vec![0i64, 16384, -16384, 32767]);
    assert_eq!(wav.den, 32767);
    assert_eq!(wav.sample_rate, 8000);
    // duration_ms == (sample_count / sample_rate) * 1000, held as the
    // exact rational duration_ms_num / sample_rate.
    assert_eq!(wav.duration_ms_num, 4000);
    let duration_ms = wav.duration_ms_num as f64 / wav.sample_rate as f64;
    assert!((duration_ms - (4.0 / 8000.0) * 1000.0).abs() < 1e-9);
    // The decoded floats match the expected normalized values.
    for (num, raw) in wav.samples.iter().zip([0i16, 16384, -16384, 32767]) {
        let got = *num as f64 / wav.den as f64;
        let expected = raw as f64 / 32767.0;
        assert!((got - expected).abs() < 1e-6);
    }
}

#[test]
fn stereo_16_bit_downmixes_to_mono() {
    let bytes = wav_bytes(int_spec(2, 44100, 16), |w| {
        for s in [1000i16, 2000, 3000, 5000] {
            w.write_sample(s).unwrap();
        }
    });
    let wav = decode_wav_bytes(&bytes).unwrap();
    assert_eq!(wav.samples, vec![3000i64, 8000]);
    assert_eq!(wav.den, 65534);
    assert_eq!(wav.duration_ms_num, 2000);
    let first = wav.samples[0] as f64 / wav.den as f64;
    let expected = (1000.0 / 32767.0 + 2000.0 / 32767.0) / 2.0;
    assert!((first - expected).abs() < 1e-9);
}

#[test]
fn mono_24_bit_uses_its_full_scale() {
    let bytes = wav_bytes(int_spec(1, 48000, 24), |w| {
        for s in [-8388608i32, 8388607, 0] {
            w.write_sample(s).unwrap();
        }
    });
    let wav = decode_wav_bytes(&bytes).unwrap();
    assert_eq!(wav.samples, vec![-8388608i64, 8388607, 0]);
    assert_eq!(wav.den, 8388608);
}

#[test]
fn mono_32_bit_uses_its_full_scale() {
    let bytes = wav_bytes(int_spec(1, 48000, 32), |w| {
        for s in [i32::MIN, i32::MAX] {
            w.write_sample(s).unwrap();
        }
    });
    let wav = decode_wav_bytes(&bytes).unwrap();
    assert_eq!(wav.samples, vec![i32::MIN as i64, i32::MAX as i64]);
    assert_eq!(wav.den, 2147483647);
}

#[test]
fn unsupported_bit_depth_is_reported() {
    let bytes = wav_bytes(int_spec(1, 8000, 8), |w| {
        for s in [0i16, 10, -10] {
            w.write_sample(s).unwrap();
        }
    });
    assert_eq!(decode_wav_bytes(&bytes).unwrap_err(), DecodeError::UnsupportedFormat(8));
}

#[test]
fn float_format_is_reported_unsupported() {
    let spec = hound::WavSpec {
        channels: 1,
        sample_rate: 8000,
        bits_per_sample: 32,
        sample_format: hound::SampleFormat::Float,
    };
    let bytes = wav_bytes(spec, |w| {
        for s in [0.0f32, 0.5, -0.5] {
            w.write_sample(s).unwrap();
        }
    });
    assert_eq!(decode_wav_bytes(&bytes).unwrap_err(), DecodeError::UnsupportedFormat(32));
}

#[test]
fn garbage_bytes_fail_to_open() {
    let bytes = vec![0x42u8; 64];
    assert_eq!(decode_wav_bytes(&bytes).unwrap_err(), DecodeError::OpenFailed);
    assert_eq!(decode_wav_bytes(&Vec::new()).unwrap_err(), DecodeError::OpenFailed);
}

#[test]
fn truncated_data_chunk_fails_the_sample_read() {
    let mut bytes = wav_bytes(int_spec(1, 8000, 16), |w| {
        for s in [100i16, 200, 300, 400] {
            w.write_sample(s).unwrap();
        }
    });
    bytes.truncate(bytes.len() - 3);
    assert_eq!(decode_wav_bytes(&bytes).unwrap_err(), DecodeError::SampleReadFailed);
}

#[test]
fn decode_samples_rejects_bad_layouts_and_rates() {
    let raw = vec![0i32, 1, 2];
    assert_eq!(
        decode_samples(SampleFormat::Signed16, 3, 8000, &raw).unwrap_err(),
        DecodeError::UnsupportedChannelLayout(3)
    );
    assert_eq!(
        decode_samples(SampleFormat::Signed16, 1, 0, &raw).unwrap_err(),
        DecodeError::OpenFailed
    );
    let wav = decode_samples(SampleFormat::Signed16, 1, 8000, &raw).unwrap();
    assert_eq!(wav.samples, vec![0i64, 1, 2]);
    assert_eq!(wav.den, 32767);
}
