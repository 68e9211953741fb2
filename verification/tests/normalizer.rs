use audio_monitor::sample::SampleFormat;
use audio_monitor::sample::den_of;
use audio_monitor::sample::normalize_block;
use audio_monitor::sample::normalize_sample;

#[test]
fn signed16_zero_is_zero() {
    assert_eq!(normalize_sample(SampleFormat::Signed16, 0), 0);
}

#[test]
fn signed16_full_scale_values() {
    let den = den_of(SampleFormat::Signed16);
    assert_eq!(den, 32767);
    // Positive full scale is exactly 1.0.
    assert_eq!(normalize_sample(SampleFormat::Signed16, 32767), 32767);
    // The asymmetric minimum is approximately -1.0 (slightly below).
    let num = normalize_sample(SampleFormat::Signed16, -32768);
    assert_eq!(num, -32768);
    let value = num as f64 / den as f64;
    assert!((value + 1.0).abs() < 1e-4);
    assert!(value < -1.0);
}

#[test]
fn signed16_range_bound() {
    let den = den_of(SampleFormat::Signed16) as i64;
    for raw in [-32767i32, -12345, -1, 0, 1, 12345, 32767] {
        let num = normalize_sample(SampleFormat::Signed16, raw);
        assert!(-den <= num && num <= den);
    }
}

#[test]
fn unsigned16_endpoints() {
    let den = den_of(SampleFormat::Unsigned16);
    assert_eq!(den, 65535);
    // 0 maps to -1.0, 65535 to 1.0, midpoint just above zero.
    assert_eq!(normalize_sample(SampleFormat::Unsigned16, 0), -65535);
    assert_eq!(normalize_sample(SampleFormat::Unsigned16, 65535), 65535);
    assert_eq!(normalize_sample(SampleFormat::Unsigned16, 32768), 1);
}

#[test]
fn signed24_endpoints() {
    let den = den_of(SampleFormat::Signed24);
    assert_eq!(den, 8388608);
    assert_eq!(normalize_sample(SampleFormat::Signed24, -8388608), -8388608);
    assert_eq!(normalize_sample(SampleFormat::Signed24, 8388607), 8388607);
}

#[test]
fn signed32_endpoints() {
    let den = den_of(SampleFormat::Signed32);
    assert_eq!(den, 2147483647);
    assert_eq!(normalize_sample(SampleFormat::Signed32, i32::MIN), i32::MIN as i64);
    assert_eq!(normalize_sample(SampleFormat::Signed32, i32::MAX), i32::MAX as i64);
}

#[test]
fn block_is_elementwise() {
    let raw = vec![0i32, 100, -100, 32767];
    let out = normalize_block(SampleFormat::Signed16, &raw);
    assert_eq!(out, vec![0i64, 100, -100, 32767]);
    let raw_u = vec![0i32, 65535, 32768];
    let out_u = normalize_block(SampleFormat::Unsigned16, &raw_u);
    assert_eq!(out_u, vec![-65535i64, 65535, 1]);
}
