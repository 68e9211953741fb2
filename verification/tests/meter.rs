use audio_monitor::meter::Rms;
use audio_monitor::meter::calculate_rms;
use audio_monitor::meter::volume_percent;

#[test]
fn empty_block_reads_zero() {
    let r = calculate_rms(&Vec::new(), 32767);
    assert_eq!(r.num, 0);
    assert_eq!(r.den, 1);
}

#[test]
fn all_zero_block_reads_zero_any_length() {
    for len in [1usize, 2, 3, 10, 1000] {
        let r = calculate_rms(&vec![0i64; len], 32767);
        assert_eq!(r.num, 0);
    }
}

#[test]
fn constant_block_reads_its_magnitude() {
    // Four samples of amplitude 1/2: RMS is exactly 1/2.
    let r = calculate_rms(&vec![1i64; 4], 2);
    assert_eq!(r.num, 4);
    assert_eq!(r.den, 8);
    // Negative constant: RMS is the magnitude.
    let r = calculate_rms(&vec![-3i64; 5], 4);
    assert_eq!(r.num, 15);
    assert_eq!(r.den, 20);
}

#[test]
fn full_scale_constant_block_reads_one() {
    let r = calculate_rms(&vec![32767i64; 3], 32767);
    assert_eq!(r.num, r.den);
    let p = volume_percent(&r);
    assert_eq!(p.num, 100);
    assert_eq!(p.den, 1);
}

#[test]
fn non_constant_block_floor_root() {
    // Samples 3/5 and 4/5: mean square is 25/50, true RMS sqrt(1/2).
    // The meter returns the floor root: isqrt(2 * 25) == 7 over 10.
    let r = calculate_rms(&vec![3i64, 4], 5);
    assert_eq!(r.num, 7);
    assert_eq!(r.den, 10);
}

#[test]
fn percent_caps_at_one_hundred() {
    // RMS exactly 1.0 and above both map to exactly 100.
    let p = volume_percent(&Rms { num: 1, den: 1 });
    assert_eq!((p.num, p.den), (100, 1));
    let p = volume_percent(&Rms { num: 3, den: 2 });
    assert_eq!((p.num, p.den), (100, 1));
}

#[test]
fn percent_of_half_is_fifty() {
    let p = volume_percent(&Rms { num: 1, den: 2 });
    assert_eq!(p.num as f64 / p.den as f64, 50.0);
}

#[test]
fn percent_of_zero_is_zero() {
    let p = volume_percent(&Rms { num: 0, den: 1 });
    assert_eq!(p.num, 0);
}
