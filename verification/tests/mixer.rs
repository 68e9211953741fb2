use audio_monitor::errors::DecodeError;
use audio_monitor::mixer::downmix;

#[test]
fn stereo_pairs_average() {
    // Amplitudes [(1.0, 0.0), (0.5, 0.5)] over den 2: numerators [2,0,1,1].
    let samples = vec![2i64, 0, 1, 1];
    let (mono, den) = downmix(&samples, 2, 2).unwrap();
    // Both frames average to 0.5: numerators [2, 2] over den 4.
    assert_eq!(mono, vec![2i64, 2]);
    assert_eq!(den, 4);
    assert_eq!(mono[0] as f64 / den as f64, 0.5);
    assert_eq!(mono[1] as f64 / den as f64, 0.5);
}

#[test]
fn odd_length_trailing_sample_pairs_with_zero() {
    // A lone 1.0 sample in a stereo buffer: the missing channel reads 0.0,
    // so the frame averages to 0.5.
    let samples = vec![2i64];
    let (mono, den) = downmix(&samples, 2, 2).unwrap();
    assert_eq!(mono, vec![2i64]);
    assert_eq!(den, 4);
    assert_eq!(mono[0] as f64 / den as f64, 0.5);
}

#[test]
fn mono_passes_through() {
    let samples = vec![5i64, -7, 0];
    let (mono, den) = downmix(&samples, 1, 100).unwrap();
    assert_eq!(mono, vec![5i64, -7, 0]);
    assert_eq!(den, 100);
}

#[test]
fn higher_channel_counts_are_rejected() {
    let samples = vec![1i64, 2, 3];
    assert_eq!(downmix(&samples, 3, 10).unwrap_err(), DecodeError::UnsupportedChannelLayout(3));
    assert_eq!(downmix(&samples, 0, 10).unwrap_err(), DecodeError::UnsupportedChannelLayout(0));
    assert_eq!(downmix(&samples, 6, 10).unwrap_err(), DecodeError::UnsupportedChannelLayout(6));
}

#[test]
fn empty_stereo_buffer_mixes_to_empty() {
    let (mono, den) = downmix(&Vec::new(), 2, 2).unwrap();
    assert!(mono.is_empty());
    assert_eq!(den, 4);
}
