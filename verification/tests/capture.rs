use audio_monitor::capture::CaptureManager;
use audio_monitor::capture::ChannelSlot;
use audio_monitor::sample::SampleFormat;

#[test]
fn fresh_manager_reads_zero() {
    let m = CaptureManager::new();
    assert_eq!(m.get_volume(ChannelSlot::Primary).num, 0);
    assert_eq!(m.get_volume(ChannelSlot::Secondary).num, 0);
    assert!(!m.primary.active);
    assert!(!m.secondary.active);
}

#[test]
fn stop_on_never_started_slot_is_a_noop_success() {
    let mut m = CaptureManager::new();
    let prev = m.stop_monitoring(ChannelSlot::Primary);
    assert_eq!(prev, None);
    assert_eq!(m.get_volume(ChannelSlot::Primary).num, 0);
    assert!(!m.primary.active);
}

#[test]
fn second_start_supersedes_without_leaking() {
    let mut m = CaptureManager::new();
    let prev = m.begin_session(ChannelSlot::Primary, 1);
    assert_eq!(prev, None);
    assert!(m.primary.active);
    // Starting again hands the first stream back for disposal and leaves
    // the second stream authoritative.
    let prev = m.begin_session(ChannelSlot::Primary, 2);
    assert_eq!(prev, Some(1));
    assert!(m.primary.active);
    assert_eq!(m.primary.stream_token, Some(2));
    // The other slot was never touched.
    assert!(!m.secondary.active);
}

#[test]
fn full_scale_block_reads_one_hundred() {
    let mut m = CaptureManager::new();
    m.begin_session(ChannelSlot::Primary, 1);
    m.process_block(ChannelSlot::Primary, SampleFormat::Signed16, &vec![32767i32; 4]);
    let p = m.get_volume(ChannelSlot::Primary);
    assert_eq!((p.num, p.den), (100, 1));
}

#[test]
fn half_scale_block_reads_about_fifty() {
    let mut m = CaptureManager::new();
    m.begin_session(ChannelSlot::Secondary, 9);
    m.process_block(ChannelSlot::Secondary, SampleFormat::Signed16, &vec![16384i32; 2]);
    let p = m.get_volume(ChannelSlot::Secondary);
    let value = p.num as f64 / p.den as f64;
    assert!((value - 50.0).abs() < 0.01);
    // The primary slot is unaffected.
    assert_eq!(m.get_volume(ChannelSlot::Primary).num, 0);
}

#[test]
fn empty_block_is_silence_not_an_error() {
    let mut m = CaptureManager::new();
    m.begin_session(ChannelSlot::Primary, 1);
    m.process_block(ChannelSlot::Primary, SampleFormat::Signed16, &vec![32767i32; 4]);
    m.process_block(ChannelSlot::Primary, SampleFormat::Signed16, &Vec::new());
    assert_eq!(m.get_volume(ChannelSlot::Primary).num, 0);
}

#[test]
fn block_on_inactive_slot_changes_nothing() {
    let mut m = CaptureManager::new();
    m.process_block(ChannelSlot::Primary, SampleFormat::Signed16, &vec![32767i32; 4]);
    assert_eq!(m.get_volume(ChannelSlot::Primary).num, 0);
    assert!(!m.primary.active);
}

#[test]
fn stale_block_after_stop_never_overwrites_the_zero() {
    let mut m = CaptureManager::new();
    m.begin_session(ChannelSlot::Primary, 1);
    m.process_block(ChannelSlot::Primary, SampleFormat::Signed16, &vec![32767i32; 4]);
    let prev = m.stop_monitoring(ChannelSlot::Primary);
    assert_eq!(prev, Some(1));
    // A late callback write from the stopped stream must be discarded.
    m.process_block(ChannelSlot::Primary, SampleFormat::Signed16, &vec![32767i32; 4]);
    assert_eq!(m.get_volume(ChannelSlot::Primary).num, 0);
}

#[test]
fn unsigned_blocks_measure_distance_from_midpoint() {
    let mut m = CaptureManager::new();
    m.begin_session(ChannelSlot::Primary, 1);
    // All-maximum unsigned samples normalize to 1.0: full deflection.
    m.process_block(ChannelSlot::Primary, SampleFormat::Unsigned16, &vec![65535i32; 3]);
    let p = m.get_volume(ChannelSlot::Primary);
    assert_eq!((p.num, p.den), (100, 1));
}
