use murmure::meter::{isqrt_u64, LevelMeter, LEVEL_FULL_SCALE};
use murmure::capture::{DurationCap, Recorder, CapturePhase, MAX_RECORDING_DURATION_MS};

#[test]
fn isqrt_exact_values() {
    assert_eq!(isqrt_u64(0), 0);
    assert_eq!(isqrt_u64(1), 1);
    assert_eq!(isqrt_u64(3), 1);
    assert_eq!(isqrt_u64(4), 2);
    assert_eq!(isqrt_u64(99), 9);
    assert_eq!(isqrt_u64(100), 10);
    assert_eq!(isqrt_u64(0xFFFF_FFFF), 65535);
}

#[test]
fn meter_silent_buffer_emits_zero() {
    let mut m = LevelMeter::new();
    m.accumulate(&vec![0i16; 512]);
    let level = m.window_level();
    assert_eq!(level, 0);
}

#[test]
fn meter_below_noise_gate_emits_exactly_zero() {
    let mut m = LevelMeter::new();
    // constant amplitude 400: rms 400, scaled 600, below the 2% gate (655)
    m.accumulate(&vec![400i16; 256]);
    let level = m.window_level();
    assert_eq!(level, 0);
}

#[test]
fn meter_loud_buffer_emits_level_in_range() {
    let mut m = LevelMeter::new();
    m.accumulate(&vec![20000i16; 256]);
    let level = m.window_level();
    assert!(level > 0);
    assert!(level <= LEVEL_FULL_SCALE);
    // rms 20000 scales to 30000, smoothed by 0.35 from a zero history
    assert_eq!(level as u32, (35 * 30000u32) / 100);
}

#[test]
fn meter_full_scale_is_clamped() {
    let mut m = LevelMeter::new();
    m.accumulate(&vec![-32768i16; 64]);
    let level = m.window_level();
    assert!(level <= LEVEL_FULL_SCALE);
    assert_eq!(level as u32, (35 * 32767u32) / 100);
}

#[test]
fn meter_empty_window_emits_zero_and_keeps_history() {
    let mut m = LevelMeter::new();
    m.accumulate(&vec![20000i16; 256]);
    let first = m.window_level();
    assert!(first > 0);
    let second = m.window_level();
    assert_eq!(second, 0);
    assert_eq!(m.ema_level, first);
}

#[test]
fn duration_cap_fires_exactly_once() {
    let mut cap = DurationCap::new(MAX_RECORDING_DURATION_MS);
    assert!(!cap.note_elapsed(1_000));
    assert!(!cap.note_elapsed(299_999));
    assert!(cap.note_elapsed(300_000));
    assert!(!cap.note_elapsed(300_001));
    assert!(!cap.note_elapsed(400_000));
    assert!(cap.fired);
}

#[test]
fn recorder_single_slot_guard_rejects_second_start() {
    let mut r = Recorder::new(MAX_RECORDING_DURATION_MS);
    assert!(r.start());
    assert!(!r.start());
    r.stop();
    assert!(r.start());
}

#[test]
fn recorder_stop_is_idempotent() {
    let mut r = Recorder::new(MAX_RECORDING_DURATION_MS);
    r.stop();
    assert_eq!(r.phase, CapturePhase::Idle);
    assert!(r.start());
    r.stop();
    r.stop();
    assert_eq!(r.phase, CapturePhase::Idle);
}

#[test]
fn recorder_callback_downmixes_and_flags_limit() {
    let mut r = Recorder::new(100);
    assert!(r.start());
    let out = r.process_block(&vec![100i16, 200, 300, 500], 2, 50);
    assert_eq!(out.mono, vec![150, 400]);
    assert!(!out.limit_fired);
    assert_eq!(r.phase, CapturePhase::Recording);
    let out2 = r.process_block(&vec![0i16, 0], 2, 150);
    assert!(out2.limit_fired);
    assert_eq!(r.phase, CapturePhase::Limited);
    let out3 = r.process_block(&vec![0i16, 0], 2, 200);
    assert!(!out3.limit_fired);
}

#[test]
fn recorder_start_resets_cap_flag() {
    let mut r = Recorder::new(10);
    assert!(r.start());
    let out = r.process_block(&vec![0i16], 1, 20);
    assert!(out.limit_fired);
    r.stop();
    assert!(r.start());
    assert!(!r.cap.fired);
}

#[test]
fn recorder_window_tick_reports_meter_level() {
    let mut r = Recorder::new(MAX_RECORDING_DURATION_MS);
    assert!(r.start());
    r.process_block(&vec![20000i16; 128], 1, 10);
    let level = r.window_tick();
    assert_eq!(level as u32, (35 * 30000u32) / 100);
    assert!(level <= LEVEL_FULL_SCALE);
}
