use murmure::helpers::{wav_file_name, generate_unique_wav_name};
use murmure::settings::{AppSettings, OnboardingState, is_supported_language, is_valid_log_level,
    api_port_ok};
use murmure::sound::{Sound, SoundManager};
use murmure::overlay::{MonitorRect, is_mouse_within_monitor, monitor_at};
use murmure::keymap::{Key, key_to_vk, all_keys_pressed, shortcut_step, RecordingSource,
    ShortcutAction};
use murmure::api::{TranscriptionResponse, ErrorResponse};
use murmure::engine::{engine_begin_load, engine_finish_load, EngineState};
use murmure::microphone::find_device_index;

#[test]
fn wav_file_name_renders_timestamp() {
    assert_eq!(wav_file_name(0), "murmure-0.wav");
    assert_eq!(wav_file_name(1700000000), "murmure-1700000000.wav");
    assert_eq!(wav_file_name(u64::MAX), "murmure-18446744073709551615.wav");
}

#[test]
fn generated_wav_name_has_prefix_and_extension() {
    let name = generate_unique_wav_name();
    assert!(name.starts_with("murmure-"));
    assert!(name.ends_with(".wav"));
}

#[test]
fn default_settings_match_documented_values() {
    let s = AppSettings::default();
    assert_eq!(s.record_shortcut, "ctrl+space");
    assert_eq!(s.last_transcript_shortcut, "ctrl+shift+space");
    assert_eq!(s.llm_record_shortcut, "ctrl+alt+space");
    assert!(s.dictionary.is_empty());
    assert_eq!(s.record_mode, "push_to_talk");
    assert_eq!(s.overlay_mode, "recording");
    assert_eq!(s.overlay_position, "bottom");
    assert!(!s.api_enabled);
    assert_eq!(s.api_port, 4800);
    assert!(!s.copy_to_clipboard);
    assert!(s.persist_history);
    assert_eq!(s.language, "default");
    assert!(s.sound_enabled);
    assert_eq!(s.onboarding, OnboardingState::default());
    assert!(s.mic_id.is_none());
    assert_eq!(s.log_level, "info");
}

#[test]
fn language_and_log_level_validation() {
    assert!(is_supported_language("default"));
    assert!(is_supported_language("en"));
    assert!(is_supported_language("fr"));
    assert!(!is_supported_language("de"));
    assert!(is_valid_log_level("info"));
    assert!(is_valid_log_level("DEBUG"));
    assert!(is_valid_log_level("Trace"));
    assert!(!is_valid_log_level("verbose"));
}

#[test]
fn api_port_validation_rejects_well_known_ports() {
    assert!(!api_port_ok(80));
    assert!(!api_port_ok(1023));
    assert!(api_port_ok(1024));
    assert!(api_port_ok(4800));
}

#[test]
fn sound_filenames() {
    assert_eq!(Sound::StartRecording.filename(), "start_record.mp3");
    assert_eq!(Sound::StopRecording.filename(), "stop_record.mp3");
}

#[test]
fn sound_manager_delivers_queued_sound() {
    let (tx, rx) = std::sync::mpsc::channel();
    let manager = SoundManager::new(tx);
    assert!(manager.play(Sound::StartRecording));
    assert_eq!(rx.recv().unwrap(), Sound::StartRecording);
    drop(rx);
    // once the playback thread is gone, queueing reports the loss
    assert!(!manager.play(Sound::StopRecording));
}

#[test]
fn mouse_within_monitor_bounds() {
    let m = MonitorRect { x: 100, y: 50, width: 1920, height: 1080 };
    assert!(is_mouse_within_monitor(100, 50, &m));
    assert!(is_mouse_within_monitor(2019, 1129, &m));
    assert!(!is_mouse_within_monitor(2020, 500, &m));
    assert!(!is_mouse_within_monitor(99, 500, &m));
    assert!(!is_mouse_within_monitor(500, 1130, &m));
}

#[test]
fn monitor_at_picks_first_containing_monitor() {
    let monitors = vec![
        MonitorRect { x: 0, y: 0, width: 1920, height: 1080 },
        MonitorRect { x: 1920, y: 0, width: 1920, height: 1080 },
    ];
    assert_eq!(monitor_at(10, 10, &monitors), Some(0));
    assert_eq!(monitor_at(2000, 10, &monitors), Some(1));
    assert_eq!(monitor_at(-5, 10, &monitors), None);
}

#[test]
fn key_to_vk_maps_tracked_keys() {
    assert_eq!(key_to_vk(&Key::ControlLeft), Some(0x11));
    assert_eq!(key_to_vk(&Key::Space), Some(0x20));
    assert_eq!(key_to_vk(&Key::KeyA), Some(0x41));
    assert_eq!(key_to_vk(&Key::F12), Some(0x7B));
    assert_eq!(key_to_vk(&Key::Other), None);
}

#[test]
fn combo_requires_every_key_down() {
    let pressed = vec![0x11, 0x20, 0x41];
    assert!(all_keys_pressed(&pressed, &vec![0x11, 0x20]));
    assert!(!all_keys_pressed(&pressed, &vec![0x11, 0x12]));
    assert!(!all_keys_pressed(&pressed, &Vec::new()));
}

#[test]
fn shortcut_step_transitions() {
    // llm combination outranks the standard one
    let (next, action) = shortcut_step(RecordingSource::Inactive, true, true, true, false, false);
    assert_eq!(next, RecordingSource::Llm);
    assert_eq!(action, ShortcutAction::StartLlm);

    let (next, action) = shortcut_step(RecordingSource::Inactive, true, false, true, false, false);
    assert_eq!(next, RecordingSource::Standard);
    assert_eq!(action, ShortcutAction::StartStandard);

    // releasing the combination stops the recording
    let (next, action) = shortcut_step(RecordingSource::Standard, false, false, true, false, false);
    assert_eq!(next, RecordingSource::Inactive);
    assert_eq!(action, ShortcutAction::StopAndProcess);

    // toggle mode latches the recording across the release
    let (next, action) = shortcut_step(RecordingSource::Standard, false, false, true, true, false);
    assert_eq!(next, RecordingSource::Standard);
    assert_eq!(action, ShortcutAction::Stay);

    // the duration cap force-stops whatever is held down
    let (next, action) = shortcut_step(RecordingSource::Llm, false, true, true, false, true);
    assert_eq!(next, RecordingSource::Inactive);
    assert_eq!(action, ShortcutAction::ForceStop);
}

#[test]
fn api_response_bodies_carry_their_text() {
    let ok = TranscriptionResponse::new("hello".to_string());
    assert_eq!(ok.text, "hello");
    let err = ErrorResponse::new("boom".to_string());
    assert_eq!(err.error, "boom");
}

#[test]
fn engine_slot_loads_once() {
    let (s, should_load) = engine_begin_load(EngineState::Unloaded);
    assert!(should_load);
    assert_eq!(s, EngineState::Loading);
    // a concurrent caller waits instead of racing the load
    let (s2, race) = engine_begin_load(s);
    assert!(!race);
    assert_eq!(s2, EngineState::Loading);
    let ready = engine_finish_load(s2, true);
    assert_eq!(ready, EngineState::Ready);
    // never re-initialized while present
    let (s3, again) = engine_begin_load(ready);
    assert!(!again);
    assert_eq!(s3, EngineState::Ready);
    // a failed load releases the slot for a retry
    let retry = engine_finish_load(EngineState::Loading, false);
    assert_eq!(retry, EngineState::Unloaded);
}

#[test]
fn find_device_index_picks_first_matching_name() {
    let names = vec!["default".to_string(), "usb mic".to_string(), "usb mic".to_string()];
    assert_eq!(find_device_index(&names, &"usb mic".to_string()), Some(1));
    assert_eq!(find_device_index(&names, &"missing".to_string()), None);
}
