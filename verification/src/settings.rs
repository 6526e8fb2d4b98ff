//! Application settings: the cached configuration struct, its defaults, and
//! the validation rules the setting commands enforce. Persistence of the
//! settings lives outside; it exchanges this plain struct.

use vstd::prelude::*;
use crate::text::{chars_of, eq_chars};
use crate::dictionary::{to_lowercase, lower_of};

verus! {

/// Progress of the first-run onboarding hints.
#[derive(Clone, Debug, PartialEq, Eq, Structural)]
pub struct OnboardingState {
    pub used_home_shortcut: bool,
    pub transcribed_outside_app: bool,
    pub added_dictionary_word: bool,
    pub congrats_dismissed: bool,
}

impl Default for OnboardingState {
    fn default() -> (r: OnboardingState)
        ensures
            !r.used_home_shortcut,
            !r.transcribed_outside_app,
            !r.added_dictionary_word,
            !r.congrats_dismissed,
    {
        OnboardingState {
            used_home_shortcut: false,
            transcribed_outside_app: false,
            added_dictionary_word: false,
            congrats_dismissed: false,
        }
    }
}

/// The application's settings, cached in memory and refreshed on explicit
/// change events rather than re-read from storage on hot paths.
#[derive(Clone, Debug)]
pub struct AppSettings {
    pub record_shortcut: String,
    pub last_transcript_shortcut: String,
    pub llm_record_shortcut: String,
    pub dictionary: Vec<String>,
    pub record_mode: String,
    pub overlay_mode: String,
    pub overlay_position: String,
    pub api_enabled: bool,
    pub api_port: u16,
    pub copy_to_clipboard: bool,
    pub persist_history: bool,
    pub language: String,
    pub sound_enabled: bool,
    pub onboarding: OnboardingState,
    pub mic_id: Option<String>,
    pub log_level: String,
}

impl Default for AppSettings {
    fn default() -> (r: AppSettings)
        ensures
            r.record_shortcut@ == "ctrl+space"@,
            r.last_transcript_shortcut@ == "ctrl+shift+space"@,
            r.llm_record_shortcut@ == "ctrl+alt+space"@,
            r.dictionary@.len() == 0,
            r.record_mode@ == "push_to_talk"@,
            r.overlay_mode@ == "recording"@,
            r.overlay_position@ == "bottom"@,
            !r.api_enabled,
            r.api_port == 4800,
            !r.copy_to_clipboard,
            r.persist_history,
            r.language@ == "default"@,
            r.sound_enabled,
            (r.onboarding == OnboardingState {
                used_home_shortcut: false,
                transcribed_outside_app: false,
                added_dictionary_word: false,
                congrats_dismissed: false,
            }),
            (r.mic_id is None),
            r.log_level@ == "info"@,
    {
        AppSettings {
            record_shortcut: String::from_str("ctrl+space"),
            last_transcript_shortcut: String::from_str("ctrl+shift+space"),
            llm_record_shortcut: String::from_str("ctrl+alt+space"),
            dictionary: Vec::new(),
            record_mode: String::from_str("push_to_talk"),
            overlay_mode: String::from_str("recording"),
            overlay_position: String::from_str("bottom"),
            api_enabled: false,
            api_port: 4800,
            copy_to_clipboard: false,
            persist_history: true,
            language: String::from_str("default"),
            sound_enabled: true,
            onboarding: Default::default(),
            mic_id: Option::None,
            log_level: String::from_str("info"),
        }
    }
}

/// Whether `lang` is a language code the interface supports.
pub fn is_supported_language(lang: &str) -> (b: bool)
    ensures
        b == (lang@ == "default"@ || lang@ == "en"@ || lang@ == "fr"@),
{
    let v = chars_of(lang);
    eq_chars(&v, &chars_of("default")) || eq_chars(&v, &chars_of("en")) || eq_chars(
        &v,
        &chars_of("fr"),
    )
}

/// Whether `level`, case-folded, is a log level the logger accepts.
pub fn is_valid_log_level(level: &str) -> (b: bool)
    ensures
        b == {
            let l = lower_of(level@);
            l == "off"@ || l == "error"@ || l == "warn"@ || l == "info"@ || l == "debug"@ || l
                == "trace"@
        },
{
    let lowered = to_lowercase(level);
    let v = chars_of(lowered.as_str());
    eq_chars(&v, &chars_of("off")) || eq_chars(&v, &chars_of("error")) || eq_chars(
        &v,
        &chars_of("warn"),
    ) || eq_chars(&v, &chars_of("info")) || eq_chars(&v, &chars_of("debug")) || eq_chars(
        &v,
        &chars_of("trace"),
    )
}

/// Whether `port` may serve the local ingestion endpoint: the well-known
/// ports below 1024 are rejected.
pub fn api_port_ok(port: u16) -> (b: bool)
    ensures
        b == (port >= 1024),
{
    port >= 1024
}

} // verus!
