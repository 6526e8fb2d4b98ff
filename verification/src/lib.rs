//! Core of a voice-dictation pipeline: audio sample preparation (downmix,
//! linear resampling), a live level meter with a hard recording-duration cap,
//! the post-capture processing pipeline with per-stage fallback, a phonetic
//! dictionary matcher, and the dictionary store's validation rules.

pub mod api;
pub mod audio;
pub mod capture;
pub mod helpers;
pub mod dictionary;
pub mod engine;
pub mod keymap;
pub mod llm;
pub mod meter;
pub mod microphone;
pub mod overlay;
pub mod phonetic;
pub mod pipeline;
pub mod settings;
pub mod sound;
pub mod text;
