//! Notification sounds around a recording session. Decoding and playback
//! live outside on a dedicated thread; this module names the sounds and
//! owns the sending half of the channel to that thread.

use vstd::prelude::*;

verus! {

/// The notification sounds the recorder plays.
#[derive(Clone, Copy, Debug, PartialEq, Eq, Structural)]
pub enum Sound {
    StartRecording,
    StopRecording,
}

impl Sound {
    /// The bundled file each sound is decoded from.
    pub fn filename(&self) -> (r: &'static str)
        ensures
            *self == Sound::StartRecording ==> r@ == "start_record.mp3"@,
            *self == Sound::StopRecording ==> r@ == "stop_record.mp3"@,
    {
        match self {
            Sound::StartRecording => "start_record.mp3",
            Sound::StopRecording => "stop_record.mp3",
        }
    }
}

#[verifier::external_type_specification]
#[verifier::external_body]
#[verifier::reject_recursive_types(T)]
pub struct ExSender<T>(std::sync::mpsc::Sender<T>);

/// Relies on `Sender::send`: hands the sound to the playback thread;
/// returns whether the receiving half was still alive.
#[verifier::external_body]
fn send_sound(tx: &std::sync::mpsc::Sender<Sound>, sound: Sound) -> bool {
    tx.send(sound).is_ok()
}

/// Owns the sending half of the channel to the playback thread.
pub struct SoundManager {
    pub tx: std::sync::mpsc::Sender<Sound>,
}

impl SoundManager {
    pub fn new(tx: std::sync::mpsc::Sender<Sound>) -> SoundManager {
        SoundManager { tx }
    }

    /// Queue a sound, fire-and-forget; returns whether the playback thread
    /// was still there to take it.
    pub fn play(&self, sound: Sound) -> bool {
        send_sound(&self.tx, sound)
    }
}

} // verus!
