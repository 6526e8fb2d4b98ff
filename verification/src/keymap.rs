//! Shortcut detection as a pure state machine: platform key listeners hand
//! in which keys are down (as virtual-key codes), and this module decides
//! when a recording starts, stops or is force-stopped. The listener thread
//! and the OS hooks live outside.

use vstd::prelude::*;

verus! {

/// The keys the shortcut combinations are built from.
#[derive(Clone, Copy, Debug, PartialEq, Eq, Structural)]
pub enum Key {
    MetaLeft,
    MetaRight,
    ControlLeft,
    ControlRight,
    Alt,
    AltGr,
    ShiftLeft,
    ShiftRight,
    KeyA,
    KeyB,
    KeyC,
    KeyD,
    KeyE,
    KeyF,
    KeyG,
    KeyH,
    KeyI,
    KeyJ,
    KeyK,
    KeyL,
    KeyM,
    KeyN,
    KeyO,
    KeyP,
    KeyQ,
    KeyR,
    KeyS,
    KeyT,
    KeyU,
    KeyV,
    KeyW,
    KeyX,
    KeyY,
    KeyZ,
    Num0,
    Num1,
    Num2,
    Num3,
    Num4,
    Num5,
    Num6,
    Num7,
    Num8,
    Num9,
    F1,
    F2,
    F3,
    F4,
    F5,
    F6,
    F7,
    F8,
    F9,
    F10,
    F11,
    F12,
    Space,
    Return,
    Escape,
    Tab,
    Backspace,
    Delete,
    Insert,
    Home,
    End,
    PageUp,
    PageDown,
    UpArrow,
    DownArrow,
    LeftArrow,
    RightArrow,
    /// Any key the shortcut system does not track.
    Other,
}

/// The virtual-key code each tracked key maps to, shared across the
/// platform listeners.
pub open spec fn key_vk(k: Key) -> Option<i32> {
    match k {
        Key::MetaLeft | Key::MetaRight => Option::Some(0x5B),
        Key::ControlLeft | Key::ControlRight => Option::Some(0x11),
        Key::Alt | Key::AltGr => Option::Some(0x12),
        Key::ShiftLeft | Key::ShiftRight => Option::Some(0x10),
        Key::KeyA => Option::Some(0x41),
        Key::KeyB => Option::Some(0x42),
        Key::KeyC => Option::Some(0x43),
        Key::KeyD => Option::Some(0x44),
        Key::KeyE => Option::Some(0x45),
        Key::KeyF => Option::Some(0x46),
        Key::KeyG => Option::Some(0x47),
        Key::KeyH => Option::Some(0x48),
        Key::KeyI => Option::Some(0x49),
        Key::KeyJ => Option::Some(0x4A),
        Key::KeyK => Option::Some(0x4B),
        Key::KeyL => Option::Some(0x4C),
        Key::KeyM => Option::Some(0x4D),
        Key::KeyN => Option::Some(0x4E),
        Key::KeyO => Option::Some(0x4F),
        Key::KeyP => Option::Some(0x50),
        Key::KeyQ => Option::Some(0x51),
        Key::KeyR => Option::Some(0x52),
        Key::KeyS => Option::Some(0x53),
        Key::KeyT => Option::Some(0x54),
        Key::KeyU => Option::Some(0x55),
        Key::KeyV => Option::Some(0x56),
        Key::KeyW => Option::Some(0x57),
        Key::KeyX => Option::Some(0x58),
        Key::KeyY => Option::Some(0x59),
        Key::KeyZ => Option::Some(0x5A),
        Key::Num0 => Option::Some(0x30),
        Key::Num1 => Option::Some(0x31),
        Key::Num2 => Option::Some(0x32),
        Key::Num3 => Option::Some(0x33),
        Key::Num4 => Option::Some(0x34),
        Key::Num5 => Option::Some(0x35),
        Key::Num6 => Option::Some(0x36),
        Key::Num7 => Option::Some(0x37),
        Key::Num8 => Option::Some(0x38),
        Key::Num9 => Option::Some(0x39),
        Key::F1 => Option::Some(0x70),
        Key::F2 => Option::Some(0x71),
        Key::F3 => Option::Some(0x72),
        Key::F4 => Option::Some(0x73),
        Key::F5 => Option::Some(0x74),
        Key::F6 => Option::Some(0x75),
        Key::F7 => Option::Some(0x76),
        Key::F8 => Option::Some(0x77),
        Key::F9 => Option::Some(0x78),
        Key::F10 => Option::Some(0x79),
        Key::F11 => Option::Some(0x7A),
        Key::F12 => Option::Some(0x7B),
        Key::Space => Option::Some(0x20),
        Key::Return => Option::Some(0x0D),
        Key::Escape => Option::Some(0x1B),
        Key::Tab => Option::Some(0x09),
        Key::Backspace => Option::Some(0x08),
        Key::Delete => Option::Some(0x2E),
        Key::Insert => Option::Some(0x2D),
        Key::Home => Option::Some(0x24),
        Key::End => Option::Some(0x23),
        Key::PageUp => Option::Some(0x21),
        Key::PageDown => Option::Some(0x22),
        Key::UpArrow => Option::Some(0x26),
        Key::DownArrow => Option::Some(0x28),
        Key::LeftArrow => Option::Some(0x25),
        Key::RightArrow => Option::Some(0x27),
        Key::Other => Option::None,
    }
}

/// The virtual-key code for a key event, or `None` for untracked keys.
pub fn key_to_vk(k: &Key) -> (r: Option<i32>)
    ensures
        r == key_vk(*k),
{
    match k {
        Key::MetaLeft | Key::MetaRight => Option::Some(0x5B),
        Key::ControlLeft | Key::ControlRight => Option::Some(0x11),
        Key::Alt | Key::AltGr => Option::Some(0x12),
        Key::ShiftLeft | Key::ShiftRight => Option::Some(0x10),
        Key::KeyA => Option::Some(0x41),
        Key::KeyB => Option::Some(0x42),
        Key::KeyC => Option::Some(0x43),
        Key::KeyD => Option::Some(0x44),
        Key::KeyE => Option::Some(0x45),
        Key::KeyF => Option::Some(0x46),
        Key::KeyG => Option::Some(0x47),
        Key::KeyH => Option::Some(0x48),
        Key::KeyI => Option::Some(0x49),
        Key::KeyJ => Option::Some(0x4A),
        Key::KeyK => Option::Some(0x4B),
        Key::KeyL => Option::Some(0x4C),
        Key::KeyM => Option::Some(0x4D),
        Key::KeyN => Option::Some(0x4E),
        Key::KeyO => Option::Some(0x4F),
        Key::KeyP => Option::Some(0x50),
        Key::KeyQ => Option::Some(0x51),
        Key::KeyR => Option::Some(0x52),
        Key::KeyS => Option::Some(0x53),
        Key::KeyT => Option::Some(0x54),
        Key::KeyU => Option::Some(0x55),
        Key::KeyV => Option::Some(0x56),
        Key::KeyW => Option::Some(0x57),
        Key::KeyX => Option::Some(0x58),
        Key::KeyY => Option::Some(0x59),
        Key::KeyZ => Option::Some(0x5A),
        Key::Num0 => Option::Some(0x30),
        Key::Num1 => Option::Some(0x31),
        Key::Num2 => Option::Some(0x32),
        Key::Num3 => Option::Some(0x33),
        Key::Num4 => Option::Some(0x34),
        Key::Num5 => Option::Some(0x35),
        Key::Num6 => Option::Some(0x36),
        Key::Num7 => Option::Some(0x37),
        Key::Num8 => Option::Some(0x38),
        Key::Num9 => Option::Some(0x39),
        Key::F1 => Option::Some(0x70),
        Key::F2 => Option::Some(0x71),
        Key::F3 => Option::Some(0x72),
        Key::F4 => Option::Some(0x73),
        Key::F5 => Option::Some(0x74),
        Key::F6 => Option::Some(0x75),
        Key::F7 => Option::Some(0x76),
        Key::F8 => Option::Some(0x77),
        Key::F9 => Option::Some(0x78),
        Key::F10 => Option::Some(0x79),
        Key::F11 => Option::Some(0x7A),
        Key::F12 => Option::Some(0x7B),
        Key::Space => Option::Some(0x20),
        Key::Return => Option::Some(0x0D),
        Key::Escape => Option::Some(0x1B),
        Key::Tab => Option::Some(0x09),
        Key::Backspace => Option::Some(0x08),
        Key::Delete => Option::Some(0x2E),
        Key::Insert => Option::Some(0x2D),
        Key::Home => Option::Some(0x24),
        Key::End => Option::Some(0x23),
        Key::PageUp => Option::Some(0x21),
        Key::PageDown => Option::Some(0x22),
        Key::UpArrow => Option::Some(0x26),
        Key::DownArrow => Option::Some(0x28),
        Key::LeftArrow => Option::Some(0x25),
        Key::RightArrow => Option::Some(0x27),
        Key::Other => Option::None,
    }
}

/// A shortcut combination is down when it is non-empty and every required
/// key is among the pressed ones.
pub fn all_keys_pressed(pressed: &Vec<i32>, required: &Vec<i32>) -> (b: bool)
    ensures
        b == (required@.len() > 0 && forall|i: int|
            0 <= i < required@.len() ==> pressed@.contains(#[trigger] required@[i])),
{
    if required.len() == 0 {
        return false;
    }
    let n = required.len();
    let mut i: usize = 0;
    while i < n
        invariant
            n == required@.len(),
            i <= n,
            forall|j: int| 0 <= j < i ==> pressed@.contains(#[trigger] required@[j]),
        decreases n - i,
    {
        let want = required[i];
        let m = pressed.len();
        let mut k: usize = 0;
        let mut found = false;
        while k < m
            invariant
                m == pressed@.len(),
                k <= m,
                found ==> pressed@.contains(want),
                !found ==> forall|j: int| 0 <= j < k ==> pressed@[j] != want,
            decreases m - k,
        {
            if pressed[k] == want {
                found = true;
            }
            k = k + 1;
        }
        if !found {
            return false;
        }
        i = i + 1;
    }
    true
}

/// Where the key-state poller stands: no recording, a standard one, or an
/// LLM-refined one.
#[derive(Clone, Copy, Debug, PartialEq, Eq, Structural)]
pub enum RecordingSource {
    Inactive,
    Standard,
    Llm,
}

/// What the poller should do this tick.
#[derive(Clone, Copy, Debug, PartialEq, Eq, Structural)]
pub enum ShortcutAction {
    /// Begin a standard recording.
    StartStandard,
    /// Begin a recording that will take the LLM refinement path.
    StartLlm,
    /// Stop the recording and process it.
    StopAndProcess,
    /// The duration cap fired: stop the recording immediately.
    ForceStop,
    /// Nothing changes this tick.
    Stay,
}

/// One tick of the shortcut poller. The LLM combination outranks the
/// standard one when both are down; a running recording stops when its
/// combination is released (unless latched by toggle mode) or is
/// force-stopped when the duration cap has fired.
pub open spec fn shortcut_step_spec(
    source: RecordingSource,
    record_down: bool,
    llm_down: bool,
    should_record: bool,
    toggled: bool,
    limit_reached: bool,
) -> (RecordingSource, ShortcutAction) {
    match source {
        RecordingSource::Inactive => if llm_down && should_record {
            (RecordingSource::Llm, ShortcutAction::StartLlm)
        } else if record_down && should_record {
            (RecordingSource::Standard, ShortcutAction::StartStandard)
        } else {
            (RecordingSource::Inactive, ShortcutAction::Stay)
        },
        RecordingSource::Standard => if limit_reached {
            (RecordingSource::Inactive, ShortcutAction::ForceStop)
        } else if !record_down && !toggled {
            (RecordingSource::Inactive, ShortcutAction::StopAndProcess)
        } else {
            (RecordingSource::Standard, ShortcutAction::Stay)
        },
        RecordingSource::Llm => if limit_reached {
            (RecordingSource::Inactive, ShortcutAction::ForceStop)
        } else if !llm_down && !toggled {
            (RecordingSource::Inactive, ShortcutAction::StopAndProcess)
        } else {
            (RecordingSource::Llm, ShortcutAction::Stay)
        },
    }
}

/// Decide one poller tick; the caller performs the action and feeds back
/// the next key state.
pub fn shortcut_step(
    source: RecordingSource,
    record_down: bool,
    llm_down: bool,
    should_record: bool,
    toggled: bool,
    limit_reached: bool,
) -> (r: (RecordingSource, ShortcutAction))
    ensures
        r == shortcut_step_spec(
            source,
            record_down,
            llm_down,
            should_record,
            toggled,
            limit_reached,
        ),
{
    match source {
        RecordingSource::Inactive => {
            if llm_down && should_record {
                (RecordingSource::Llm, ShortcutAction::StartLlm)
            } else if record_down && should_record {
                (RecordingSource::Standard, ShortcutAction::StartStandard)
            } else {
                (RecordingSource::Inactive, ShortcutAction::Stay)
            }
        },
        RecordingSource::Standard => {
            if limit_reached {
                (RecordingSource::Inactive, ShortcutAction::ForceStop)
            } else if !record_down && !toggled {
                (RecordingSource::Inactive, ShortcutAction::StopAndProcess)
            } else {
                (RecordingSource::Standard, ShortcutAction::Stay)
            }
        },
        RecordingSource::Llm => {
            if limit_reached {
                (RecordingSource::Inactive, ShortcutAction::ForceStop)
            } else if !llm_down && !toggled {
                (RecordingSource::Inactive, ShortcutAction::StopAndProcess)
            } else {
                (RecordingSource::Llm, ShortcutAction::Stay)
            }
        },
    }
}

} // verus!
