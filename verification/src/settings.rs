//! The settings that wake listening and the Qwen engine read, and the rules
//! for changing them.

use crate::detector;
use crate::detector::normalize_phrase;
use vstd::prelude::*;

verus! {

/// The device that the Qwen engine runs on.
#[derive(Debug, Clone, Copy, PartialEq, Eq, Structural)]
pub enum QwenDeviceSetting {
    Auto,
    Cuda,
    Cpu,
}

/// How dictation is started.
#[derive(Debug, Clone, Copy, PartialEq, Eq, Structural)]
pub enum InputMode {
    /// Hotkey-held dictation.
    Normal,
    /// Wake listening, armed at app start.
    WakeAlwaysListening,
    /// Wake listening, switched by the hotkey.
    WakeHotkeyToggle,
}

/// The settings of wake listening and of the Qwen engine.
#[derive(Debug, Clone)]
pub struct AppSettings {
    pub input_mode: InputMode,
    pub wake_phrase: String,
    pub wake_alternative_phrases: Vec<String>,
    pub wake_activation_timeout_secs: u64,
    pub wake_max_utterance_secs: u64,
    pub qwen_device: QwenDeviceSetting,
}

/// Stores the input mode, and says whether wake listening is on from now:
/// always-listening arms at once, the other two modes start off and the hotkey
/// toggles from there.
pub fn change_input_mode_setting(settings: &mut AppSettings, new_mode: InputMode) -> (wake_on: bool)
    ensures
        *final(settings) == (AppSettings { input_mode: new_mode, ..*old(settings) }),
        wake_on == (new_mode is WakeAlwaysListening),
{
    settings.input_mode = new_mode;
    match new_mode {
        InputMode::WakeAlwaysListening => true,
        _ => false,
    }
}

/// Stores the wake phrase as it was typed. A phrase that is empty in its
/// comparable form is refused, and the settings stay as they are.
pub fn change_wake_phrase_setting(settings: &mut AppSettings, phrase: String) -> (r: Result<
    (),
    String,
>)
    ensures
        r is Err <==> detector::normal_phrase(phrase@).len() == 0,
        r matches Err(e) ==> e@ == "Wake phrase must not be empty"@,
        *final(settings) == if r is Ok {
            AppSettings { wake_phrase: phrase, ..*old(settings) }
        } else {
            *old(settings)
        },
{
    let normalized = normalize_phrase(phrase.as_str());
    if normalized.as_str().is_empty() {
        return Err("Wake phrase must not be empty".to_string());
    }
    settings.wake_phrase = phrase;
    Ok(())
}

/// Stores the alternative spellings of the wake phrase.
pub fn change_wake_alternative_phrases_setting(
    settings: &mut AppSettings,
    phrases: Vec<String>,
) -> (r: Result<(), String>)
    ensures
        r is Ok,
        *final(settings) == (AppSettings { wake_alternative_phrases: phrases, ..*old(settings) }),
{
    settings.wake_alternative_phrases = phrases;
    Ok(())
}

/// The number of seconds from 1 to 60 that is nearest to this one.
pub open spec fn clamped_window(seconds: u64) -> u64 {
    if seconds < 1 {
        1
    } else if seconds > 60 {
        60
    } else {
        seconds
    }
}

/// Stores the length of the `Activated` window, kept between 1 and 60 seconds.
pub fn change_wake_activation_timeout_setting(settings: &mut AppSettings, seconds: u64) -> (r:
    Result<(), String>)
    ensures
        r is Ok,
        *final(settings) == (AppSettings {
            wake_activation_timeout_secs: clamped_window(seconds),
            ..*old(settings)
        }),
{
    settings.wake_activation_timeout_secs = if seconds < 1 {
        1
    } else if seconds > 60 {
        60
    } else {
        seconds
    };
    Ok(())
}

/// Stores the device setting, and says whether the model is to be unloaded: the
/// worker takes the device at its start, so a recognizer that is there must load
/// anew.
pub fn change_qwen_device_setting(
    settings: &mut AppSettings,
    new_setting: QwenDeviceSetting,
    recognizer_present: bool,
) -> (unload: bool)
    ensures
        *final(settings) == (AppSettings { qwen_device: new_setting, ..*old(settings) }),
        unload == recognizer_present,
{
    settings.qwen_device = new_setting;
    recognizer_present
}

/// The window is between 1 and 60 seconds, is what was asked for where that is,
/// and is never farther from what was asked for than any other such number.
pub proof fn law_window_is_nearest(seconds: u64, other: u64)
    requires
        1 <= other <= 60,
    ensures
        1 <= clamped_window(seconds) <= 60,
        1 <= seconds <= 60 ==> clamped_window(seconds) == seconds,
        seconds < 1 ==> clamped_window(seconds) <= other,
        seconds > 60 ==> clamped_window(seconds) >= other,
{
}

} // verus!
