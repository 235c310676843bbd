use echo::settings::{
    change_input_mode_setting, change_qwen_device_setting, change_wake_activation_timeout_setting,
    change_wake_alternative_phrases_setting, change_wake_phrase_setting, AppSettings, InputMode,
    QwenDeviceSetting,
};

fn settings() -> AppSettings {
    AppSettings {
        input_mode: InputMode::Normal,
        wake_phrase: "эхо".to_string(),
        wake_alternative_phrases: Vec::new(),
        wake_activation_timeout_secs: 7,
        wake_max_utterance_secs: 30,
        qwen_device: QwenDeviceSetting::Auto,
    }
}

#[test]
fn only_always_listening_arms_at_once() {
    let mut s = settings();
    assert!(change_input_mode_setting(&mut s, InputMode::WakeAlwaysListening));
    assert_eq!(s.input_mode, InputMode::WakeAlwaysListening);
    assert!(!change_input_mode_setting(&mut s, InputMode::WakeHotkeyToggle));
    assert_eq!(s.input_mode, InputMode::WakeHotkeyToggle);
    assert!(!change_input_mode_setting(&mut s, InputMode::Normal));
    assert_eq!(s.input_mode, InputMode::Normal);
}

#[test]
fn empty_wake_phrase_is_refused() {
    let mut s = settings();
    for phrase in ["", "   ", " ?!… "] {
        assert_eq!(
            change_wake_phrase_setting(&mut s, phrase.to_string()),
            Err("Wake phrase must not be empty".to_string())
        );
        assert_eq!(s.wake_phrase, "эхо");
    }
}

#[test]
fn wake_phrase_is_stored_as_typed() {
    let mut s = settings();
    assert_eq!(change_wake_phrase_setting(&mut s, " Алло, Эхо ".to_string()), Ok(()));
    assert_eq!(s.wake_phrase, " Алло, Эхо ");
}

#[test]
fn alternatives_are_stored() {
    let mut s = settings();
    let list = vec!["эко".to_string(), "".to_string()];
    assert_eq!(change_wake_alternative_phrases_setting(&mut s, list.clone()), Ok(()));
    assert_eq!(s.wake_alternative_phrases, list);
}

#[test]
fn window_length_is_clamped() {
    let mut s = settings();
    for (asked, stored) in [(0, 1), (1, 1), (7, 7), (60, 60), (61, 60), (u64::MAX, 60)] {
        assert_eq!(change_wake_activation_timeout_setting(&mut s, asked), Ok(()));
        assert_eq!(s.wake_activation_timeout_secs, stored);
    }
}

#[test]
fn device_is_stored() {
    let mut s = settings();
    assert!(change_qwen_device_setting(&mut s, QwenDeviceSetting::Cpu, true));
    assert_eq!(s.qwen_device, QwenDeviceSetting::Cpu);
    assert!(!change_qwen_device_setting(&mut s, QwenDeviceSetting::Cpu, false));
    assert_eq!(s.qwen_device, QwenDeviceSetting::Cpu);
}
