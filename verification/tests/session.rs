use echo::machine::{WakeEffect, WakeOverlay};
use echo::session::{
    plan_effect, text_to_paste, HostAction, LoopMsg, WakeAudioFrame, WakeManager, HANGOVER_FRAMES,
};
use echo::settings::{AppSettings, InputMode, QwenDeviceSetting};

type Action = HostAction<f32>;

fn settings() -> AppSettings {
    AppSettings {
        input_mode: InputMode::WakeHotkeyToggle,
        wake_phrase: "эхо".to_string(),
        wake_alternative_phrases: Vec::new(),
        wake_activation_timeout_secs: 7,
        wake_max_utterance_secs: 1,
        qwen_device: QwenDeviceSetting::Auto,
    }
}

fn run_all(m: &mut WakeManager<f32>) -> Vec<Action> {
    let mut all = Vec::new();
    while m.has_message() {
        all.extend(m.run_next(&settings()).unwrap());
    }
    all
}

fn listening() -> WakeManager<f32> {
    let mut m = WakeManager::new();
    m.toggle();
    run_all(&mut m);
    m
}

fn speech(m: &mut WakeManager<f32>, samples: usize) -> Vec<Action> {
    m.post(LoopMsg::Audio(WakeAudioFrame::Speech(vec![0.5; samples])));
    run_all(m)
}

fn silence(m: &mut WakeManager<f32>, frames: u32) -> Vec<Action> {
    for _ in 0..frames {
        m.post(LoopMsg::Audio(WakeAudioFrame::Silence));
    }
    run_all(m)
}

fn heard(m: &mut WakeManager<f32>, generation: u64, text: &str) -> Vec<Action> {
    m.post(LoopMsg::Transcript { generation, result: Ok(text.to_string()) });
    run_all(m)
}

fn utterance(m: &mut WakeManager<f32>) -> Vec<Action> {
    speech(m, 480);
    speech(m, 4800);
    silence(m, HANGOVER_FRAMES)
}

fn show(name: &str) -> Action {
    HostAction::ShowOverlay(name.to_string())
}

#[test]
fn new_session_is_off_and_empty() {
    let mut m: WakeManager<f32> = WakeManager::new();
    assert!(!m.is_listening());
    assert!(!m.has_message());
    assert_eq!(m.run_next(&settings()), None);
}

#[test]
fn toggle_switches_on_and_off() {
    let mut m = WakeManager::new();
    m.toggle();
    assert!(!m.is_listening());
    assert_eq!(run_all(&mut m), vec![HostAction::AttachListener, show("armed")]);
    assert!(m.is_listening());
    m.toggle();
    assert_eq!(run_all(&mut m), vec![HostAction::DetachListener, HostAction::HideOverlay]);
    assert!(!m.is_listening());
}

#[test]
fn set_on_is_idempotent() {
    let mut m = listening();
    m.set_on(true);
    assert!(run_all(&mut m).is_empty());
    m.set_on(false);
    m.set_on(false);
    assert_eq!(run_all(&mut m), vec![HostAction::DetachListener, HostAction::HideOverlay]);
}

#[test]
fn utterance_ends_after_the_silent_frames() {
    let mut m = listening();
    assert_eq!(speech(&mut m, 480), vec![show("wake-listening")]);
    assert!(speech(&mut m, 4800).is_empty());
    assert!(silence(&mut m, HANGOVER_FRAMES - 1).is_empty());
    assert_eq!(
        silence(&mut m, 1),
        vec![
            show("transcribing"),
            HostAction::Transcribe { generation: 1, samples: vec![0.5; 5280] },
        ]
    );
}

#[test]
fn only_silent_frames_in_a_row_end_an_utterance() {
    let mut m = listening();
    speech(&mut m, 480);
    for _ in 0..11 {
        assert!(speech(&mut m, 480).is_empty());
    }
    assert!(silence(&mut m, 5).is_empty());
    assert!(speech(&mut m, 480).is_empty());
    assert!(silence(&mut m, 5).is_empty());
    assert!(silence(&mut m, 4).is_empty());
    assert_eq!(
        silence(&mut m, 1),
        vec![
            show("transcribing"),
            HostAction::Transcribe { generation: 1, samples: vec![0.5; 13 * 480] },
        ]
    );
}

#[test]
fn short_utterance_is_dropped() {
    let mut m = listening();
    speech(&mut m, 480);
    speech(&mut m, 4319);
    assert_eq!(silence(&mut m, HANGOVER_FRAMES), vec![show("armed")]);
    speech(&mut m, 480);
    speech(&mut m, 4320);
    assert_eq!(silence(&mut m, HANGOVER_FRAMES).len(), 2);
}

#[test]
fn long_utterance_is_cut_off() {
    let mut m = listening();
    speech(&mut m, 480);
    assert!(speech(&mut m, 15519).is_empty());
    assert_eq!(
        speech(&mut m, 1),
        vec![
            show("transcribing"),
            HostAction::Transcribe { generation: 1, samples: vec![0.5; 16000] },
        ]
    );
}

#[test]
fn utterance_holds_every_frame_in_order() {
    let mut m = listening();
    for n in 0..3 {
        let frame = vec![n as f32; 2000];
        m.post(LoopMsg::Audio(WakeAudioFrame::Speech(frame)));
    }
    run_all(&mut m);
    let mut all = vec![0.0; 2000];
    all.extend(vec![1.0; 2000]);
    all.extend(vec![2.0; 2000]);
    assert_eq!(
        silence(&mut m, HANGOVER_FRAMES)[1],
        HostAction::Transcribe { generation: 1, samples: all }
    );
}

#[test]
fn onset_alone_can_reach_the_limit() {
    let mut m = listening();
    assert_eq!(
        speech(&mut m, 16000),
        vec![
            show("wake-listening"),
            show("transcribing"),
            HostAction::Transcribe { generation: 1, samples: vec![0.5; 16000] },
        ]
    );
}

#[test]
fn silence_without_speech_is_nothing() {
    let mut m = listening();
    assert!(silence(&mut m, 100).is_empty());
}

#[test]
fn command_is_pasted() {
    let mut m = listening();
    utterance(&mut m);
    assert_eq!(
        heard(&mut m, 1, "Эхо, Привет!"),
        vec![HostAction::Paste("Привет!".to_string()), show("armed")]
    );
}

#[test]
fn ordinary_speech_is_not_pasted() {
    let mut m = listening();
    utterance(&mut m);
    assert_eq!(heard(&mut m, 1, "странный баг"), vec![show("armed")]);
}

#[test]
fn bare_wake_starts_the_timer() {
    let mut m = listening();
    utterance(&mut m);
    assert_eq!(
        heard(&mut m, 1, "эхо"),
        vec![HostAction::StartTimer { generation: 1, secs: 7 }, show("wake-activated")]
    );
    m.post(LoopMsg::ActivationTimeoutFired { generation: 1 });
    assert_eq!(run_all(&mut m), vec![show("armed")]);
}

#[test]
fn window_accepts_one_utterance_without_the_phrase() {
    let mut m = listening();
    utterance(&mut m);
    heard(&mut m, 1, "эхо");
    assert_eq!(
        utterance(&mut m)[1],
        HostAction::Transcribe { generation: 2, samples: vec![0.5; 5280] }
    );
    assert_eq!(
        heard(&mut m, 2, " привет "),
        vec![HostAction::Paste("привет".to_string()), show("armed")]
    );
    utterance(&mut m);
    assert_eq!(heard(&mut m, 2, "привет"), vec![show("armed")]);
}

#[test]
fn noise_reopens_the_window() {
    let mut m = listening();
    utterance(&mut m);
    heard(&mut m, 1, "эхо");
    assert_eq!(speech(&mut m, 480), vec![show("wake-listening")]);
    assert_eq!(
        silence(&mut m, HANGOVER_FRAMES),
        vec![HostAction::StartTimer { generation: 2, secs: 7 }, show("wake-activated")]
    );
    m.post(LoopMsg::ActivationTimeoutFired { generation: 1 });
    assert!(run_all(&mut m).is_empty());
    m.post(LoopMsg::ActivationTimeoutFired { generation: 2 });
    assert_eq!(run_all(&mut m), vec![show("armed")]);
}

#[test]
fn canceled_timer_does_not_close_a_later_window() {
    let mut m = listening();
    utterance(&mut m);
    heard(&mut m, 1, "эхо");
    utterance(&mut m);
    heard(&mut m, 2, "привет");
    utterance(&mut m);
    heard(&mut m, 2, "эхо");
    m.post(LoopMsg::ActivationTimeoutFired { generation: 1 });
    assert!(run_all(&mut m).is_empty());
    utterance(&mut m);
    assert_eq!(heard(&mut m, 3, "пока")[0], HostAction::Paste("пока".to_string()));
}

#[test]
fn work_from_before_a_switch_is_stale() {
    let mut m = listening();
    utterance(&mut m);
    m.toggle();
    m.toggle();
    run_all(&mut m);
    utterance(&mut m);
    assert!(heard(&mut m, 1, "эхо старое").is_empty());
    m.post(LoopMsg::ActivationTimeoutFired { generation: 1 });
    assert!(run_all(&mut m).is_empty());
    assert_eq!(heard(&mut m, 3, "эхо новое")[0], HostAction::Paste("новое".to_string()));
}

#[test]
fn switched_off_session_is_silent() {
    let mut m = listening();
    speech(&mut m, 480);
    m.set_on(false);
    run_all(&mut m);
    assert!(speech(&mut m, 16000).is_empty());
    assert!(silence(&mut m, 20).is_empty());
    assert!(heard(&mut m, 2, "эхо привет").is_empty());
}

#[test]
fn failed_transcription_returns_to_armed() {
    let mut m = listening();
    let failed = |generation| LoopMsg::Transcript { generation, result: Err("no model".to_string()) };
    utterance(&mut m);
    m.post(failed(1));
    assert_eq!(run_all(&mut m), vec![show("armed")]);
    m.post(failed(1));
    assert!(run_all(&mut m).is_empty());
    assert_eq!(speech(&mut m, 480), vec![show("wake-listening")]);
    speech(&mut m, 4800);
    silence(&mut m, HANGOVER_FRAMES);
    assert_eq!(heard(&mut m, 1, "эхо да")[0], HostAction::Paste("да".to_string()));
}

#[test]
fn failed_transcription_in_the_window_returns_to_armed() {
    let mut m = listening();
    utterance(&mut m);
    heard(&mut m, 1, "эхо");
    utterance(&mut m);
    m.post(LoopMsg::Transcript { generation: 2, result: Err("no model".to_string()) });
    assert_eq!(run_all(&mut m), vec![show("armed")]);
}

#[test]
fn limits_are_told_before_a_message_is_handled() {
    let mut s = settings();
    s.wake_max_utterance_secs = u64::MAX;
    let mut m: WakeManager<f32> = WakeManager::new();
    assert!(m.next_fits(&s));
    m.toggle();
    assert!(!m.next_fits(&s));
    assert!(m.next_fits(&settings()));
    m.run_next(&settings());
    m.toggle();
    assert!(m.next_fits(&s));
}

#[test]
fn messages_are_handled_in_order() {
    let mut m: WakeManager<f32> = WakeManager::new();
    m.toggle();
    m.post(LoopMsg::Audio(WakeAudioFrame::Speech(vec![0.0; 10])));
    m.toggle();
    assert_eq!(m.run_next(&settings()).unwrap().len(), 2);
    assert_eq!(m.run_next(&settings()).unwrap(), vec![show("wake-listening")]);
    assert!(m.is_listening());
    assert_eq!(m.run_next(&settings()).unwrap().len(), 2);
    assert!(!m.is_listening());
    assert_eq!(m.run_next(&settings()), None);
}

#[test]
fn settings_are_read_at_each_switch() {
    let mut s = settings();
    s.wake_phrase = "алло".to_string();
    s.wake_activation_timeout_secs = 0;
    let mut m: WakeManager<f32> = WakeManager::new();
    m.toggle();
    m.run_next(&s);
    utterance(&mut m);
    m.post(LoopMsg::Transcript { generation: 1, result: Ok("Алло!".to_string()) });
    assert_eq!(
        m.run_next(&s).unwrap(),
        vec![HostAction::StartTimer { generation: 1, secs: 1 }, show("wake-activated")]
    );
}

#[test]
fn every_effect_has_its_action() {
    assert_eq!(plan_effect(WakeEffect::StartListening, 3, 7), Some(Action::AttachListener));
    assert_eq!(plan_effect(WakeEffect::StopListening, 3, 7), Some(Action::DetachListener));
    assert_eq!(
        plan_effect(WakeEffect::SetOverlay(WakeOverlay::Hidden), 3, 7),
        Some(Action::HideOverlay)
    );
    assert_eq!(plan_effect::<f32>(WakeEffect::DiscardUtterance, 3, 7), None);
    assert_eq!(plan_effect::<f32>(WakeEffect::CancelActivationTimeout, 3, 7), None);
    assert_eq!(
        plan_effect(WakeEffect::Transcribe(vec![1.0f32]), 3, 7),
        Some(HostAction::Transcribe { generation: 3, samples: vec![1.0] })
    );
}

#[test]
fn nothing_left_is_not_pasted() {
    assert_eq!(text_to_paste("".to_string()), None);
    assert_eq!(text_to_paste(" ".to_string()), Some(" ".to_string()));
}

#[test]
fn noise_of_several_frames_reopens_the_window() {
    let mut m = listening();
    utterance(&mut m);
    heard(&mut m, 1, "эхо");
    for _ in 0..9 {
        speech(&mut m, 480);
    }
    assert_eq!(
        silence(&mut m, HANGOVER_FRAMES),
        vec![HostAction::StartTimer { generation: 2, secs: 7 }, show("wake-activated")]
    );
}
