use echo::detector::{normalize_phrase, AsrPrefixWakeDetector, WakeDetector, WakeResult};
use echo::machine::{WakeEffect, WakeEvent, WakeOverlay, WakeState, WakeStateMachine};

type Event = WakeEvent<f32>;
type Effect = WakeEffect<f32>;


fn machine() -> WakeStateMachine {
    WakeStateMachine::new(AsrPrefixWakeDetector::new(
        "эхо",
        &["эко".to_string(), "эй эхо".to_string()],
    ))
}

fn arm() -> WakeStateMachine {
    let mut m = machine();
    m.handle(Event::ToggleOn);
    m
}

fn transcribe(m: &mut WakeStateMachine, text: &str) -> Vec<Effect> {
    m.handle(Event::SpeechStarted);
    m.handle(Event::UtteranceCaptured(vec![0.0; 1600]));
    m.handle(Event::Transcribed(text.to_string()))
}

// The detector.

#[test]
fn detector_matches_prefix_and_extracts_payload() {
    let d = AsrPrefixWakeDetector::new("эхо", &[]);
    assert_eq!(
        d.detect("Эхо, напиши в Z-code, что нужно исправить обработку ошибок"),
        WakeResult::Command {
            payload: "напиши в Z-code, что нужно исправить обработку ошибок".to_string()
        }
    );
}

#[test]
fn detector_bare_wake() {
    let d = AsrPrefixWakeDetector::new("эхо", &[]);
    assert_eq!(d.detect("эхо"), WakeResult::BareWake);
    assert_eq!(d.detect("Эхо!"), WakeResult::BareWake);
}

#[test]
fn detector_ignores_mid_sentence_wake() {
    let d = AsrPrefixWakeDetector::new("эхо", &[]);
    assert_eq!(d.detect("Я сегодня тестировал Эхо"), WakeResult::NoMatch);
}

#[test]
fn detector_uses_alternatives_and_normalization() {
    let d = AsrPrefixWakeDetector::new("Эхо", &["эко".to_string(), "эй эхо".to_string()]);
    assert_eq!(
        d.detect("Эко, сделай новый тест"),
        WakeResult::Command {
            payload: "сделай новый тест".to_string()
        }
    );
    // ё/е and case collapse
    assert_eq!(
        d.detect("ЭЙ ЭХО, запусти сборку"),
        WakeResult::Command {
            payload: "запусти сборку".to_string()
        }
    );
}

#[test]
fn detector_no_match_on_ordinary_speech() {
    let d = AsrPrefixWakeDetector::new("эхо", &[]);
    assert_eq!(
        d.detect("тут вообще какой-то странный баг"),
        WakeResult::NoMatch
    );
}

// The state machine.

#[test]
fn off_plus_hotkey_arms() {
    let mut m = machine();
    let effects = m.handle(Event::ToggleOn);
    assert_eq!(m.state(), WakeState::Armed);
    assert!(effects.contains(&Effect::StartListening));
}

#[test]
fn armed_plus_hotkey_goes_off() {
    let mut m = arm();
    let effects = m.handle(Event::ToggleOff);
    assert_eq!(m.state(), WakeState::Off);
    assert!(effects.contains(&Effect::StopListening));
}

#[test]
fn armed_ordinary_speech_discarded_no_paste() {
    let mut m = arm();
    let effects = transcribe(&mut m, "тут вообще какой-то странный баг");
    assert_eq!(m.state(), WakeState::Armed);
    assert!(effects.contains(&Effect::DiscardUtterance));
    assert!(!effects
        .iter()
        .any(|e| matches!(e, Effect::PastePayload(_))));
}

#[test]
fn armed_wake_command_pastes_payload() {
    let mut m = arm();
    let effects = transcribe(&mut m, "Эхо, привет");
    assert_eq!(m.state(), WakeState::Armed);
    assert_eq!(
        effects,
        vec![
            Effect::PastePayload("привет".to_string()),
            Effect::SetOverlay(WakeOverlay::Armed),
        ]
    );
}

#[test]
fn armed_bare_wake_activates() {
    let mut m = arm();
    let effects = transcribe(&mut m, "эхо");
    assert_eq!(m.state(), WakeState::Activated);
    assert!(effects.contains(&Effect::ScheduleActivationTimeout));
}

#[test]
fn activated_accepts_phrase_without_wake_then_returns_armed() {
    let mut m = arm();
    transcribe(&mut m, "эхо");
    let effects = transcribe(&mut m, "привет");
    assert_eq!(m.state(), WakeState::Armed);
    assert_eq!(
        effects,
        vec![
            Effect::PastePayload("привет".to_string()),
            Effect::SetOverlay(WakeOverlay::Armed),
        ]
    );
}

#[test]
fn activated_timeout_returns_armed() {
    let mut m = arm();
    transcribe(&mut m, "эхо");
    let effects = m.handle(Event::ActivationTimeout);
    assert_eq!(m.state(), WakeState::Armed);
    assert_eq!(effects, vec![Effect::SetOverlay(WakeOverlay::Armed)]);
}

#[test]
fn processing_plus_hotkey_cancels_to_off() {
    let mut m = arm();
    m.handle(Event::SpeechStarted);
    m.handle(Event::UtteranceCaptured(vec![0.0; 1600]));
    assert_eq!(m.state(), WakeState::Transcribing);
    let effects = m.handle(Event::ToggleOff);
    assert_eq!(m.state(), WakeState::Off);
    assert!(effects.contains(&Effect::StopListening));
    assert!(effects.contains(&Effect::CancelActivationTimeout));
}

#[test]
fn capturing_plus_hotkey_cancels_to_off() {
    let mut m = arm();
    m.handle(Event::SpeechStarted);
    let effects = m.handle(Event::ToggleOff);
    assert_eq!(m.state(), WakeState::Off);
    assert!(effects.contains(&Effect::StopListening));
}

#[test]
fn dropped_utterance_returns_armed() {
    let mut m = arm();
    m.handle(Event::SpeechStarted);
    let effects = m.handle(Event::UtteranceDropped);
    assert_eq!(m.state(), WakeState::Armed);
    assert_eq!(effects, vec![Effect::SetOverlay(WakeOverlay::Armed)]);
}

#[test]
fn dropped_utterance_in_activated_reopens_window() {
    let mut m = arm();
    transcribe(&mut m, "эхо");
    m.handle(Event::SpeechStarted);
    let effects = m.handle(Event::UtteranceDropped);
    assert_eq!(m.state(), WakeState::Activated);
    assert!(effects.contains(&Effect::ScheduleActivationTimeout));
}

#[test]
fn activated_speech_started_cancels_timeout() {
    let mut m = arm();
    transcribe(&mut m, "эхо");
    let effects = m.handle(Event::SpeechStarted);
    assert_eq!(m.state(), WakeState::Capturing);
    assert!(effects.contains(&Effect::CancelActivationTimeout));
}

#[test]
fn events_ignored_in_wrong_state_are_noops() {
    let mut m = machine();
    assert!(m.handle(Event::SpeechStarted).is_empty());
    assert!(m.handle(Event::ActivationTimeout).is_empty());
    assert!(m.handle(Event::ToggleOff).is_empty()); // already off
    let mut a = arm();
    assert!(a.handle(Event::ActivationTimeout).is_empty());
}

#[test]
fn toggle_on_in_armed_is_noop() {
    let mut m = arm();
    assert!(m.handle(Event::ToggleOn).is_empty());
    assert_eq!(m.state(), WakeState::Armed);
}

fn detector(phrase: &str) -> AsrPrefixWakeDetector {
    AsrPrefixWakeDetector::new(phrase, &[])
}

fn command(payload: &str) -> WakeResult {
    WakeResult::Command { payload: payload.to_string() }
}

#[test]
fn phrase_is_lowercased_folded_and_collapsed() {
    assert_eq!(normalize_phrase("  ...Ёлка   И\tЭХО "), "елка и эхо");
    assert_eq!(normalize_phrase("Эхо!"), "эхо!");
    assert_eq!(normalize_phrase(" — !?"), "");
    assert_eq!(normalize_phrase(""), "");
}

#[test]
fn phrase_variants_are_distinct_and_not_empty() {
    let d = AsrPrefixWakeDetector::new(
        "Эхо",
        &["эхо".to_string(), "".to_string(), "?!".to_string(), "Эй  Эхо".to_string()],
    );
    assert_eq!(d.phrases(), &["эхо".to_string(), "эй эхо".to_string()]);
}

#[test]
fn payload_keeps_case_and_inner_punctuation() {
    let d = detector("эхо");
    assert_eq!(d.detect("Эхо — Напиши: «Ёж», ОК!"), command("Напиши: «Ёж», ОК!"));
    assert_eq!(d.detect("эхо,   -  много   пробелов"), command("много пробелов"));
}

#[test]
fn payload_of_separators_is_bare_wake() {
    let d = detector("эхо");
    assert_eq!(d.detect("эхо — … !"), WakeResult::BareWake);
    assert_eq!(d.detect("эхо (?)"), command("(?)"));
}

#[test]
fn token_is_compared_without_edge_punctuation() {
    let d = detector("ещё эхо");
    assert_eq!(d.detect("«ЕЩЕ», (Эхо)! пуск"), command("пуск"));
    assert_eq!(d.detect("еще"), WakeResult::NoMatch);
    assert_eq!(d.detect("эхолот включи"), WakeResult::NoMatch);
    assert_eq!(d.detect(""), WakeResult::NoMatch);
}

#[test]
fn first_matching_phrase_decides() {
    let d = AsrPrefixWakeDetector::new("эхо", &["эхо старт".to_string()]);
    assert_eq!(d.detect("эхо старт двигатель"), command("старт двигатель"));
    let d = AsrPrefixWakeDetector::new("эхо старт", &["эхо".to_string()]);
    assert_eq!(d.detect("эхо старт двигатель"), command("двигатель"));
}

#[test]
fn normalized_phrase_stays_as_it_is() {
    for n in 0..=0x10FFFFu32 {
        if let Some(c) = char::from_u32(n) {
            let once = normalize_phrase(&format!(" {}Ё {} x", c, c));
            assert_eq!(normalize_phrase(&once), once, "U+{:04X}", n);
        }
    }
    for text in ["ὈΔΥΣΣΕΎΣ ΣΑΣ", "İİ ẞ", "  —Эй,  ЭХО! "] {
        let once = normalize_phrase(text);
        assert_eq!(normalize_phrase(&once), once);
    }
}

#[test]
fn repeated_bare_wake_in_window_returns_armed() {
    let mut m = arm();
    transcribe(&mut m, "эхо");
    let effects = transcribe(&mut m, "эхо");
    assert_eq!(m.state(), WakeState::Armed);
    assert_eq!(effects, vec![Effect::SetOverlay(WakeOverlay::Armed)]);
}

#[test]
fn command_in_window_loses_its_phrase() {
    let mut m = arm();
    transcribe(&mut m, "эхо");
    let effects = transcribe(&mut m, "Эхо, Привет");
    assert_eq!(effects[0], Effect::PastePayload("Привет".to_string()));
}

#[test]
fn empty_utterance_in_window_pastes_nothing() {
    let mut m = arm();
    transcribe(&mut m, "эхо");
    let effects = transcribe(&mut m, "  \n ");
    assert_eq!(m.state(), WakeState::Armed);
    assert_eq!(effects, vec![Effect::SetOverlay(WakeOverlay::Armed)]);
}

#[test]
fn window_utterance_is_trimmed_and_accepted_once() {
    let mut m = arm();
    transcribe(&mut m, "эхо");
    assert_eq!(
        transcribe(&mut m, "  Раз, два.  "),
        vec![
            Effect::PastePayload("Раз, два.".to_string()),
            Effect::SetOverlay(WakeOverlay::Armed),
        ]
    );
    assert_eq!(
        transcribe(&mut m, "Раз, два."),
        vec![Effect::DiscardUtterance, Effect::SetOverlay(WakeOverlay::Armed)]
    );
}

#[test]
fn toggle_off_answers_the_same_from_every_state() {
    let off = vec![
        Effect::CancelActivationTimeout,
        Effect::StopListening,
        Effect::SetOverlay(WakeOverlay::Hidden),
    ];
    let mut armed = arm();
    let mut capturing = arm();
    capturing.handle(Event::SpeechStarted);
    let mut transcribing = arm();
    transcribing.handle(Event::SpeechStarted);
    transcribing.handle(Event::UtteranceCaptured(vec![0.5]));
    let mut activated = arm();
    transcribe(&mut activated, "эхо");
    for m in [&mut armed, &mut capturing, &mut transcribing, &mut activated] {
        assert_eq!(m.handle(Event::ToggleOff), off);
        assert_eq!(m.state(), WakeState::Off);
    }
}

#[test]
fn captured_utterance_is_transcribed_as_it_is() {
    let mut m = arm();
    assert_eq!(
        m.handle(Event::SpeechStarted),
        vec![Effect::SetOverlay(WakeOverlay::Listening)]
    );
    assert_eq!(
        m.handle(Event::UtteranceCaptured(vec![0.25, -1.0])),
        vec![
            Effect::SetOverlay(WakeOverlay::Processing),
            Effect::Transcribe(vec![0.25, -1.0]),
        ]
    );
    assert!(m.handle(Event::UtteranceDropped).is_empty());
    assert_eq!(m.state(), WakeState::Transcribing);
}

#[test]
fn overlay_shows_the_state() {
    assert_eq!(WakeOverlay::from(WakeState::Off), WakeOverlay::Hidden);
    assert_eq!(WakeOverlay::from(WakeState::Armed), WakeOverlay::Armed);
    assert_eq!(WakeOverlay::from(WakeState::Capturing), WakeOverlay::Listening);
    assert_eq!(WakeOverlay::from(WakeState::Transcribing), WakeOverlay::Processing);
    assert_eq!(WakeOverlay::from(WakeState::Activated), WakeOverlay::Activated);
}

#[test]
fn machine_keeps_its_detector() {
    let m = machine();
    assert_eq!(m.state(), WakeState::Off);
    assert_eq!(m.detector().phrases().len(), 3);
}
