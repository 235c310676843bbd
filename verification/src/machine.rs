//! The wake state machine: what each event does in each state, with side
//! effects as data for the host to perform.

use crate::detector;
use crate::detector::{AsrPrefixWakeDetector, Verdict, WakeDetector, WakeResult};
use crate::text;
use crate::text::{trimmed, CharClass};
use vstd::prelude::*;

verus! {

#[derive(Debug, Clone, Copy, PartialEq, Eq, Structural)]
pub enum WakeState {
    /// Wake listening disabled; normal dictation owns the hotkey.
    Off,
    /// Microphone open, voice detection running, waiting for a wake phrase.
    Armed,
    /// Speech detected, capturing the utterance.
    Capturing,
    /// Utterance handed to the recognizer.
    Transcribing,
    /// Bare wake phrase heard; next utterance is accepted without the phrase.
    Activated,
}

/// What happens to the machine. `S` is the type of an audio sample, which the
/// machine passes on without looking at it.
#[derive(Debug, Clone)]
pub enum WakeEvent<S> {
    /// Hotkey pressed, or app start in always-listening mode.
    ToggleOn,
    /// Hotkey pressed again from any wake state: returns to `Off`, canceling
    /// any capture or transcription in flight.
    ToggleOff,
    /// Voice detection reported speech onset.
    SpeechStarted,
    /// End of speech: the complete utterance buffer.
    UtteranceCaptured(Vec<S>),
    /// End of speech, but the captured audio was too short or noisy to be
    /// transcribed.
    UtteranceDropped,
    /// Recognized text of the captured utterance.
    Transcribed(String),
    /// The `Activated` window elapsed without new speech.
    ActivationTimeout,
}

/// An event over sequences.
pub enum EventView<S> {
    ToggleOn,
    ToggleOff,
    SpeechStarted,
    UtteranceCaptured(Seq<S>),
    UtteranceDropped,
    Transcribed(Seq<char>),
    ActivationTimeout,
}

impl<S> View for WakeEvent<S> {
    type V = EventView<S>;

    open spec fn view(&self) -> EventView<S> {
        match *self {
            WakeEvent::ToggleOn => EventView::ToggleOn,
            WakeEvent::ToggleOff => EventView::ToggleOff,
            WakeEvent::SpeechStarted => EventView::SpeechStarted,
            WakeEvent::UtteranceCaptured(samples) => EventView::UtteranceCaptured(samples@),
            WakeEvent::UtteranceDropped => EventView::UtteranceDropped,
            WakeEvent::Transcribed(heard) => EventView::Transcribed(heard@),
            WakeEvent::ActivationTimeout => EventView::ActivationTimeout,
        }
    }
}

/// Overlay states pushed to the floating indicator.
#[derive(Debug, Clone, Copy, PartialEq, Eq, Structural)]
pub enum WakeOverlay {
    Hidden,
    Armed,
    Listening,
    Processing,
    Activated,
}

/// The overlay that shows a state.
pub open spec fn overlay_of(state: WakeState) -> WakeOverlay {
    match state {
        WakeState::Off => WakeOverlay::Hidden,
        WakeState::Armed => WakeOverlay::Armed,
        WakeState::Capturing => WakeOverlay::Listening,
        WakeState::Transcribing => WakeOverlay::Processing,
        WakeState::Activated => WakeOverlay::Activated,
    }
}

impl From<WakeState> for WakeOverlay {
    fn from(state: WakeState) -> (r: Self) {
        match state {
            WakeState::Off => WakeOverlay::Hidden,
            WakeState::Armed => WakeOverlay::Armed,
            WakeState::Capturing => WakeOverlay::Listening,
            WakeState::Transcribing => WakeOverlay::Processing,
            WakeState::Activated => WakeOverlay::Activated,
        }
    }
}

impl vstd::std_specs::convert::FromSpecImpl<WakeState> for WakeOverlay {
    open spec fn obeys_from_spec() -> bool {
        true
    }

    open spec fn from_spec(state: WakeState) -> Self {
        overlay_of(state)
    }
}

/// Side effects the host must perform for a transition.
#[derive(Debug, Clone, PartialEq)]
pub enum WakeEffect<S> {
    StartListening,
    StopListening,
    SetOverlay(WakeOverlay),
    Transcribe(Vec<S>),
    /// The payload passed the wake check: run it through the dictation
    /// pipeline and paste it.
    PastePayload(String),
    /// The captured utterance had no wake phrase: nothing is pasted.
    DiscardUtterance,
    ScheduleActivationTimeout,
    CancelActivationTimeout,
}

/// An effect over sequences.
pub enum EffectView<S> {
    StartListening,
    StopListening,
    SetOverlay(WakeOverlay),
    Transcribe(Seq<S>),
    PastePayload(Seq<char>),
    DiscardUtterance,
    ScheduleActivationTimeout,
    CancelActivationTimeout,
}

impl<S> View for WakeEffect<S> {
    type V = EffectView<S>;

    open spec fn view(&self) -> EffectView<S> {
        match *self {
            WakeEffect::StartListening => EffectView::StartListening,
            WakeEffect::StopListening => EffectView::StopListening,
            WakeEffect::SetOverlay(overlay) => EffectView::SetOverlay(overlay),
            WakeEffect::Transcribe(samples) => EffectView::Transcribe(samples@),
            WakeEffect::PastePayload(payload) => EffectView::PastePayload(payload@),
            WakeEffect::DiscardUtterance => EffectView::DiscardUtterance,
            WakeEffect::ScheduleActivationTimeout => EffectView::ScheduleActivationTimeout,
            WakeEffect::CancelActivationTimeout => EffectView::CancelActivationTimeout,
        }
    }
}

/// What the effects of a list say.
pub open spec fn effect_views<S>(list: Seq<WakeEffect<S>>) -> Seq<EffectView<S>> {
    Seq::new(list.len(), |i: int| list[i]@)
}

/// A state of the machine.
#[verifier::ext_equal]
pub struct MachineView {
    pub state: WakeState,
    /// Whether the utterance under way began in the `Activated` window, so
    /// that it needs no wake phrase.
    pub activated_capture: bool,
    /// The phrases of the detector.
    pub phrases: Seq<Seq<char>>,
}

impl MachineView {
    /// An utterance begun in the `Activated` window is remembered only while
    /// it is captured or transcribed.
    pub open spec fn wf(self) -> bool {
        self.activated_capture ==> self.state is Capturing || self.state is Transcribing
    }

    /// The machine in another state, with this memory of the window.
    pub open spec fn at(self, state: WakeState, activated_capture: bool) -> MachineView {
        MachineView { state, activated_capture, phrases: self.phrases }
    }
}

/// What a transcript does in `Transcribing`.
pub open spec fn heard<S>(m: MachineView, utterance: Seq<char>) -> (
    MachineView,
    Seq<EffectView<S>>,
) {
    let armed = m.at(WakeState::Armed, false);
    let show_armed = EffectView::SetOverlay(WakeOverlay::Armed);
    match detector::utterance_verdict(m.phrases, utterance) {
        Verdict::Command { payload } => (armed, seq![EffectView::PastePayload(payload), show_armed]),
        Verdict::BareWake => if m.activated_capture {
            (armed, seq![show_armed])
        } else {
            (
                m.at(WakeState::Activated, false),
                seq![
                    EffectView::ScheduleActivationTimeout,
                    EffectView::SetOverlay(WakeOverlay::Activated),
                ],
            )
        },
        Verdict::NoMatch => if m.activated_capture {
            let payload = text::strip(utterance, CharClass::Blank);
            if payload.len() == 0 {
                (armed, seq![show_armed])
            } else {
                (armed, seq![EffectView::PastePayload(payload), show_armed])
            }
        } else {
            (armed, seq![EffectView::DiscardUtterance, show_armed])
        },
    }
}

/// What an event does: the next state, and the effects in order. A pair of a
/// state and an event that is not listed does nothing.
pub open spec fn transition<S>(m: MachineView, event: EventView<S>) -> (
    MachineView,
    Seq<EffectView<S>>,
) {
    match (m.state, event) {
        (WakeState::Off, EventView::ToggleOn) => (
            m.at(WakeState::Armed, false),
            seq![EffectView::StartListening, EffectView::SetOverlay(WakeOverlay::Armed)],
        ),
        (WakeState::Armed, EventView::SpeechStarted) => (
            m.at(WakeState::Capturing, false),
            seq![EffectView::SetOverlay(WakeOverlay::Listening)],
        ),
        (WakeState::Capturing, EventView::UtteranceCaptured(samples)) => (
            m.at(WakeState::Transcribing, m.activated_capture),
            seq![
                EffectView::SetOverlay(WakeOverlay::Processing),
                EffectView::Transcribe(samples),
            ],
        ),
        (WakeState::Capturing, EventView::UtteranceDropped) => if m.activated_capture {
            (
                m.at(WakeState::Activated, false),
                seq![
                    EffectView::ScheduleActivationTimeout,
                    EffectView::SetOverlay(WakeOverlay::Activated),
                ],
            )
        } else {
            (m.at(WakeState::Armed, false), seq![EffectView::SetOverlay(WakeOverlay::Armed)])
        },
        (WakeState::Transcribing, EventView::Transcribed(utterance)) => heard(m, utterance),
        (WakeState::Activated, EventView::SpeechStarted) => (
            m.at(WakeState::Capturing, true),
            seq![
                EffectView::CancelActivationTimeout,
                EffectView::SetOverlay(WakeOverlay::Listening),
            ],
        ),
        (WakeState::Activated, EventView::ActivationTimeout) => (
            m.at(WakeState::Armed, false),
            seq![EffectView::SetOverlay(WakeOverlay::Armed)],
        ),
        (state, EventView::ToggleOff) => if state is Off {
            (m, Seq::empty())
        } else {
            (
                m.at(WakeState::Off, false),
                seq![
                    EffectView::CancelActivationTimeout,
                    EffectView::StopListening,
                    EffectView::SetOverlay(WakeOverlay::Hidden),
                ],
            )
        },
        _ => (m, Seq::empty()),
    }
}

/// The wake state machine.
pub struct WakeStateMachine {
    state: WakeState,
    detector: AsrPrefixWakeDetector,
    activated_capture: bool,
}

impl View for WakeStateMachine {
    type V = MachineView;

    closed spec fn view(&self) -> MachineView {
        MachineView {
            state: self.state,
            activated_capture: self.activated_capture,
            phrases: self.detector@,
        }
    }
}

impl WakeStateMachine {
    /// A machine that is off.
    pub fn new(detector: AsrPrefixWakeDetector) -> (r: Self)
        ensures
            r@ == (MachineView {
                state: WakeState::Off,
                activated_capture: false,
                phrases: detector@,
            }),
    {
        WakeStateMachine { state: WakeState::Off, detector, activated_capture: false }
    }

    /// The state that the machine is in.
    pub fn state(&self) -> (r: WakeState)
        ensures
            r == self@.state,
    {
        self.state
    }

    /// The detector that the machine asks.
    pub fn detector(&self) -> (r: &AsrPrefixWakeDetector)
        ensures
            r@ == self@.phrases,
    {
        &self.detector
    }

    /// Handles one event: moves on, and says what the host has to do, in order.
    pub fn handle<S>(&mut self, event: WakeEvent<S>) -> (r: Vec<WakeEffect<S>>)
        ensures
            final(self)@ == transition(old(self)@, event@).0,
            effect_views(r@) == transition(old(self)@, event@).1,
    {
        match (self.state, event) {
            (WakeState::Off, WakeEvent::ToggleOff) => Vec::new(),
            (_, WakeEvent::ToggleOff) => {
                self.activated_capture = false;
                self.state = WakeState::Off;
                vec![
                    WakeEffect::CancelActivationTimeout,
                    WakeEffect::StopListening,
                    WakeEffect::SetOverlay(WakeOverlay::Hidden),
                ]
            },
            (WakeState::Off, WakeEvent::ToggleOn) => {
                self.activated_capture = false;
                self.state = WakeState::Armed;
                vec![WakeEffect::StartListening, WakeEffect::SetOverlay(WakeOverlay::Armed)]
            },
            (WakeState::Armed, WakeEvent::SpeechStarted) => {
                self.activated_capture = false;
                self.state = WakeState::Capturing;
                vec![WakeEffect::SetOverlay(WakeOverlay::Listening)]
            },
            (WakeState::Capturing, WakeEvent::UtteranceCaptured(samples)) => {
                self.state = WakeState::Transcribing;
                vec![
                    WakeEffect::SetOverlay(WakeOverlay::Processing),
                    WakeEffect::Transcribe(samples),
                ]
            },
            (WakeState::Capturing, WakeEvent::UtteranceDropped) => {
                if self.activated_capture {
                    // Noise inside the activation window: reopen the window.
                    self.activated_capture = false;
                    self.state = WakeState::Activated;
                    vec![
                        WakeEffect::ScheduleActivationTimeout,
                        WakeEffect::SetOverlay(WakeOverlay::Activated),
                    ]
                } else {
                    self.activated_capture = false;
                    self.state = WakeState::Armed;
                    vec![WakeEffect::SetOverlay(WakeOverlay::Armed)]
                }
            },
            (WakeState::Transcribing, WakeEvent::Transcribed(utterance)) => {
                let was_activated_capture = self.activated_capture;
                self.activated_capture = false;
                match self.detector.detect(utterance.as_str()) {
                    WakeResult::Command { payload } => {
                        self.state = WakeState::Armed;
                        vec![
                            WakeEffect::PastePayload(payload),
                            WakeEffect::SetOverlay(WakeOverlay::Armed),
                        ]
                    },
                    WakeResult::BareWake => {
                        if was_activated_capture {
                            // A bare phrase inside an already activated window
                            // is just a repeated wake.
                            self.state = WakeState::Armed;
                            vec![WakeEffect::SetOverlay(WakeOverlay::Armed)]
                        } else {
                            self.state = WakeState::Activated;
                            vec![
                                WakeEffect::ScheduleActivationTimeout,
                                WakeEffect::SetOverlay(WakeOverlay::Activated),
                            ]
                        }
                    },
                    WakeResult::NoMatch => {
                        self.state = WakeState::Armed;
                        if was_activated_capture {
                            // Inside the activation window the whole utterance
                            // is the payload.
                            let payload = trimmed(utterance.as_str());
                            if payload.as_str().is_empty() {
                                vec![WakeEffect::SetOverlay(WakeOverlay::Armed)]
                            } else {
                                vec![
                                    WakeEffect::PastePayload(payload),
                                    WakeEffect::SetOverlay(WakeOverlay::Armed),
                                ]
                            }
                        } else {
                            vec![
                                WakeEffect::DiscardUtterance,
                                WakeEffect::SetOverlay(WakeOverlay::Armed),
                            ]
                        }
                    },
                }
            },
            (WakeState::Activated, WakeEvent::SpeechStarted) => {
                self.activated_capture = true;
                self.state = WakeState::Capturing;
                vec![
                    WakeEffect::CancelActivationTimeout,
                    WakeEffect::SetOverlay(WakeOverlay::Listening),
                ]
            },
            (WakeState::Activated, WakeEvent::ActivationTimeout) => {
                self.activated_capture = false;
                self.state = WakeState::Armed;
                vec![WakeEffect::SetOverlay(WakeOverlay::Armed)]
            },
            _ => Vec::new(),
        }
    }
}

/// Every event keeps the machine well formed and its phrases as they are.
pub proof fn law_transition_keeps_wf<S>(m: MachineView, event: EventView<S>)
    requires
        m.wf(),
    ensures
        transition(m, event).0.wf(),
        transition(m, event).0.phrases == m.phrases,
{
}

/// The overlay follows the state: an event that moves the machine has effects,
/// an event with effects sets the overlay, and it sets it to show the state
/// that the machine is then in.
pub proof fn law_overlay_follows_state<S>(m: MachineView, event: EventView<S>)
    ensures
        ({
            let (next, effects) = transition(m, event);
            &&& next.state != m.state ==> effects.len() > 0
            &&& effects.len() > 0 ==> effects.contains(
                EffectView::SetOverlay(overlay_of(next.state)),
            )
            &&& forall|i: int|
                0 <= i < effects.len() ==> (#[trigger] effects[i] matches EffectView::SetOverlay(o)
                    ==> o == overlay_of(next.state))
        }),
{
    let (next, effects) = transition(m, event);
    if effects.len() > 0 {
        if effects[0] is SetOverlay {
            assert(effects[0] == EffectView::<S>::SetOverlay(overlay_of(next.state)));
        } else {
            assert(effects.last() == EffectView::<S>::SetOverlay(overlay_of(next.state)));
        }
    }
}

/// The hotkey turns the machine off from any wake state: listening stops, a
/// pending window timer is canceled, the overlay is hidden, and the memory of
/// the window is gone.
pub proof fn law_toggle_off_from_any_state<S>(m: MachineView)
    requires
        !(m.state is Off),
    ensures
        transition(m, EventView::<S>::ToggleOff) == (
            m.at(WakeState::Off, false),
            seq![
                EffectView::<S>::CancelActivationTimeout,
                EffectView::StopListening,
                EffectView::SetOverlay(WakeOverlay::Hidden),
            ],
        ),
{
}

/// A machine that is off answers nothing but `ToggleOn`.
pub proof fn law_off_ignores_all_but_toggle_on<S>(m: MachineView, event: EventView<S>)
    requires
        m.state is Off,
        !(event is ToggleOn),
    ensures
        transition(m, event) == (m, Seq::<EffectView<S>>::empty()),
{
}

/// Turning a machine on and off again gives the machine back.
pub proof fn law_toggle_on_then_off<S>(m: MachineView)
    requires
        m.wf(),
        m.state is Off,
    ensures
        transition(transition(m, EventView::<S>::ToggleOn).0, EventView::<S>::ToggleOff).0 == m,
{
}

/// Something is pasted only for a transcript, and only where the wake phrase
/// starts it, or where it has no wake phrase and its utterance began in the
/// `Activated` window; what is pasted is not empty.
pub proof fn law_paste_needs_phrase_or_window<S>(
    m: MachineView,
    event: EventView<S>,
    payload: Seq<char>,
)
    requires
        transition(m, event).1.contains(EffectView::PastePayload(payload)),
    ensures
        m.state is Transcribing,
        payload.len() > 0,
        event matches EventView::Transcribed(utterance) && {
            ||| detector::utterance_verdict(m.phrases, utterance) == (Verdict::Command { payload })
            ||| {
                &&& m.activated_capture
                &&& detector::utterance_verdict(m.phrases, utterance) is NoMatch
                &&& payload == text::strip(utterance, CharClass::Blank)
            }
        },
{
    let effects = transition(m, event).1;
    let i = choose|i: int| 0 <= i < effects.len() && effects[i] == EffectView::<S>::PastePayload(payload);
    assert(effects[i] is PastePayload);
    if let EventView::Transcribed(utterance) = event {
        let raw = text::words(utterance);
        detector::law_command_payload(m.phrases, detector::normal_tokens(raw), raw);
    }
}

/// An utterance that began in `Armed` and has no wake phrase is discarded:
/// nothing is pasted, and the machine is `Armed` again.
pub proof fn law_ordinary_speech_is_discarded<S>(
    m: MachineView,
    samples: Seq<S>,
    utterance: Seq<char>,
)
    requires
        m.wf(),
        m.state is Armed,
        detector::utterance_verdict(m.phrases, utterance) is NoMatch,
    ensures
        ({
            let capturing = transition(m, EventView::<S>::SpeechStarted).0;
            let transcribing = transition(capturing, EventView::UtteranceCaptured(samples)).0;
            transition(transcribing, EventView::<S>::Transcribed(utterance)) == (
                m,
                seq![EffectView::<S>::DiscardUtterance, EffectView::SetOverlay(WakeOverlay::Armed)],
            )
        }),
{
}

/// An utterance that starts with the wake phrase has its payload pasted.
pub proof fn law_command_is_pasted<S>(
    m: MachineView,
    samples: Seq<S>,
    utterance: Seq<char>,
    payload: Seq<char>,
)
    requires
        m.wf(),
        m.state is Armed || m.state is Activated,
        detector::utterance_verdict(m.phrases, utterance) == (Verdict::Command { payload }),
    ensures
        ({
            let capturing = transition(m, EventView::<S>::SpeechStarted).0;
            let transcribing = transition(capturing, EventView::UtteranceCaptured(samples)).0;
            transition(transcribing, EventView::<S>::Transcribed(utterance)) == (
                m.at(WakeState::Armed, false),
                seq![EffectView::<S>::PastePayload(payload), EffectView::SetOverlay(WakeOverlay::Armed)],
            )
        }),
{
}

/// A bare wake phrase heard in `Armed` opens the `Activated` window.
pub proof fn law_bare_wake_opens_window<S>(m: MachineView, samples: Seq<S>, utterance: Seq<char>)
    requires
        m.wf(),
        m.state is Armed,
        detector::utterance_verdict(m.phrases, utterance) is BareWake,
    ensures
        ({
            let capturing = transition(m, EventView::<S>::SpeechStarted).0;
            let transcribing = transition(capturing, EventView::UtteranceCaptured(samples)).0;
            transition(transcribing, EventView::<S>::Transcribed(utterance)) == (
                m.at(WakeState::Activated, false),
                seq![
                    EffectView::<S>::ScheduleActivationTimeout,
                    EffectView::SetOverlay(WakeOverlay::Activated),
                ],
            )
        }),
{
}

/// In the `Activated` window one utterance is accepted without the wake
/// phrase: it is pasted whole, without the white space at its ends, and the
/// machine is `Armed` again.
pub proof fn law_window_accepts_one_utterance<S>(
    m: MachineView,
    samples: Seq<S>,
    utterance: Seq<char>,
)
    requires
        m.wf(),
        m.state is Activated,
        detector::utterance_verdict(m.phrases, utterance) is NoMatch,
        text::strip(utterance, CharClass::Blank).len() > 0,
    ensures
        ({
            let capturing = transition(m, EventView::<S>::SpeechStarted).0;
            let transcribing = transition(capturing, EventView::UtteranceCaptured(samples)).0;
            transition(transcribing, EventView::<S>::Transcribed(utterance)) == (
                m.at(WakeState::Armed, false),
                seq![
                    EffectView::<S>::PastePayload(text::strip(utterance, CharClass::Blank)),
                    EffectView::SetOverlay(WakeOverlay::Armed),
                ],
            )
        }),
{
}

/// Noise in the `Activated` window reopens it, with a new timer.
pub proof fn law_noise_reopens_window<S>(m: MachineView)
    requires
        m.wf(),
        m.state is Activated,
    ensures
        transition(
            transition(m, EventView::<S>::SpeechStarted).0,
            EventView::<S>::UtteranceDropped,
        ) == (
            m,
            seq![
                EffectView::<S>::ScheduleActivationTimeout,
                EffectView::SetOverlay(WakeOverlay::Activated),
            ],
        ),
{
}

/// A window timer is started exactly when the machine enters `Activated`, and
/// canceled whenever it leaves by speech or by the hotkey.
pub proof fn law_timer_follows_window<S>(m: MachineView, event: EventView<S>)
    ensures
        ({
            let (next, effects) = transition(m, event);
            &&& effects.contains(EffectView::ScheduleActivationTimeout) <==> !(
            m.state is Activated) && next.state is Activated
            &&& m.state is Activated && !(next.state is Activated) && !(
            event is ActivationTimeout) ==> effects.contains(EffectView::CancelActivationTimeout)
        }),
{
    let (next, effects) = transition(m, event);
    if effects.len() > 0 {
        assert(effects[0] == effects.first());
        if effects[0] is ScheduleActivationTimeout {
            assert(effects.contains(EffectView::<S>::ScheduleActivationTimeout));
        }
        if effects[0] is CancelActivationTimeout {
            assert(effects.contains(EffectView::<S>::CancelActivationTimeout));
        }
    }
}

/// A window timer is canceled exactly when speech starts in the `Activated`
/// window, or the hotkey turns the machine off.
pub proof fn law_timer_canceled_iff<S>(m: MachineView, event: EventView<S>)
    ensures
        transition(m, event).1.contains(EffectView::CancelActivationTimeout) <==> {
            ||| event is SpeechStarted && m.state is Activated
            ||| event is ToggleOff && !(m.state is Off)
        },
{
    let effects = transition(m, event).1;
    if effects.len() > 0 && effects[0] is CancelActivationTimeout {
        assert(effects.contains(EffectView::<S>::CancelActivationTimeout));
    }
}

/// Where nothing was said, a transcript pastes nothing, and the machine is
/// `Armed` again.
pub proof fn law_nothing_said<S>(m: MachineView)
    requires
        m.state is Transcribing,
    ensures
        transition(m, EventView::<S>::Transcribed(Seq::empty())) == (
            m.at(WakeState::Armed, false),
            if m.activated_capture {
                seq![EffectView::<S>::SetOverlay(WakeOverlay::Armed)]
            } else {
                seq![EffectView::<S>::DiscardUtterance, EffectView::SetOverlay(WakeOverlay::Armed)]
            },
        ),
{
    detector::law_silence_is_no_match(m.phrases);
    text::law_stripped_ends(Seq::empty(), CharClass::Blank);
    assert(text::strip(Seq::empty(), CharClass::Blank).len() == 0);
}

/// The microphone listener is attached exactly when the machine leaves `Off`,
/// and detached exactly when it enters it.
pub proof fn law_listener_follows_state<S>(m: MachineView, event: EventView<S>)
    ensures
        ({
            let (next, effects) = transition(m, event);
            &&& effects.contains(EffectView::StartListening) <==> m.state is Off && !(
            next.state is Off)
            &&& effects.contains(EffectView::StopListening) <==> !(m.state is Off)
                && next.state is Off
        }),
{
    let (next, effects) = transition(m, event);
    if effects.len() > 0 {
        if effects[0] is StartListening {
            assert(effects.contains(EffectView::<S>::StartListening));
        }
        if effects.len() > 1 && effects[1] is StopListening {
            assert(effects.contains(EffectView::<S>::StopListening));
        }
    }
}

/// The overlay of each state.
pub proof fn law_overlay_of_each_state(state: WakeState)
    ensures
        overlay_of(state) is Hidden <==> state is Off,
        overlay_of(state) is Armed <==> state is Armed,
        overlay_of(state) is Listening <==> state is Capturing,
        overlay_of(state) is Processing <==> state is Transcribing,
        overlay_of(state) is Activated <==> state is Activated,
{
}

/// The recognizer is asked exactly when an utterance is captured, and for that
/// utterance.
pub proof fn law_transcribes_what_was_captured<S>(
    m: MachineView,
    event: EventView<S>,
    samples: Seq<S>,
)
    ensures
        transition(m, event).1.contains(EffectView::Transcribe(samples)) <==> m.state is Capturing
            && event == EventView::UtteranceCaptured(samples),
{
    let effects = transition(m, event).1;
    if m.state is Capturing && event == EventView::UtteranceCaptured(samples) {
        assert(effects[1] == EffectView::Transcribe(samples));
    }
}

/// An utterance is discarded exactly when its transcript has no wake phrase and
/// it did not begin in the window.
pub proof fn law_discards_exactly<S>(m: MachineView, event: EventView<S>)
    ensures
        transition(m, event).1.contains(EffectView::DiscardUtterance) <==> m.state is Transcribing
            && !m.activated_capture && (event matches EventView::Transcribed(utterance)
            && detector::utterance_verdict(m.phrases, utterance) is NoMatch),
{
    let effects = transition(m, event).1;
    if effects.len() > 0 && effects[0] is DiscardUtterance {
        assert(effects.contains(EffectView::<S>::DiscardUtterance));
    }
}

/// No effect is asked twice: an effect stands at one place only.
pub proof fn law_effects_are_distinct<S>(m: MachineView, event: EventView<S>)
    ensures
        transition(m, event).1.no_duplicates(),
        transition(m, event).1.len() <= 3,
{
}

/// How the machine moves. Speech starts a capture in `Armed` and in the window,
/// and only the latter is remembered; a captured utterance is transcribed; a
/// dropped one leads back to where it began; a transcript ends in `Armed` or
/// opens the window; and the window ends by its timer.
pub proof fn law_moves<S>(m: MachineView, samples: Seq<S>, utterance: Seq<char>)
    ensures
        m.state is Off ==> transition(m, EventView::<S>::ToggleOn).0 == (MachineView {
            state: WakeState::Armed,
            activated_capture: false,
            ..m
        }),
        m.state is Armed || m.state is Activated ==> transition(
            m,
            EventView::<S>::SpeechStarted,
        ).0 == (MachineView {
            state: WakeState::Capturing,
            activated_capture: m.state is Activated,
            ..m
        }),
        m.state is Capturing ==> transition(m, EventView::UtteranceCaptured(samples)).0 == (
        MachineView { state: WakeState::Transcribing, ..m }),
        m.state is Capturing ==> transition(m, EventView::<S>::UtteranceDropped).0 == (
        MachineView {
            state: if m.activated_capture {
                WakeState::Activated
            } else {
                WakeState::Armed
            },
            activated_capture: false,
            ..m
        }),
        m.state is Transcribing ==> transition(m, EventView::<S>::Transcribed(utterance)).0 == (
        MachineView {
            state: if !m.activated_capture && detector::utterance_verdict(
                m.phrases,
                utterance,
            ) is BareWake {
                WakeState::Activated
            } else {
                WakeState::Armed
            },
            activated_capture: false,
            ..m
        }),
        m.state is Activated ==> transition(m, EventView::<S>::ActivationTimeout).0 == (
        MachineView { state: WakeState::Armed, activated_capture: false, ..m }),
{
}

/// An event that has no meaning in a state does nothing.
pub proof fn law_misplaced_events_do_nothing<S>(m: MachineView, event: EventView<S>)
    requires
        event is ToggleOn ==> !(m.state is Off),
        event is ToggleOff ==> m.state is Off,
        event is SpeechStarted ==> !(m.state is Armed) && !(m.state is Activated),
        event is UtteranceCaptured || event is UtteranceDropped ==> !(m.state is Capturing),
        event is Transcribed ==> !(m.state is Transcribing),
        event is ActivationTimeout ==> !(m.state is Activated),
    ensures
        transition(m, event) == (m, Seq::<EffectView<S>>::empty()),
{
}

/// What an event and an effect hold is what they say.
pub proof fn law_events_and_effects_say_what_they_hold<S>(
    samples: Vec<S>,
    words: String,
    overlay: WakeOverlay,
)
    ensures
        WakeEvent::UtteranceCaptured(samples)@ == EventView::UtteranceCaptured(samples@),
        WakeEvent::<S>::Transcribed(words)@ == EventView::<S>::Transcribed(words@),
        WakeEffect::Transcribe(samples)@ == EffectView::Transcribe(samples@),
        WakeEffect::<S>::PastePayload(words)@ == EffectView::<S>::PastePayload(words@),
        WakeEffect::<S>::SetOverlay(overlay)@ == EffectView::<S>::SetOverlay(overlay),
{
}

} // verus!
