//! A wake-listening session: one queue through which hotkey toggles, audio
//! frames, transcripts and window timeouts reach the state machine, in order.
//!
//! The session decides; the host attaches the microphone, runs the recognizer
//! and the timers, shows the overlay and pastes, as the actions say, and hands
//! the outcome back through the queue.

use crate::detector;
use crate::detector::AsrPrefixWakeDetector;
use crate::machine;
use crate::machine::{
    EffectView, EventView, MachineView, WakeEffect, WakeEvent, WakeOverlay, WakeState,
    WakeStateMachine,
};
use crate::settings::AppSettings;
use crate::text;
use std::collections::VecDeque;
use vstd::prelude::*;

verus! {

/// Samples per second of the microphone stream.
pub const SAMPLE_RATE: usize = 16000;

/// Utterances shorter than this (0.3 s) are dropped without transcription.
pub const MIN_UTTERANCE_SAMPLES: usize = 4800;

/// Silent frames in a row (10 frames of 30 ms) that finish an utterance.
pub const HANGOVER_FRAMES: u32 = 10;

/// The longest utterance before the first switch-on has read the settings.
pub const DEFAULT_MAX_UTTERANCE_SAMPLES: usize = 480000;

/// One frame of the microphone stream, as the voice detector classified it.
#[derive(Debug, Clone)]
pub enum WakeAudioFrame<S> {
    Speech(Vec<S>),
    Silence,
}

/// A request to switch listening.
#[derive(Debug, Clone, Copy, PartialEq, Eq, Structural)]
pub enum WakeCommand {
    Toggle,
    SetOn(bool),
}

/// A message to the session.
#[derive(Debug)]
pub enum LoopMsg<S> {
    Command(WakeCommand),
    Audio(WakeAudioFrame<S>),
    /// The outcome of a transcription, with the generation it was started in.
    Transcript { generation: u64, result: Result<String, String> },
    /// A window timer ran out, with the generation it was started in.
    ActivationTimeoutFired { generation: u64 },
}

/// A message over sequences. A failed transcription has no text.
pub enum MsgView<S> {
    Command(WakeCommand),
    Speech(Seq<S>),
    Silence,
    Transcript { generation: nat, heard: Option<Seq<char>> },
    ActivationTimeoutFired { generation: nat },
}

impl<S> View for LoopMsg<S> {
    type V = MsgView<S>;

    open spec fn view(&self) -> MsgView<S> {
        match *self {
            LoopMsg::Command(command) => MsgView::Command(command),
            LoopMsg::Audio(WakeAudioFrame::Speech(samples)) => MsgView::Speech(samples@),
            LoopMsg::Audio(WakeAudioFrame::Silence) => MsgView::Silence,
            LoopMsg::Transcript { generation, result } => MsgView::Transcript {
                generation: generation as nat,
                heard: match result {
                    Ok(heard) => Some(heard@),
                    Err(_) => None,
                },
            },
            LoopMsg::ActivationTimeoutFired { generation } => MsgView::ActivationTimeoutFired {
                generation: generation as nat,
            },
        }
    }
}

/// What the host has to do.
#[derive(Debug, Clone, PartialEq)]
pub enum HostAction<S> {
    /// Attach the microphone stream to the queue.
    AttachListener,
    /// Detach the microphone stream.
    DetachListener,
    HideOverlay,
    /// Show the overlay in the state of this name.
    ShowOverlay(String),
    /// Transcribe the samples, and hand the result back with this generation.
    Transcribe { generation: u64, samples: Vec<S> },
    /// Run the text through the dictation pipeline and paste it.
    Paste(String),
    /// After this many seconds, report a timeout with this generation.
    StartTimer { generation: u64, secs: u64 },
}

/// An action over sequences.
pub enum ActionView<S> {
    AttachListener,
    DetachListener,
    HideOverlay,
    ShowOverlay(Seq<char>),
    Transcribe { generation: nat, samples: Seq<S> },
    Paste(Seq<char>),
    StartTimer { generation: nat, secs: nat },
}

impl<S> View for HostAction<S> {
    type V = ActionView<S>;

    open spec fn view(&self) -> ActionView<S> {
        match *self {
            HostAction::AttachListener => ActionView::AttachListener,
            HostAction::DetachListener => ActionView::DetachListener,
            HostAction::HideOverlay => ActionView::HideOverlay,
            HostAction::ShowOverlay(name) => ActionView::ShowOverlay(name@),
            HostAction::Transcribe { generation, samples } => ActionView::Transcribe {
                generation: generation as nat,
                samples: samples@,
            },
            HostAction::Paste(payload) => ActionView::Paste(payload@),
            HostAction::StartTimer { generation, secs } => ActionView::StartTimer {
                generation: generation as nat,
                secs: secs as nat,
            },
        }
    }
}

/// What the actions of a list say.
pub open spec fn action_views<S>(list: Seq<HostAction<S>>) -> Seq<ActionView<S>> {
    Seq::new(list.len(), |i: int| list[i]@)
}

/// The name of the overlay state, where the overlay is shown.
pub open spec fn overlay_name(overlay: WakeOverlay) -> Option<Seq<char>> {
    match overlay {
        WakeOverlay::Hidden => None,
        WakeOverlay::Armed => Some("armed"@),
        WakeOverlay::Listening => Some("wake-listening"@),
        WakeOverlay::Processing => Some("transcribing"@),
        WakeOverlay::Activated => Some("wake-activated"@),
    }
}

/// What one effect asks of the host. Work that reports back is stamped with
/// the generation. A discarded utterance asks nothing, and so does a canceled
/// timer: it runs on, but the generation has moved, so its report is stale.
pub open spec fn action_of<S>(effect: EffectView<S>, generation: nat, window_secs: nat) -> Option<
    ActionView<S>,
> {
    match effect {
        EffectView::StartListening => Some(ActionView::AttachListener),
        EffectView::StopListening => Some(ActionView::DetachListener),
        EffectView::SetOverlay(overlay) => match overlay_name(overlay) {
            None => Some(ActionView::HideOverlay),
            Some(name) => Some(ActionView::ShowOverlay(name)),
        },
        EffectView::Transcribe(samples) => Some(ActionView::Transcribe { generation, samples }),
        EffectView::PastePayload(payload) => Some(ActionView::Paste(payload)),
        EffectView::DiscardUtterance => None,
        EffectView::ScheduleActivationTimeout => Some(
            ActionView::StartTimer { generation, secs: at_least_one(window_secs) },
        ),
        EffectView::CancelActivationTimeout => None,
    }
}

/// The number, or 1 where it is 0.
pub open spec fn at_least_one(n: nat) -> nat {
    if n == 0 {
        1
    } else {
        n
    }
}

/// Whether the effects cancel the window timer.
pub open spec fn cancels<S>(effects: Seq<EffectView<S>>) -> bool {
    effects.contains(EffectView::CancelActivationTimeout)
}

/// What the effects ask of the host, in order.
pub open spec fn actions_of<S>(
    effects: Seq<EffectView<S>>,
    generation: nat,
    window_secs: nat,
) -> Seq<ActionView<S>>
    decreases effects.len(),
{
    if effects.len() == 0 {
        Seq::empty()
    } else {
        let before = actions_of(effects.drop_last(), generation, window_secs);
        match action_of(effects.last(), generation, window_secs) {
            None => before,
            Some(action) => before.push(action),
        }
    }
}

/// What one effect asks of the host.
pub fn plan_effect<S>(effect: WakeEffect<S>, generation: u64, window_secs: u64) -> (r: Option<
    HostAction<S>,
>)
    ensures
        r is Some <==> action_of(effect@, generation as nat, window_secs as nat) is Some,
        r matches Some(action) ==> Some(action@) == action_of(
            effect@,
            generation as nat,
            window_secs as nat,
        ),
{
    match effect {
        WakeEffect::StartListening => Some(HostAction::AttachListener),
        WakeEffect::StopListening => Some(HostAction::DetachListener),
        WakeEffect::SetOverlay(overlay) => match overlay {
            WakeOverlay::Hidden => Some(HostAction::HideOverlay),
            WakeOverlay::Armed => Some(HostAction::ShowOverlay("armed".to_string())),
            WakeOverlay::Listening => Some(HostAction::ShowOverlay("wake-listening".to_string())),
            WakeOverlay::Processing => Some(HostAction::ShowOverlay("transcribing".to_string())),
            WakeOverlay::Activated => Some(HostAction::ShowOverlay("wake-activated".to_string())),
        },
        WakeEffect::Transcribe(samples) => Some(HostAction::Transcribe { generation, samples }),
        WakeEffect::PastePayload(payload) => Some(HostAction::Paste(payload)),
        WakeEffect::DiscardUtterance => None,
        WakeEffect::ScheduleActivationTimeout => {
            let secs: u64 = if window_secs == 0 {
                1
            } else {
                window_secs
            };
            Some(HostAction::StartTimer { generation, secs })
        },
        WakeEffect::CancelActivationTimeout => None,
    }
}

/// Whether the effects cancel the window timer.
fn cancels_timer<S>(effects: &Vec<WakeEffect<S>>) -> (r: bool)
    ensures
        r == cancels(machine::effect_views(effects@)),
{
    let ghost all = machine::effect_views(effects@);
    let mut i: usize = 0;
    while i < effects.len()
        invariant
            i <= effects@.len(),
            all == machine::effect_views(effects@),
            forall|k: int| 0 <= k < i ==> !(#[trigger] all[k] is CancelActivationTimeout),
        decreases effects@.len() - i,
    {
        if let WakeEffect::CancelActivationTimeout = &effects[i] {
            assert(all[i as int] == EffectView::<S>::CancelActivationTimeout);
            return true;
        }
        i += 1;
    }
    false
}

/// What the effects ask of the host, in order.
fn plan_effects<S>(effects: Vec<WakeEffect<S>>, generation: u64, window_secs: u64) -> (r: Vec<
    HostAction<S>,
>)
    ensures
        action_views(r@) == actions_of(
            machine::effect_views(effects@),
            generation as nat,
            window_secs as nat,
        ),
{
    let ghost all = machine::effect_views(effects@);
    let mut out: Vec<HostAction<S>> = Vec::new();
    proof {
        assert(action_views(out@) =~= actions_of(all.take(0), generation as nat, window_secs as nat));
    }
    for effect in it: effects
        invariant
            all == machine::effect_views(it.seq()),
            action_views(out@) == actions_of(
                all.take(it.index() as int),
                generation as nat,
                window_secs as nat,
            ),
    {
        let ghost before = action_views(out@);
        proof {
            let next = all.take(it.index() + 1);
            assert(next.drop_last() =~= all.take(it.index() as int));
            assert(next.last() == effect@);
        }
        if let Some(action) = plan_effect(effect, generation, window_secs) {
            out.push(action);
            assert(action_views(out@) =~= before.push(action@));
        }
    }
    assert(all.take(all.len() as int) =~= all);
    out
}

/// The text to paste, of what the dictation pipeline made of a payload: none
/// where nothing is left.
pub fn text_to_paste(processed: String) -> (r: Option<String>)
    ensures
        r == if processed@.len() == 0 {
            None
        } else {
            Some(processed)
        },
{
    if processed.as_str().is_empty() {
        None
    } else {
        Some(processed)
    }
}

/// Whether so many seconds fit in memory, in samples.
fn length_fits(secs: u64) -> (r: bool)
    ensures
        r == (at_least_one(secs as nat) * SAMPLE_RATE <= usize::MAX),
{
    let rate: u128 = SAMPLE_RATE as u128;
    assert(rate == 16000);
    let samples: u128 = if secs == 0 {
        rate
    } else {
        rate * (secs as u128)
    };
    samples <= usize::MAX as u128
}

/// What the session reads from the settings.
pub struct SettingsView {
    pub phrases: Seq<Seq<char>>,
    pub window_secs: nat,
    pub max_utterance_secs: nat,
}

/// What the session reads from the settings.
pub open spec fn settings_view(settings: AppSettings) -> SettingsView {
    SettingsView {
        phrases: detector::phrase_variants(
            seq![settings.wake_phrase@] + text::views(settings.wake_alternative_phrases@),
        ),
        window_secs: settings.wake_activation_timeout_secs as nat,
        max_utterance_secs: settings.wake_max_utterance_secs as nat,
    }
}

/// A state of the session.
pub struct SessionView<S> {
    /// The messages that wait, the oldest first.
    pub inbox: Seq<MsgView<S>>,
    /// Whether wake listening is on.
    pub listening: bool,
    /// The machine, once listening has been switched on.
    pub machine: Option<MachineView>,
    /// A number that grows with every switch, and whenever a window timer is
    /// canceled. Work that was started under another number is stale.
    pub generation: nat,
    /// The samples of the utterance under way.
    pub utterance: Seq<S>,
    /// The silent frames in a row that the utterance under way ends with so far.
    pub silence_frames: nat,
    /// Whether an utterance is under way.
    pub in_speech: bool,
    /// The length at which an utterance is cut off.
    pub max_utterance_samples: nat,
}

impl<S> SessionView<S> {
    /// Listening is on exactly while the machine is in a wake state; an
    /// utterance is under way only while listening, stays below the length at
    /// which it is cut off, and its silent frames below the number that ends
    /// it; without one there are no samples and no silent frames.
    pub open spec fn wf(self) -> bool {
        &&& self.listening == self.awake()
        &&& self.machine matches Some(m) ==> m.wf()
        &&& self.in_speech ==> self.listening
        &&& self.utterance.len() < self.max_utterance_samples
        &&& self.max_utterance_samples >= SAMPLE_RATE
        &&& self.silence_frames < HANGOVER_FRAMES
        &&& !self.in_speech ==> self.utterance.len() == 0 && self.silence_frames == 0
    }

    /// No utterance is under way.
    pub open spec fn quiet(self) -> SessionView<S> {
        SessionView { utterance: Seq::empty(), in_speech: false, silence_frames: 0, ..self }
    }

    /// The machine handles an event: the session with the machine that comes
    /// out, and what the host has to do. Where the window timer is canceled the
    /// generation grows. Without a machine nothing happens.
    pub open spec fn feed(self, event: EventView<S>, settings: SettingsView) -> (
        SessionView<S>,
        Seq<ActionView<S>>,
    ) {
        match self.machine {
            None => (self, Seq::empty()),
            Some(m) => {
                let (next, effects) = machine::transition(m, event);
                let generation = if cancels(effects) {
                    self.generation + 1
                } else {
                    self.generation
                };
                (
                    SessionView { machine: Some(next), generation, ..self },
                    actions_of(effects, generation, settings.window_secs),
                )
            },
        }
    }

    /// Whether the command asks for the other of on and off.
    pub open spec fn switches(self, command: WakeCommand) -> bool {
        match command {
            WakeCommand::Toggle => true,
            WakeCommand::SetOn(on) => on != self.listening,
        }
    }

    /// Switches listening to the other of on and off. Switching on makes a new
    /// machine from the settings, in a new generation; switching off cancels
    /// the window timer, which makes a new generation too.
    pub open spec fn switched(self, settings: SettingsView) -> (SessionView<S>, Seq<ActionView<S>>) {
        if self.listening {
            SessionView { listening: false, ..self.quiet() }.feed(EventView::ToggleOff, settings)
        } else {
            SessionView {
                listening: true,
                generation: self.generation + 1,
                machine: Some(
                    MachineView {
                        state: WakeState::Off,
                        activated_capture: false,
                        phrases: settings.phrases,
                    },
                ),
                max_utterance_samples: at_least_one(settings.max_utterance_secs) * SAMPLE_RATE as nat,
                ..self
            }.feed(EventView::ToggleOn, settings)
        }
    }

    /// The utterance under way, with these samples: it is cut off where it has
    /// reached the limit.
    pub open spec fn collected(self, utterance: Seq<S>, settings: SettingsView) -> (
        SessionView<S>,
        Seq<ActionView<S>>,
    ) {
        if utterance.len() >= self.max_utterance_samples {
            self.quiet().feed(EventView::UtteranceCaptured(utterance), settings)
        } else {
            (SessionView { utterance, silence_frames: 0, ..self }, Seq::empty())
        }
    }

    /// The onset of an utterance: its first frame counts like every other.
    pub open spec fn onset(self, samples: Seq<S>, settings: SettingsView) -> (
        SessionView<S>,
        Seq<ActionView<S>>,
    ) {
        let (begun, started) = SessionView { in_speech: true, ..self.quiet() }.feed(
            EventView::SpeechStarted,
            settings,
        );
        let (next, ended) = begun.collected(samples, settings);
        (next, started + ended)
    }

    /// What a message does: the next state, and what the host has to do.
    pub open spec fn step(self, msg: MsgView<S>, settings: SettingsView) -> (
        SessionView<S>,
        Seq<ActionView<S>>,
    ) {
        match msg {
            MsgView::Command(command) => if self.switches(command) {
                self.switched(settings)
            } else {
                (self, Seq::empty())
            },
            MsgView::Speech(samples) => if !self.awake() {
                (self, Seq::empty())
            } else if !self.in_speech {
                self.onset(samples, settings)
            } else {
                self.collected(self.utterance + samples, settings)
            },
            MsgView::Silence => if !self.awake() || !self.in_speech {
                (self, Seq::empty())
            } else if self.silence_frames + 1 < HANGOVER_FRAMES {
                (
                    SessionView { silence_frames: self.silence_frames + 1, ..self },
                    Seq::empty(),
                )
            } else if self.utterance.len() >= MIN_UTTERANCE_SAMPLES {
                self.quiet().feed(EventView::UtteranceCaptured(self.utterance), settings)
            } else {
                self.quiet().feed(EventView::UtteranceDropped, settings)
            },
            MsgView::Transcript { generation, heard } => if generation != self.generation {
                (self, Seq::empty())
            } else {
                match heard {
                    Some(utterance) => self.feed(EventView::Transcribed(utterance), settings),
                    // A failed transcription counts as one in which nothing
                    // was said.
                    None => self.feed(EventView::Transcribed(Seq::empty()), settings),
                }
            },
            MsgView::ActivationTimeoutFired { generation } => if generation != self.generation {
                (self, Seq::empty())
            } else {
                self.feed(EventView::ActivationTimeout, settings)
            },
        }
    }

    /// Whether there is a machine in a wake state.
    pub open spec fn awake(self) -> bool {
        self.machine matches Some(m) && !(m.state is Off)
    }

    /// Whether the message starts a new generation: a switch, or speech in the
    /// `Activated` window.
    pub open spec fn renews(self, msg: MsgView<S>) -> bool {
        match msg {
            MsgView::Command(command) => self.switches(command),
            MsgView::Speech(_) => !self.in_speech && (self.machine matches Some(m)
                && m.state is Activated),
            _ => false,
        }
    }

    /// What the machine words of this host allow: the generation, and the
    /// longest utterance in samples, must stay in range.
    pub open spec fn step_fits(self, msg: MsgView<S>, settings: SettingsView) -> bool {
        &&& self.renews(msg) ==> self.generation < u64::MAX
        &&& msg is Command && self.renews(msg) && !self.listening ==> at_least_one(
            settings.max_utterance_secs,
        ) * SAMPLE_RATE <= usize::MAX
    }
}

/// Wake listening: hotkey, settings commands, audio, transcripts and timeouts
/// funnel in here.
pub struct WakeManager<S> {
    inbox: VecDeque<LoopMsg<S>>,
    listening: bool,
    machine: Option<WakeStateMachine>,
    generation: u64,
    utterance: Vec<S>,
    silence_frames: u32,
    in_speech: bool,
    max_utterance_samples: usize,
}

/// What the messages of a queue say.
pub open spec fn msg_views<S>(list: Seq<LoopMsg<S>>) -> Seq<MsgView<S>> {
    Seq::new(list.len(), |i: int| list[i]@)
}

impl<S> View for WakeManager<S> {
    type V = SessionView<S>;

    closed spec fn view(&self) -> SessionView<S> {
        SessionView {
            inbox: msg_views(self.inbox@),
            listening: self.listening,
            machine: match self.machine {
                Some(m) => Some(m@),
                None => None,
            },
            generation: self.generation as nat,
            utterance: self.utterance@,
            silence_frames: self.silence_frames as nat,
            in_speech: self.in_speech,
            max_utterance_samples: self.max_utterance_samples as nat,
        }
    }
}

impl<S> WakeManager<S> {
    /// A session that is off, with an empty queue.
    pub fn new() -> (r: Self)
        ensures
            r@.wf(),
            r@ == (SessionView::<S> {
                inbox: Seq::empty(),
                listening: false,
                machine: None,
                generation: 0,
                utterance: Seq::empty(),
                silence_frames: 0,
                in_speech: false,
                max_utterance_samples: DEFAULT_MAX_UTTERANCE_SAMPLES as nat,
            }),
    {
        let r = WakeManager {
            inbox: VecDeque::new(),
            listening: false,
            machine: None,
            generation: 0,
            utterance: Vec::new(),
            silence_frames: 0,
            in_speech: false,
            max_utterance_samples: DEFAULT_MAX_UTTERANCE_SAMPLES,
        };
        assert(r@.inbox =~= Seq::empty());
        r
    }

    /// Puts a message at the end of the queue.
    pub fn post(&mut self, msg: LoopMsg<S>)
        ensures
            final(self)@ == old(self)@.posted(msg@),
    {
        let ghost before = self@;
        self.inbox.push_back(msg);
        assert(self@.inbox =~= before.inbox.push(msg@));
    }

    /// Hotkey toggle: asks for the other of on and off.
    pub fn toggle(&mut self)
        ensures
            final(self)@ == old(self)@.posted(MsgView::Command(WakeCommand::Toggle)),
    {
        self.post(LoopMsg::Command(WakeCommand::Toggle));
    }

    /// Switch used by the input-mode setting and at app startup.
    pub fn set_on(&mut self, on: bool)
        ensures
            final(self)@ == old(self)@.posted(MsgView::Command(WakeCommand::SetOn(on))),
    {
        self.post(LoopMsg::Command(WakeCommand::SetOn(on)));
    }

    /// Whether wake listening is currently enabled (any state but `Off`).
    pub fn is_listening(&self) -> (r: bool)
        ensures
            r == self@.listening,
    {
        self.listening
    }

    /// Whether a message waits in the queue.
    pub fn has_message(&self) -> (r: bool)
        ensures
            r == (self@.inbox.len() > 0),
    {
        self.inbox.len() > 0
    }

    /// Whether the next message keeps the generation, and the longest utterance
    /// in samples, in range.
    pub fn next_fits(&self, settings: &AppSettings) -> (r: bool)
        ensures
            r == (self@.inbox.len() > 0 ==> self@.step_fits(
                self@.inbox[0],
                settings_view(*settings),
            )),
    {
        if self.inbox.len() == 0 {
            return true;
        }
        let msg = &self.inbox[0];
        proof {
            assert(self@.inbox[0] == msg@);
        }
        match msg {
            LoopMsg::Command(command) => {
                let want_on = match *command {
                    WakeCommand::Toggle => !self.listening,
                    WakeCommand::SetOn(on) => on,
                };
                if want_on == self.listening {
                    return true;
                }
                self.generation < u64::MAX && (self.listening || length_fits(
                    settings.wake_max_utterance_secs,
                ))
            },
            LoopMsg::Audio(WakeAudioFrame::Speech(_)) => {
                let activated = match &self.machine {
                    Some(m) => m.state() == WakeState::Activated,
                    None => false,
                };
                self.in_speech || !activated || self.generation < u64::MAX
            },
            _ => true,
        }
    }

    /// Takes the oldest message from the queue, and says what the host has to
    /// do for it, in order; `None` where the queue is empty.
    pub fn run_next(&mut self, settings: &AppSettings) -> (r: Option<Vec<HostAction<S>>>)
        requires
            old(self)@.wf(),
            old(self)@.inbox.len() > 0 ==> old(self)@.step_fits(
                old(self)@.inbox[0],
                settings_view(*settings),
            ),
        ensures
            final(self)@.wf(),
            r is None <==> old(self)@.inbox.len() == 0,
            r is None ==> final(self)@ == old(self)@,
            r matches Some(actions) ==> (final(self)@, action_views(actions@)) == old(
                self,
            )@.handled(settings_view(*settings)),
    {
        let ghost before = self@;
        match self.inbox.pop_front() {
            None => None,
            Some(msg) => {
                proof {
                    assert(self@.inbox =~= before.inbox.drop_first());
                    assert(before.inbox[0] == msg@);
                }
                Some(self.process(msg, settings))
            },
        }
    }

    /// Handles one message.
    fn process(&mut self, msg: LoopMsg<S>, settings: &AppSettings) -> (r: Vec<HostAction<S>>)
        requires
            old(self)@.wf(),
            old(self)@.step_fits(msg@, settings_view(*settings)),
        ensures
            final(self)@.wf(),
            final(self)@ == old(self)@.step(msg@, settings_view(*settings)).0,
            action_views(r@) == old(self)@.step(msg@, settings_view(*settings)).1,
    {
        proof {
            law_step_keeps_wf(self@, msg@, settings_view(*settings));
            assert(action_views(Seq::<HostAction<S>>::empty()) =~= Seq::empty());
        }
        match msg {
            LoopMsg::Command(command) => {
                let want_on = match command {
                    WakeCommand::Toggle => !self.listening,
                    WakeCommand::SetOn(on) => on,
                };
                if want_on == self.listening {
                    Vec::new()
                } else if want_on {
                    self.switch_on(settings)
                } else {
                    self.listening = false;
                    self.quieten();
                    self.feed(WakeEvent::ToggleOff, settings)
                }
            },
            LoopMsg::Audio(frame) => {
                if !self.is_awake() {
                    return Vec::new();
                }
                match frame {
                    WakeAudioFrame::Speech(samples) => self.hear_speech(samples, settings),
                    WakeAudioFrame::Silence => self.hear_silence(settings),
                }
            },
            LoopMsg::Transcript { generation, result } => {
                if generation != self.generation {
                    return Vec::new();
                }
                match result {
                    Ok(heard) => self.feed(WakeEvent::Transcribed(heard), settings),
                    // A failed transcription counts as one in which nothing was
                    // said.
                    Err(_) => {
                        let nothing = String::new();
                        assert(nothing@ =~= Seq::empty());
                        self.feed(WakeEvent::Transcribed(nothing), settings)
                    },
                }
            },
            LoopMsg::ActivationTimeoutFired { generation } => {
                if generation != self.generation {
                    return Vec::new();
                }
                self.feed(WakeEvent::ActivationTimeout, settings)
            },
        }
    }

    /// Switches listening on, with a machine made from the settings.
    fn switch_on(&mut self, settings: &AppSettings) -> (r: Vec<HostAction<S>>)
        requires
            !old(self)@.listening,
            old(self)@.generation < u64::MAX,
            at_least_one(settings.wake_max_utterance_secs as nat) * SAMPLE_RATE <= usize::MAX,
        ensures
            final(self)@ == old(self)@.switched(settings_view(*settings)).0,
            action_views(r@) == old(self)@.switched(settings_view(*settings)).1,
    {
        let detector = AsrPrefixWakeDetector::new(
            settings.wake_phrase.as_str(),
            settings.wake_alternative_phrases.as_slice(),
        );
        self.machine = Some(WakeStateMachine::new(detector));
        let secs: u64 = if settings.wake_max_utterance_secs == 0 {
            1
        } else {
            settings.wake_max_utterance_secs
        };
        self.max_utterance_samples = (secs as usize) * SAMPLE_RATE;
        self.listening = true;
        self.generation = self.generation + 1;
        self.feed(WakeEvent::ToggleOn, settings)
    }

    /// Whether there is a machine in a wake state.
    fn is_awake(&self) -> (r: bool)
        ensures
            r == self@.awake(),
    {
        match &self.machine {
            Some(m) => m.state() != WakeState::Off,
            None => false,
        }
    }

    /// Forgets the utterance under way, and hands its samples out.
    fn quieten(&mut self) -> (r: Vec<S>)
        ensures
            final(self)@ == old(self)@.quiet(),
            r@ == old(self)@.utterance,
    {
        let mut samples: Vec<S> = Vec::new();
        samples.append(&mut self.utterance);
        self.in_speech = false;
        self.silence_frames = 0;
        assert(samples@ =~= old(self)@.utterance);
        assert(self@.utterance =~= Seq::empty());
        samples
    }

    /// A frame of speech.
    fn hear_speech(&mut self, samples: Vec<S>, settings: &AppSettings) -> (r: Vec<HostAction<S>>)
        requires
            old(self)@.wf(),
            old(self)@.awake(),
            old(self)@.step_fits(MsgView::Speech(samples@), settings_view(*settings)),
        ensures
            final(self)@ == old(self)@.step(
                MsgView::Speech(samples@),
                settings_view(*settings),
            ).0,
            action_views(r@) == old(self)@.step(
                MsgView::Speech(samples@),
                settings_view(*settings),
            ).1,
    {
        if self.in_speech {
            return self.collect(samples, settings);
        }
        self.quieten();
        self.in_speech = true;
        let mut actions = self.feed(WakeEvent::SpeechStarted, settings);
        let ghost started = action_views(actions@);
        assert(self@.utterance + samples@ =~= samples@);
        let mut ended = self.collect(samples, settings);
        let ghost rest = action_views(ended@);
        actions.append(&mut ended);
        assert(action_views(actions@) =~= started + rest);
        actions
    }

    /// Adds samples to the utterance under way.
    fn collect(&mut self, samples: Vec<S>, settings: &AppSettings) -> (r: Vec<HostAction<S>>)
        ensures
            final(self)@ == old(self)@.collected(
                old(self)@.utterance + samples@,
                settings_view(*settings),
            ).0,
            action_views(r@) == old(self)@.collected(
                old(self)@.utterance + samples@,
                settings_view(*settings),
            ).1,
    {
        let mut samples = samples;
        self.utterance.append(&mut samples);
        self.silence_frames = 0;
        if self.utterance.len() >= self.max_utterance_samples {
            let buffer = self.quieten();
            proof {
                lemma_feed_generation(
                    self@,
                    EventView::UtteranceCaptured(buffer@),
                    settings_view(*settings),
                );
            }
            self.feed(WakeEvent::UtteranceCaptured(buffer), settings)
        } else {
            let none: Vec<HostAction<S>> = Vec::new();
            assert(action_views(none@) =~= Seq::empty());
            none
        }
    }

    /// A silent frame.
    fn hear_silence(&mut self, settings: &AppSettings) -> (r: Vec<HostAction<S>>)
        requires
            old(self)@.wf(),
            old(self)@.awake(),
        ensures
            final(self)@ == old(self)@.step(MsgView::Silence, settings_view(*settings)).0,
            action_views(r@) == old(self)@.step(MsgView::Silence, settings_view(*settings)).1,
    {
        if !self.in_speech {
            let none: Vec<HostAction<S>> = Vec::new();
            assert(action_views(none@) =~= Seq::empty());
            return none;
        }
        self.silence_frames = self.silence_frames + 1;
        if self.silence_frames >= HANGOVER_FRAMES {
            let buffer = self.quieten();
            if buffer.len() >= MIN_UTTERANCE_SAMPLES {
                self.feed(WakeEvent::UtteranceCaptured(buffer), settings)
            } else {
                self.feed(WakeEvent::UtteranceDropped, settings)
            }
        } else {
            let none: Vec<HostAction<S>> = Vec::new();
            assert(action_views(none@) =~= Seq::empty());
            none
        }
    }

    /// Lets the machine handle an event, and plans what comes out.
    fn feed(&mut self, event: WakeEvent<S>, settings: &AppSettings) -> (r: Vec<HostAction<S>>)
        requires
            old(self)@.feed(event@, settings_view(*settings)).0.generation <= u64::MAX,
        ensures
            final(self)@ == old(self)@.feed(event@, settings_view(*settings)).0,
            action_views(r@) == old(self)@.feed(event@, settings_view(*settings)).1,
    {
        match self.machine.take() {
            None => {
                let none: Vec<HostAction<S>> = Vec::new();
                assert(action_views(none@) =~= Seq::empty());
                none
            },
            Some(machine) => {
                let mut machine = machine;
                let effects = machine.handle(event);
                self.machine = Some(machine);
                if cancels_timer(&effects) {
                    self.generation = self.generation + 1;
                }
                plan_effects(effects, self.generation, settings.wake_activation_timeout_secs)
            },
        }
    }
}

/// Every message keeps the session well formed.
pub proof fn law_step_keeps_wf<S>(v: SessionView<S>, msg: MsgView<S>, settings: SettingsView)
    requires
        v.wf(),
    ensures
        v.step(msg, settings).0.wf(),
{
    assert(at_least_one(settings.max_utterance_secs) * SAMPLE_RATE >= SAMPLE_RATE)
        by (nonlinear_arith);
}

/// An action comes from an effect.
proof fn lemma_action_has_effect<S>(
    effects: Seq<EffectView<S>>,
    generation: nat,
    window_secs: nat,
    action: ActionView<S>,
) -> (i: int)
    requires
        actions_of(effects, generation, window_secs).contains(action),
    ensures
        0 <= i < effects.len(),
        action_of(effects[i], generation, window_secs) == Some(action),
    decreases effects.len(),
{
    let actions = actions_of(effects, generation, window_secs);
    let before = actions_of(effects.drop_last(), generation, window_secs);
    let k = choose|k: int| 0 <= k < actions.len() && actions[k] == action;
    if k < before.len() {
        assert(before[k] == action);
        lemma_action_has_effect(effects.drop_last(), generation, window_secs, action)
    } else {
        effects.len() - 1
    }
}

/// When handling an event moves the generation on: where it cancels the window
/// timer.
proof fn lemma_feed_generation<S>(v: SessionView<S>, event: EventView<S>, settings: SettingsView)
    ensures
        v.feed(event, settings).0.generation == if v.machine matches Some(m) && {
            ||| event is SpeechStarted && m.state is Activated
            ||| event is ToggleOff && !(m.state is Off)
        } {
            v.generation + 1
        } else {
            v.generation
        },
{
    if let Some(m) = v.machine {
        machine::law_timer_canceled_iff(m, event);
    }
}

/// The effect behind an action, where the machine was fed an event.
proof fn lemma_feed_action<S>(
    v: SessionView<S>,
    event: EventView<S>,
    settings: SettingsView,
    action: ActionView<S>,
) -> (i: int)
    requires
        v.feed(event, settings).1.contains(action),
    ensures
        v.machine matches Some(m) && {
            let effects = machine::transition(m, event).1;
            &&& 0 <= i < effects.len()
            &&& action_of(
                effects[i],
                v.feed(event, settings).0.generation,
                settings.window_secs,
            ) == Some(action)
        },
{
    assert(!(Seq::<ActionView<S>>::empty().contains(action)));
    let m = v.machine->0;
    let effects = machine::transition(m, event).1;
    lemma_action_has_effect(
        effects,
        v.feed(event, settings).0.generation,
        settings.window_secs,
        action,
    )
}

/// The effect behind an action of a step: a machine was fed an event, and the
/// action says what one of its effects asks.
proof fn lemma_step_action<S>(
    v: SessionView<S>,
    msg: MsgView<S>,
    settings: SettingsView,
    action: ActionView<S>,
) -> (r: (MachineView, EventView<S>, int))
    requires
        v.wf(),
        v.step(msg, settings).1.contains(action),
    ensures
        ({
            let (m, event, i) = r;
            let next = v.step(msg, settings).0;
            let effects = machine::transition(m, event).1;
            &&& 0 <= i < effects.len()
            &&& action_of(effects[i], next.generation, settings.window_secs) == Some(action)
            &&& event matches EventView::UtteranceCaptured(samples) ==> samples.len()
                >= MIN_UTTERANCE_SAMPLES
            &&& event matches EventView::Transcribed(said) ==> v.machine == Some(m) && (
            msg matches MsgView::Transcript { generation, heard } && generation == v.generation
                && said == match heard {
                Some(utterance) => utterance,
                None => Seq::empty(),
            })
        }),
{
    let event = match msg {
        MsgView::Command(_) => if v.listening {
            EventView::ToggleOff
        } else {
            EventView::ToggleOn
        },
        MsgView::Speech(samples) => EventView::UtteranceCaptured(v.utterance + samples),
        MsgView::Silence => if v.utterance.len() >= MIN_UTTERANCE_SAMPLES {
            EventView::UtteranceCaptured(v.utterance)
        } else {
            EventView::UtteranceDropped
        },
        MsgView::Transcript { generation, heard } => EventView::Transcribed(
            match heard {
                Some(utterance) => utterance,
                None => Seq::empty(),
            },
        ),
        MsgView::ActivationTimeoutFired { generation } => EventView::ActivationTimeout,
    };
    assert(!(Seq::<ActionView<S>>::empty().contains(action)));
    if msg is Speech && !v.in_speech {
        let samples = msg->Speech_0;
        let opened = SessionView { in_speech: true, ..v.quiet() };
        let (begun, started) = opened.feed(EventView::SpeechStarted, settings);
        let (next, ended) = begun.collected(samples, settings);
        let all = started + ended;
        let k = choose|k: int| 0 <= k < all.len() && all[k] == action;
        if samples.len() >= begun.max_utterance_samples {
            lemma_feed_generation(
                begun.quiet(),
                EventView::UtteranceCaptured(samples),
                settings,
            );
        }
        if k < started.len() {
            assert(started[k] == action);
            let i = lemma_feed_action(opened, EventView::SpeechStarted, settings, action);
            (opened.machine->0, EventView::SpeechStarted, i)
        } else {
            assert(ended[k - started.len()] == action);
            let event = EventView::UtteranceCaptured(samples);
            let i = lemma_feed_action(begun.quiet(), event, settings, action);
            (begun.machine->0, event, i)
        }
    } else {
        let fed = match msg {
            MsgView::Command(_) => if v.listening {
                SessionView { listening: false, ..v.quiet() }
            } else {
                SessionView {
                    listening: true,
                    generation: v.generation + 1,
                    machine: Some(
                        MachineView {
                            state: WakeState::Off,
                            activated_capture: false,
                            phrases: settings.phrases,
                        },
                    ),
                    max_utterance_samples: at_least_one(settings.max_utterance_secs)
                        * SAMPLE_RATE as nat,
                    ..v
                }
            },
            MsgView::Speech(_) => v.quiet(),
            MsgView::Silence => v.quiet(),
            _ => v,
        };
        assert(v.step(msg, settings) == fed.feed(event, settings));
        let i = lemma_feed_action(fed, event, settings, action);
        (fed.machine->0, event, i)
    }
}

/// A transcript or a timeout from another generation is ignored.
pub proof fn law_stale_work_is_ignored<S>(
    v: SessionView<S>,
    msg: MsgView<S>,
    settings: SettingsView,
)
    requires
        msg matches MsgView::Transcript { generation, heard } ==> generation != v.generation,
        msg matches MsgView::ActivationTimeoutFired { generation } ==> generation != v.generation,
        msg is Transcript || msg is ActivationTimeoutFired,
    ensures
        v.step(msg, settings) == (v, Seq::<ActionView<S>>::empty()),
{
}

/// A switch moves the generation on by one, and so does speech in the
/// `Activated` window, which cancels the timer; nothing else moves it.
pub proof fn law_generation_counts_cancellations<S>(
    v: SessionView<S>,
    msg: MsgView<S>,
    settings: SettingsView,
)
    requires
        v.wf(),
    ensures
        v.step(msg, settings).0.generation == if v.renews(msg) {
            v.generation + 1
        } else {
            v.generation
        },
        msg is Command ==> (v.renews(msg) <==> v.step(msg, settings).0.listening != v.listening),
{
    let opened = SessionView { in_speech: true, ..v.quiet() };
    lemma_feed_generation(opened, EventView::SpeechStarted, settings);
    match msg {
        MsgView::Command(_) => {
            lemma_feed_generation(
                SessionView { listening: false, ..v.quiet() },
                EventView::ToggleOff,
                settings,
            );
            let off = MachineView {
                state: WakeState::Off,
                activated_capture: false,
                phrases: settings.phrases,
            };
            machine::law_timer_canceled_iff(off, EventView::<S>::ToggleOn);
        },
        MsgView::Speech(samples) => {
            let begun = opened.feed(EventView::SpeechStarted, settings).0;
            lemma_feed_generation(begun.quiet(), EventView::UtteranceCaptured(samples), settings);
            lemma_feed_generation(
                v.quiet(),
                EventView::UtteranceCaptured(v.utterance + samples),
                settings,
            );
        },
        MsgView::Silence => {
            lemma_feed_generation(v.quiet(), EventView::UtteranceCaptured(v.utterance), settings);
            lemma_feed_generation(v.quiet(), EventView::UtteranceDropped, settings);
        },
        MsgView::Transcript { generation, heard } => {
            let said = match heard {
                Some(utterance) => utterance,
                None => Seq::empty(),
            };
            lemma_feed_generation(v, EventView::Transcribed(said), settings);
        },
        MsgView::ActivationTimeoutFired { generation } => {
            lemma_feed_generation(v, EventView::ActivationTimeout, settings);
        },
    }
}

/// Work that reports back is stamped with the generation that the session is
/// in once the message is handled.
pub proof fn law_work_is_stamped<S>(
    v: SessionView<S>,
    msg: MsgView<S>,
    settings: SettingsView,
    action: ActionView<S>,
)
    requires
        v.wf(),
        v.step(msg, settings).1.contains(action),
    ensures
        action matches ActionView::Transcribe { generation, samples } ==> generation == v.step(
            msg,
            settings,
        ).0.generation,
        action matches ActionView::StartTimer { generation, secs } ==> generation == v.step(
            msg,
            settings,
        ).0.generation && secs == at_least_one(settings.window_secs),
{
    let _ = lemma_step_action(v, msg, settings, action);
}

impl<S> SessionView<S> {
    /// The session after a row of messages, each with the settings of its time.
    pub open spec fn run(self, steps: Seq<(MsgView<S>, SettingsView)>) -> SessionView<S>
        decreases steps.len(),
    {
        if steps.len() == 0 {
            self
        } else {
            self.run(steps.drop_last()).step(steps.last().0, steps.last().1).0
        }
    }
}

/// Over any row of messages the session stays well formed, and the generation
/// never goes back.
pub proof fn law_run_keeps_wf<S>(v: SessionView<S>, steps: Seq<(MsgView<S>, SettingsView)>)
    requires
        v.wf(),
    ensures
        v.run(steps).wf(),
        v.run(steps).generation >= v.generation,
    decreases steps.len(),
{
    if steps.len() > 0 {
        law_run_keeps_wf(v, steps.drop_last());
        let before = v.run(steps.drop_last());
        law_step_keeps_wf(before, steps.last().0, steps.last().1);
        law_generation_counts_cancellations(before, steps.last().0, steps.last().1);
    }
}

/// Switching off cancels what is in flight: whatever happens afterwards, a
/// transcript or a timeout that was started up to then is ignored.
pub proof fn law_switching_off_cancels_in_flight_work<S>(
    v: SessionView<S>,
    command: WakeCommand,
    settings: SettingsView,
    later: Seq<(MsgView<S>, SettingsView)>,
    report: MsgView<S>,
    then: SettingsView,
)
    requires
        v.wf(),
        v.listening,
        v.switches(command),
        report matches MsgView::Transcript { generation, heard } ==> generation <= v.generation,
        report matches MsgView::ActivationTimeoutFired { generation } ==> generation
            <= v.generation,
        report is Transcript || report is ActivationTimeoutFired,
    ensures
        ({
            let off = v.step(MsgView::Command(command), settings).0;
            let now = off.run(later);
            now.step(report, then) == (now, Seq::<ActionView<S>>::empty())
        }),
{
    law_step_keeps_wf(v, MsgView::Command(command), settings);
    let off = v.step(MsgView::Command(command), settings).0;
    law_run_keeps_wf(off, later);
    law_stale_work_is_ignored(off.run(later), report, then);
}

/// Switching off from any wake state detaches the microphone and hides the
/// overlay, and forgets the utterance under way.
pub proof fn law_switching_off<S>(v: SessionView<S>, command: WakeCommand, settings: SettingsView)
    requires
        v.wf(),
        v.listening,
        v.switches(command),
    ensures
        ({
            let (off, actions) = v.step(MsgView::Command(command), settings);
            &&& !off.listening
            &&& off.machine->0.state is Off
            &&& off == off.quiet()
            &&& actions == seq![ActionView::<S>::DetachListener, ActionView::HideOverlay]
        }),
{
    reveal_with_fuel(actions_of, 4);
    let effects = machine::transition(v.machine->0, EventView::<S>::ToggleOff).1;
    let generation = v.generation + 1;
    let window = settings.window_secs;
    assert(effects.drop_last().drop_last() =~= seq![EffectView::CancelActivationTimeout]);
    assert(actions_of(effects, generation, window) =~= seq![
        ActionView::<S>::DetachListener,
        ActionView::HideOverlay,
    ]);
}

/// Switching on arms a new machine with the phrases of the settings, attaches
/// the microphone and shows the armed overlay.
pub proof fn law_switching_on<S>(v: SessionView<S>, command: WakeCommand, settings: SettingsView)
    requires
        v.wf(),
        !v.listening,
        v.switches(command),
    ensures
        ({
            let (on, actions) = v.step(MsgView::Command(command), settings);
            &&& on.listening
            &&& on.machine == Some(
                MachineView {
                    state: WakeState::Armed,
                    activated_capture: false,
                    phrases: settings.phrases,
                },
            )
            &&& actions == seq![
                ActionView::<S>::AttachListener,
                ActionView::ShowOverlay("armed"@),
            ]
        }),
{
    reveal_with_fuel(actions_of, 3);
    let (on, actions) = v.step(MsgView::Command(command), settings);
    assert(actions =~= seq![ActionView::<S>::AttachListener, ActionView::ShowOverlay("armed"@)]);
}

/// While listening is off, nothing but switching it on has any effect.
pub proof fn law_off_session_is_silent<S>(
    v: SessionView<S>,
    msg: MsgView<S>,
    settings: SettingsView,
)
    requires
        v.wf(),
        !v.listening,
        msg matches MsgView::Command(command) ==> !v.switches(command),
    ensures
        v.step(msg, settings) == (v, Seq::<ActionView<S>>::empty()),
{
    assert(actions_of(Seq::<EffectView<S>>::empty(), v.generation, settings.window_secs)
        =~= Seq::empty());
}

/// Asking for on or off gives on or off, and asking for what holds already
/// changes nothing; a toggle gives the other.
pub proof fn law_commands<S>(v: SessionView<S>, on: bool, settings: SettingsView)
    requires
        v.wf(),
    ensures
        v.step(MsgView::Command(WakeCommand::SetOn(on)), settings).0.listening == on,
        v.listening == on ==> v.step(MsgView::Command(WakeCommand::SetOn(on)), settings) == (
            v,
            Seq::<ActionView<S>>::empty(),
        ),
        v.step(MsgView::Command(WakeCommand::Toggle), settings).0.listening == !v.listening,
{
}

/// What is shorter than 0.3 s is never transcribed.
pub proof fn law_short_utterance_is_never_transcribed<S>(
    v: SessionView<S>,
    msg: MsgView<S>,
    settings: SettingsView,
    generation: nat,
    samples: Seq<S>,
)
    requires
        v.wf(),
        v.step(msg, settings).1.contains(ActionView::Transcribe { generation, samples }),
    ensures
        samples.len() >= MIN_UTTERANCE_SAMPLES,
{
    let (m, event, i) = lemma_step_action(
        v,
        msg,
        settings,
        ActionView::Transcribe { generation, samples },
    );
}

/// What a transcript of the current generation does in `Transcribing`. A
/// command has its payload pasted. A bare wake phrase opens the window, or ends
/// one. What has no wake phrase is pasted, without the white space at its ends,
/// where its utterance began in the window, and is discarded otherwise.
pub proof fn law_transcript_decides<S>(
    v: SessionView<S>,
    utterance: Seq<char>,
    settings: SettingsView,
)
    requires
        v.machine matches Some(m) && m.state is Transcribing,
    ensures
        ({
            let m = v.machine->0;
            let msg = MsgView::<S>::Transcript {
                generation: v.generation,
                heard: Some(utterance),
            };
            let armed = SessionView { machine: Some(m.at(WakeState::Armed, false)), ..v };
            let show_armed = ActionView::<S>::ShowOverlay("armed"@);
            let whole = text::strip(utterance, text::CharClass::Blank);
            v.step(msg, settings) == match detector::utterance_verdict(m.phrases, utterance) {
                detector::Verdict::Command { payload } => (
                    armed,
                    seq![ActionView::Paste(payload), show_armed],
                ),
                detector::Verdict::BareWake => if m.activated_capture {
                    (armed, seq![show_armed])
                } else {
                    (
                        SessionView { machine: Some(m.at(WakeState::Activated, false)), ..v },
                        seq![
                            ActionView::StartTimer {
                                generation: v.generation,
                                secs: at_least_one(settings.window_secs),
                            },
                            ActionView::ShowOverlay("wake-activated"@),
                        ],
                    )
                },
                detector::Verdict::NoMatch => if m.activated_capture && whole.len() > 0 {
                    (armed, seq![ActionView::Paste(whole), show_armed])
                } else {
                    (armed, seq![show_armed])
                },
            }
        }),
{
    let m = v.machine->0;
    let event = EventView::<S>::Transcribed(utterance);
    let msg = MsgView::<S>::Transcript { generation: v.generation, heard: Some(utterance) };
    let show_armed = ActionView::<S>::ShowOverlay("armed"@);
    let whole = text::strip(utterance, text::CharClass::Blank);
    lemma_feed_generation(v, event, settings);
    reveal_with_fuel(actions_of, 3);
    let effects = machine::transition(m, event).1;
    let actions = v.step(msg, settings).1;
    assert(effects.drop_last() =~= effects.take(effects.len() - 1));
    if effects.len() == 2 {
        assert(effects.drop_last() =~= seq![effects[0]]);
        assert(effects.drop_last().drop_last() =~= Seq::empty());
    } else {
        assert(effects.drop_last() =~= Seq::empty());
    }
    match detector::utterance_verdict(m.phrases, utterance) {
        detector::Verdict::Command { payload } => {
            assert(actions =~= seq![ActionView::Paste(payload), show_armed]);
        },
        detector::Verdict::BareWake => {
            if m.activated_capture {
                assert(actions =~= seq![show_armed]);
            } else {
                assert(actions =~= seq![
                    ActionView::StartTimer {
                        generation: v.generation,
                        secs: at_least_one(settings.window_secs),
                    },
                    ActionView::ShowOverlay("wake-activated"@),
                ]);
            }
        },
        detector::Verdict::NoMatch => {
            if m.activated_capture && whole.len() > 0 {
                assert(actions =~= seq![ActionView::Paste(whole), show_armed]);
            } else {
                assert(actions =~= seq![show_armed]);
            }
        },
    }
}

/// Something is pasted only for a transcript of the current generation, and
/// only where the wake phrase starts it, or where it has no wake phrase and
/// its utterance began in the `Activated` window.
pub proof fn law_session_paste<S>(
    v: SessionView<S>,
    msg: MsgView<S>,
    settings: SettingsView,
    payload: Seq<char>,
)
    requires
        v.wf(),
        v.step(msg, settings).1.contains(ActionView::Paste(payload)),
    ensures
        payload.len() > 0,
        v.machine matches Some(m) && msg matches MsgView::Transcript { generation, heard }
            && heard matches Some(utterance) && {
            &&& generation == v.generation
            &&& {
                ||| detector::utterance_verdict(m.phrases, utterance) == (
                detector::Verdict::Command { payload })
                ||| {
                    &&& m.activated_capture
                    &&& detector::utterance_verdict(m.phrases, utterance) is NoMatch
                    &&& payload == text::strip(utterance, text::CharClass::Blank)
                }
            }
        },
{
    let (m, event, i) = lemma_step_action(v, msg, settings, ActionView::Paste(payload));
    let effects = machine::transition(m, event).1;
    assert(effects[i] == EffectView::<S>::PastePayload(payload));
    machine::law_paste_needs_phrase_or_window(m, event, payload);
    if msg matches MsgView::Transcript { generation, heard: None } {
        machine::law_nothing_said::<S>(m);
    }
}

/// What an effect asks is among the actions.
proof fn lemma_effect_has_action<S>(
    effects: Seq<EffectView<S>>,
    generation: nat,
    window_secs: nat,
    i: int,
)
    requires
        0 <= i < effects.len(),
        action_of(effects[i], generation, window_secs) is Some,
    ensures
        actions_of(effects, generation, window_secs).contains(
            action_of(effects[i], generation, window_secs)->0,
        ),
    decreases effects.len(),
{
    let actions = actions_of(effects, generation, window_secs);
    let action = action_of(effects[i], generation, window_secs)->0;
    if i == effects.len() - 1 {
        assert(actions.last() == action);
    } else {
        let before = actions_of(effects.drop_last(), generation, window_secs);
        lemma_effect_has_action(effects.drop_last(), generation, window_secs, i);
        let k = choose|k: int| 0 <= k < before.len() && before[k] == action;
        assert(actions[k] == action);
    }
}

/// Whether the action changes the overlay.
pub open spec fn sets_overlay<S>(action: ActionView<S>) -> bool {
    action is ShowOverlay || action is HideOverlay
}

/// Whether the action makes the overlay show this state.
pub open spec fn shows_state<S>(action: ActionView<S>, state: WakeState) -> bool {
    match overlay_name(machine::overlay_of(state)) {
        None => action is HideOverlay,
        Some(name) => action == ActionView::<S>::ShowOverlay(name),
    }
}

/// Where the machine was fed an event: every change of the overlay shows the
/// state it is then in, and a machine that moved has the overlay changed.
proof fn lemma_feed_overlay<S>(v: SessionView<S>, event: EventView<S>, settings: SettingsView)
    requires
        v.machine is Some,
    ensures
        ({
            let (next, actions) = v.feed(event, settings);
            &&& forall|k: int|
                0 <= k < actions.len() && sets_overlay(#[trigger] actions[k]) ==> shows_state(
                    actions[k],
                    next.machine->0.state,
                )
            &&& next.machine->0.state != v.machine->0.state ==> exists|k: int|
                0 <= k < actions.len() && sets_overlay(#[trigger] actions[k])
        }),
{
    let (next, actions) = v.feed(event, settings);
    let m = v.machine->0;
    let (after, effects) = machine::transition(m, event);
    machine::law_overlay_follows_state(m, event);
    assert forall|k: int|
        0 <= k < actions.len() && sets_overlay(#[trigger] actions[k]) implies shows_state(
        actions[k],
        next.machine->0.state,
    ) by {
        assert(actions.contains(actions[k]));
        let i = lemma_feed_action(v, event, settings, actions[k]);
        assert(effects[i] is SetOverlay);
    }
    if after.state != m.state {
        let shown = EffectView::<S>::SetOverlay(machine::overlay_of(after.state));
        let i = choose|i: int| 0 <= i < effects.len() && effects[i] == shown;
        lemma_effect_has_action(effects, next.generation, settings.window_secs, i);
        let action = action_of(effects[i], next.generation, settings.window_secs)->0;
        let k = choose|k: int| 0 <= k < actions.len() && actions[k] == action;
        assert(sets_overlay(actions[k]));
    }
}

/// The overlay that the host was last told to show, or to hide, is the one of
/// the state that the machine is then in.
pub proof fn law_session_overlay<S>(
    v: SessionView<S>,
    msg: MsgView<S>,
    settings: SettingsView,
    last: int,
)
    requires
        v.wf(),
        0 <= last < v.step(msg, settings).1.len(),
        sets_overlay(v.step(msg, settings).1[last]),
        forall|k: int|
            last < k < v.step(msg, settings).1.len() ==> !sets_overlay(
                #[trigger] v.step(msg, settings).1[k],
            ),
    ensures
        v.step(msg, settings).0.machine matches Some(m) && shows_state(
            v.step(msg, settings).1[last],
            m.state,
        ),
{
    let (next, actions) = v.step(msg, settings);
    match msg {
        MsgView::Command(_) => {
            if v.listening {
                lemma_feed_overlay(
                    SessionView { listening: false, ..v.quiet() },
                    EventView::ToggleOff,
                    settings,
                );
            } else {
                let fresh = SessionView {
                    listening: true,
                    generation: v.generation + 1,
                    machine: Some(
                        MachineView {
                            state: WakeState::Off,
                            activated_capture: false,
                            phrases: settings.phrases,
                        },
                    ),
                    max_utterance_samples: at_least_one(settings.max_utterance_secs)
                        * SAMPLE_RATE as nat,
                    ..v
                };
                lemma_feed_overlay(fresh, EventView::ToggleOn, settings);
            }
        },
        MsgView::Speech(samples) => {
            if v.in_speech {
                lemma_feed_overlay(
                    v.quiet(),
                    EventView::UtteranceCaptured(v.utterance + samples),
                    settings,
                );
            } else {
                let opened = SessionView { in_speech: true, ..v.quiet() };
                let (begun, started) = opened.feed(EventView::SpeechStarted, settings);
                let ended = begun.collected(samples, settings).1;
                lemma_feed_overlay(opened, EventView::SpeechStarted, settings);
                lemma_feed_overlay(
                    begun.quiet(),
                    EventView::UtteranceCaptured(samples),
                    settings,
                );
                if last < started.len() {
                    assert(actions[last] == started[last]);
                    assert forall|k: int| 0 <= k < ended.len() implies !sets_overlay(
                        #[trigger] ended[k],
                    ) by {
                        assert(actions[k + started.len()] == ended[k]);
                    }
                } else {
                    assert(actions[last] == ended[last - started.len()]);
                }
            }
        },
        MsgView::Silence => {
            lemma_feed_overlay(v.quiet(), EventView::UtteranceCaptured(v.utterance), settings);
            lemma_feed_overlay(v.quiet(), EventView::UtteranceDropped, settings);
        },
        MsgView::Transcript { generation, heard } => {
            let said = match heard {
                Some(utterance) => utterance,
                None => Seq::empty(),
            };
            if v.machine is Some {
                lemma_feed_overlay(v, EventView::Transcribed(said), settings);
            }
        },
        MsgView::ActivationTimeoutFired { generation } => {
            if v.machine is Some {
                lemma_feed_overlay(v, EventView::ActivationTimeout, settings);
            }
        },
    }
}

/// A failed transcription pastes nothing, and the machine is `Armed` again: the
/// next speech is captured. In any other state the report changes nothing.
pub proof fn law_failed_transcription<S>(v: SessionView<S>, settings: SettingsView)
    ensures
        ({
            let failed = MsgView::<S>::Transcript { generation: v.generation, heard: None };
            match v.machine {
                Some(m) if m.state is Transcribing => v.step(failed, settings) == (
                    SessionView { machine: Some(m.at(WakeState::Armed, false)), ..v },
                    seq![ActionView::<S>::ShowOverlay("armed"@)],
                ),
                _ => v.step(failed, settings) == (v, Seq::<ActionView<S>>::empty()),
            }
        }),
{
    reveal_with_fuel(actions_of, 3);
    let failed = MsgView::<S>::Transcript { generation: v.generation, heard: None };
    if let Some(m) = v.machine {
        let event = EventView::<S>::Transcribed(Seq::empty());
        lemma_feed_generation(v, event, settings);
        if m.state is Transcribing {
            machine::law_nothing_said::<S>(m);
            let effects = machine::transition(m, event).1;
            if m.activated_capture {
                assert(effects.drop_last() =~= Seq::empty());
            } else {
                assert(effects.drop_last() =~= seq![EffectView::<S>::DiscardUtterance]);
                assert(effects.drop_last().drop_last() =~= Seq::empty());
            }
            assert(v.step(failed, settings).1 =~= seq![ActionView::<S>::ShowOverlay("armed"@)]);
        } else {
            assert(v.step(failed, settings).1 =~= Seq::empty());
        }
    }
}

/// These frames of speech, as messages.
pub open spec fn speech<S>(frames: Seq<Seq<S>>, settings: SettingsView) -> Seq<
    (MsgView<S>, SettingsView),
> {
    frames.map_values(|f: Seq<S>| (MsgView::Speech(f), settings))
}

/// So many silent frames in a row, as messages.
pub open spec fn silence<S>(n: nat, settings: SettingsView) -> Seq<(MsgView<S>, SettingsView)> {
    Seq::new(n, |i: int| (MsgView::Silence, settings))
}

/// One row of messages after another.
proof fn lemma_run_add<S>(
    v: SessionView<S>,
    first: Seq<(MsgView<S>, SettingsView)>,
    then: Seq<(MsgView<S>, SettingsView)>,
)
    ensures
        v.run(first + then) == v.run(first).run(then),
    decreases then.len(),
{
    if then.len() == 0 {
        assert(first + then =~= first);
    } else {
        assert((first + then).drop_last() =~= first + then.drop_last());
        lemma_run_add(v, first, then.drop_last());
    }
}

/// The frames of speech make up the utterance, in order, as long as it stays
/// below the length at which it is cut off; silence is counted anew after them.
pub proof fn law_utterance_collects_frames<S>(
    v: SessionView<S>,
    frames: Seq<Seq<S>>,
    settings: SettingsView,
)
    requires
        v.wf(),
        v.in_speech,
        frames.len() > 0,
        (v.utterance + frames.flatten()).len() < v.max_utterance_samples,
    ensures
        v.run(speech(frames, settings)) == (SessionView {
            utterance: v.utterance + frames.flatten(),
            silence_frames: 0,
            ..v
        }),
    decreases frames.len(),
{
    let steps = speech(frames, settings);
    let init = frames.drop_last();
    assert(steps.drop_last() =~= speech(init, settings));
    frames.lemma_flatten_and_flatten_alt_are_equivalent();
    init.lemma_flatten_and_flatten_alt_are_equivalent();
    assert(frames.flatten() == init.flatten() + frames.last());
    assert(v.utterance + init.flatten() + frames.last() =~= v.utterance + frames.flatten());
    if init.len() == 0 {
        assert(v.utterance + init.flatten() =~= v.utterance);
        assert(v.run(steps.drop_last()) == v);
    } else {
        law_utterance_collects_frames(v, init, settings);
    }
}

/// The utterance is complete: all frames of speech from the onset on make it
/// up, in order, as long as it stays below the length at which it is cut off.
pub proof fn law_utterance_is_complete<S>(
    v: SessionView<S>,
    frames: Seq<Seq<S>>,
    settings: SettingsView,
)
    requires
        v.wf(),
        v.listening,
        !v.in_speech,
        frames.len() > 0,
        frames.flatten().len() < v.max_utterance_samples,
    ensures
        ({
            let opened = SessionView { in_speech: true, ..v }.feed(
                EventView::SpeechStarted,
                settings,
            ).0;
            v.run(speech(frames, settings)) == (SessionView {
                utterance: frames.flatten(),
                ..opened
            })
        }),
{
    let first = seq![frames[0]];
    let rest = frames.drop_first();
    let opened = SessionView { in_speech: true, ..v }.feed(EventView::SpeechStarted, settings).0;
    assert(v.quiet() == v) by {
        assert(v.utterance =~= Seq::empty());
    }
    assert(frames.flatten() == frames[0] + rest.flatten());
    let begun = SessionView { utterance: frames[0], ..opened };
    assert(v.step(MsgView::Speech(frames[0]), settings).0 == begun);
    law_step_keeps_wf(v, MsgView::Speech(frames[0]), settings);
    assert(speech(frames, settings) =~= speech(first, settings) + speech(rest, settings));
    lemma_run_add(v, speech(first, settings), speech(rest, settings));
    assert(speech(first, settings).drop_last() =~= Seq::empty());
    assert(v.run(speech(first, settings).drop_last()) == v);
    assert(v.run(speech(first, settings)) == begun);
    if rest.len() > 0 {
        law_utterance_collects_frames(begun, rest, settings);
    } else {
        assert(frames.flatten() =~= frames[0]);
        assert(speech(rest, settings) =~= Seq::empty());
    }
}

/// Fewer silent frames in a row than end an utterance only count.
pub proof fn law_pause_keeps_utterance<S>(v: SessionView<S>, n: nat, settings: SettingsView)
    requires
        v.wf(),
        v.in_speech,
        v.silence_frames + n < HANGOVER_FRAMES,
    ensures
        v.run(silence(n, settings)) == (SessionView {
            silence_frames: v.silence_frames + n,
            ..v
        }),
    decreases n,
{
    if n > 0 {
        law_pause_keeps_utterance(v, (n - 1) as nat, settings);
        assert(silence::<S>(n, settings).drop_last() =~= silence((n - 1) as nat, settings));
    }
}

/// An utterance ends with the last of so many silent frames in a row: after a
/// frame of speech, fewer leave it under way, and exactly so many end it. It is
/// captured where it is long enough, and dropped where it is not.
pub proof fn law_silence_ends_utterance<S>(
    v: SessionView<S>,
    samples: Seq<S>,
    n: nat,
    settings: SettingsView,
)
    requires
        v.wf(),
        v.in_speech,
        (v.utterance + samples).len() < v.max_utterance_samples,
        n < HANGOVER_FRAMES,
    ensures
        ({
            let spoken = v.step(MsgView::Speech(samples), settings).0;
            let paused = spoken.run(silence(n, settings));
            &&& spoken == (SessionView {
                utterance: v.utterance + samples,
                silence_frames: 0,
                ..v
            })
            &&& paused == (SessionView { silence_frames: n, ..spoken })
            &&& n + 1 == HANGOVER_FRAMES ==> paused.step(MsgView::Silence, settings)
                == spoken.quiet().feed(
                if spoken.utterance.len() >= MIN_UTTERANCE_SAMPLES {
                    EventView::UtteranceCaptured(spoken.utterance)
                } else {
                    EventView::UtteranceDropped
                },
                settings,
            )
        }),
{
    let spoken = v.step(MsgView::Speech(samples), settings).0;
    law_step_keeps_wf(v, MsgView::Speech(samples), settings);
    law_pause_keeps_utterance(spoken, n, settings);
}

/// From the onset to the recognizer: the frames of an utterance, followed by so
/// many silent frames in a row, are transcribed together, in order and all of
/// them.
pub proof fn law_complete_utterance_is_transcribed<S>(
    v: SessionView<S>,
    frames: Seq<Seq<S>>,
    settings: SettingsView,
)
    requires
        v.wf(),
        !v.in_speech,
        v.machine matches Some(m) && (m.state is Armed || m.state is Activated),
        frames.len() > 0,
        MIN_UTTERANCE_SAMPLES <= frames.flatten().len() < v.max_utterance_samples,
    ensures
        ({
            let paused = v.run(
                speech(frames, settings) + silence((HANGOVER_FRAMES - 1) as nat, settings),
            );
            paused.step(MsgView::Silence, settings).1 == seq![
                ActionView::<S>::ShowOverlay("transcribing"@),
                ActionView::Transcribe {
                    generation: paused.generation,
                    samples: frames.flatten(),
                },
            ]
        }),
{
    let pause = silence::<S>((HANGOVER_FRAMES - 1) as nat, settings);
    let spoken = v.run(speech(frames, settings));
    law_run_keeps_wf(v, speech(frames, settings));
    law_utterance_is_complete(v, frames, settings);
    lemma_run_add(v, speech(frames, settings), pause);
    law_pause_keeps_utterance(spoken, (HANGOVER_FRAMES - 1) as nat, settings);
    let paused = spoken.run(pause);
    let event = EventView::UtteranceCaptured(frames.flatten());
    lemma_feed_generation(paused.quiet(), event, settings);
    let m = paused.machine->0;
    assert(m.state is Capturing);
    let effects = machine::transition(m, event).1;
    reveal_with_fuel(actions_of, 3);
    assert(effects.drop_last() =~= seq![EffectView::<S>::SetOverlay(WakeOverlay::Processing)]);
    assert(effects.drop_last().drop_last() =~= Seq::empty());
    assert(paused.step(MsgView::Silence, settings).1 =~= seq![
        ActionView::<S>::ShowOverlay("transcribing"@),
        ActionView::Transcribe { generation: paused.generation, samples: frames.flatten() },
    ]);
}

/// A timer that speech canceled is stale: whatever happens after the onset, its
/// report is ignored.
pub proof fn law_canceled_timer_is_stale<S>(
    v: SessionView<S>,
    samples: Seq<S>,
    settings: SettingsView,
    later: Seq<(MsgView<S>, SettingsView)>,
    generation: nat,
    then: SettingsView,
)
    requires
        v.wf(),
        !v.in_speech,
        v.machine matches Some(m) && m.state is Activated,
        generation <= v.generation,
    ensures
        ({
            let now = v.step(MsgView::Speech(samples), settings).0.run(later);
            now.step(MsgView::ActivationTimeoutFired { generation }, then) == (
                now,
                Seq::<ActionView<S>>::empty(),
            )
        }),
{
    let msg = MsgView::Speech(samples);
    law_step_keeps_wf(v, msg, settings);
    law_generation_counts_cancellations(v, msg, settings);
    law_run_keeps_wf(v.step(msg, settings).0, later);
}

/// Noise in the `Activated` window reopens it in full: after a burst that is too
/// short, of however many frames, the window is open again with a new timer,
/// which closes it, and the first timer does not.
pub proof fn law_noise_reopens_full_window<S>(
    v: SessionView<S>,
    frames: Seq<Seq<S>>,
    settings: SettingsView,
)
    requires
        v.wf(),
        !v.in_speech,
        v.machine matches Some(m) && m.state is Activated,
        frames.len() > 0,
        frames.flatten().len() < MIN_UTTERANCE_SAMPLES,
    ensures
        ({
            let paused = v.run(
                speech(frames, settings) + silence((HANGOVER_FRAMES - 1) as nat, settings),
            );
            let (reopened, actions) = paused.step(MsgView::Silence, settings);
            let first = MsgView::<S>::ActivationTimeoutFired { generation: v.generation };
            let second = MsgView::<S>::ActivationTimeoutFired { generation: v.generation + 1 };
            &&& reopened == (SessionView { generation: v.generation + 1, ..v })
            &&& actions == seq![
                ActionView::<S>::StartTimer {
                    generation: v.generation + 1,
                    secs: at_least_one(settings.window_secs),
                },
                ActionView::ShowOverlay("wake-activated"@),
            ]
            &&& reopened.step(first, settings) == (reopened, Seq::<ActionView<S>>::empty())
            &&& reopened.step(second, settings).0.machine->0.state is Armed
        }),
{
    let pause = silence::<S>((HANGOVER_FRAMES - 1) as nat, settings);
    let spoken = v.run(speech(frames, settings));
    let m = v.machine->0;
    law_run_keeps_wf(v, speech(frames, settings));
    law_utterance_is_complete(v, frames, settings);
    lemma_feed_generation(
        SessionView { in_speech: true, ..v },
        EventView::SpeechStarted,
        settings,
    );
    assert(v.utterance =~= Seq::empty());
    lemma_run_add(v, speech(frames, settings), pause);
    law_pause_keeps_utterance(spoken, (HANGOVER_FRAMES - 1) as nat, settings);
    let paused = spoken.run(pause);
    let event = EventView::<S>::UtteranceDropped;
    lemma_feed_generation(paused.quiet(), event, settings);
    let effects = machine::transition(paused.machine->0, event).1;
    reveal_with_fuel(actions_of, 3);
    assert(effects.drop_last() =~= seq![EffectView::<S>::ScheduleActivationTimeout]);
    assert(effects.drop_last().drop_last() =~= Seq::empty());
    let (reopened, actions) = paused.step(MsgView::Silence, settings);
    assert(paused.machine->0 == m.at(WakeState::Capturing, true));
    assert(reopened.machine->0 == m);
    assert(actions =~= seq![
        ActionView::<S>::StartTimer {
            generation: v.generation + 1,
            secs: at_least_one(settings.window_secs),
        },
        ActionView::ShowOverlay("wake-activated"@),
    ]);
}

impl<S> SessionView<S> {
    /// The session with one more message in its queue.
    pub open spec fn posted(self, msg: MsgView<S>) -> SessionView<S> {
        SessionView { inbox: self.inbox.push(msg), ..self }
    }

    /// The session once the oldest message is handled, and what the host has to
    /// do for it.
    pub open spec fn handled(self, settings: SettingsView) -> (SessionView<S>, Seq<ActionView<S>>) {
        SessionView { inbox: self.inbox.drop_first(), ..self }.step(self.inbox[0], settings)
    }
}

/// A message that is posted to an empty queue is the next to be handled.
proof fn lemma_posted_is_next<S>(v: SessionView<S>, msg: MsgView<S>, settings: SettingsView)
    requires
        v.inbox.len() == 0,
    ensures
        v.posted(msg).handled(settings) == v.step(msg, settings),
        v.step(msg, settings).0.inbox == v.inbox,
{
    assert(v.posted(msg).inbox.drop_first() =~= v.inbox);
}

/// A toggle, once it is handled, switches listening to the other of on and off,
/// from any wake state: to a machine that is `Armed`, or one that is `Off`. A
/// second toggle brings it back.
pub proof fn law_toggle_switches<S>(v: SessionView<S>, settings: SettingsView, then: SettingsView)
    requires
        v.wf(),
        v.inbox.len() == 0,
    ensures
        ({
            let toggle = MsgView::<S>::Command(WakeCommand::Toggle);
            let once = v.posted(toggle).handled(settings).0;
            let twice = once.posted(toggle).handled(then).0;
            &&& once.listening == !v.listening
            &&& once.machine matches Some(m) && m.state == if v.listening {
                WakeState::Off
            } else {
                WakeState::Armed
            }
            &&& twice.listening == v.listening
            &&& twice.machine matches Some(m) && m.state == if v.listening {
                WakeState::Armed
            } else {
                WakeState::Off
            }
            &&& once.inbox.len() == 0 && twice.inbox.len() == 0
        }),
{
    let toggle = MsgView::<S>::Command(WakeCommand::Toggle);
    lemma_posted_is_next(v, toggle, settings);
    let once = v.step(toggle, settings).0;
    law_step_keeps_wf(v, toggle, settings);
    lemma_posted_is_next(once, toggle, then);
}

/// Asking for on or off, once it is handled, gives on or off. Asking for what
/// holds already does nothing: the state and any capture under way stay as they
/// were, and asking twice is asking once.
pub proof fn law_set_on_gives_what_is_asked<S>(
    v: SessionView<S>,
    on: bool,
    settings: SettingsView,
    then: SettingsView,
)
    requires
        v.wf(),
        v.inbox.len() == 0,
    ensures
        ({
            let ask = MsgView::<S>::Command(WakeCommand::SetOn(on));
            let once = v.posted(ask).handled(settings).0;
            &&& once.listening == on
            &&& v.listening == on ==> v.posted(ask).handled(settings) == (
                v,
                Seq::<ActionView<S>>::empty(),
            )
            &&& once.posted(ask).handled(then) == (once, Seq::<ActionView<S>>::empty())
        }),
{
    let ask = MsgView::<S>::Command(WakeCommand::SetOn(on));
    lemma_posted_is_next(v, ask, settings);
    law_step_keeps_wf(v, ask, settings);
    lemma_posted_is_next(v.step(ask, settings).0, ask, then);
}

/// The phrases of these settings: the wake phrase, and behind it the alternative
/// spellings.
pub open spec fn spellings(settings: AppSettings) -> Seq<Seq<char>> {
    Seq::new(
        1 + settings.wake_alternative_phrases@.len(),
        |i: int|
            if i == 0 {
                settings.wake_phrase@
            } else {
                settings.wake_alternative_phrases@[i - 1]@
            },
    )
}

/// Switching on goes by the settings as they are: the session wakes for exactly
/// the utterances that begin with the wake phrase or an alternative spelling of
/// them, cuts an utterance off at as many seconds of 16000 samples as they say,
/// one at least, and opens windows of as many seconds as they say, one at least.
pub proof fn law_switching_on_goes_by_the_settings<S>(
    v: SessionView<S>,
    command: WakeCommand,
    settings: AppSettings,
    utterance: Seq<char>,
)
    requires
        v.wf(),
        !v.listening,
        v.switches(command),
    ensures
        ({
            let on = v.step(MsgView::Command(command), settings_view(settings)).0;
            let secs = settings.wake_max_utterance_secs as int;
            let window = settings.wake_activation_timeout_secs as int;
            let all = spellings(settings);
            let phrases = on.machine->0.phrases;
            &&& on.listening
            &&& on.machine is Some
            &&& !(detector::utterance_verdict(phrases, utterance) is NoMatch) <==> exists|k: int|
                0 <= k < all.len() && detector::begins_with(
                    utterance,
                    detector::normal_phrase(#[trigger] all[k]),
                )
            &&& phrases.no_duplicates()
            &&& forall|p: Seq<char>| #[trigger]
                phrases.contains(p) <==> p.len() > 0 && exists|k: int|
                    0 <= k < all.len() && p == detector::normal_phrase(#[trigger] all[k])
            &&& on.max_utterance_samples == 16000 * (if secs > 1 {
                secs
            } else {
                1
            })
            &&& settings_view(settings).window_secs == window
            &&& at_least_one(settings_view(settings).window_secs) == if window > 1 {
                window
            } else {
                1
            }
            &&& on.inbox == v.inbox
            &&& on.generation == v.generation + 1
            &&& !on.in_speech && on.utterance.len() == 0 && on.silence_frames == 0
        }),
{
    let all = spellings(settings);
    assert(seq![settings.wake_phrase@] + text::views(settings.wake_alternative_phrases@) =~= all);
    law_switching_on(v, command, settings_view(settings));
    law_generation_counts_cancellations(v, MsgView::Command(command), settings_view(settings));
    detector::law_wakes_exactly_for_its_phrases(all, utterance);
    detector::law_variants(all);
    let phrases = detector::phrase_variants(all);
    assert forall|p: Seq<char>| #[trigger] phrases.contains(p) implies p.len() > 0 && exists|k: int|
        0 <= k < all.len() && p == detector::normal_phrase(#[trigger] all[k]) by {
        let i = choose|i: int| 0 <= i < phrases.len() && phrases[i] == p;
        assert(phrases[i].len() > 0);
    }
    assert(SAMPLE_RATE == 16000);
    let secs = at_least_one(settings.wake_max_utterance_secs as nat);
    assert(secs * SAMPLE_RATE == 16000 * secs) by (nonlinear_arith)
        requires
            SAMPLE_RATE == 16000,
    ;
}

/// The wake phrase comes before the alternative spellings, and they in order:
/// the phrases of more spellings begin with those of fewer.
pub proof fn law_spellings_keep_order(settings: AppSettings, n: int)
    requires
        0 <= n <= spellings(settings).len(),
    ensures
        detector::phrase_variants(spellings(settings).take(n)).is_prefix_of(
            settings_view(settings).phrases,
        ),
{
    let all = spellings(settings);
    assert(seq![settings.wake_phrase@] + text::views(settings.wake_alternative_phrases@) =~= all);
    assert(all.take(n) + all.skip(n) =~= all);
    detector::law_variants_keep_order(all.take(n), all.skip(n));
}

/// The length at which an utterance is cut off, and the phrases, change only
/// when listening is switched on; and no message touches the queue.
pub proof fn law_limits_change_only_by_switching_on<S>(
    v: SessionView<S>,
    msg: MsgView<S>,
    settings: SettingsView,
)
    requires
        v.wf(),
    ensures
        ({
            let next = v.step(msg, settings).0;
            let switched_on = !v.listening && next.listening;
            &&& next.inbox == v.inbox
            &&& !switched_on ==> next.max_utterance_samples == v.max_utterance_samples
            &&& !switched_on ==> (v.machine is Some <==> next.machine is Some)
            &&& !switched_on && v.machine is Some ==> next.machine->0.phrases
                == v.machine->0.phrases
            &&& next.listening != v.listening ==> msg is Command
        }),
{
}

/// The overlay of each state has its name; when listening is off there is none.
pub proof fn law_overlay_names(overlay: WakeOverlay)
    ensures
        overlay_name(overlay) == match overlay {
            WakeOverlay::Hidden => None::<Seq<char>>,
            WakeOverlay::Armed => Some("armed"@),
            WakeOverlay::Listening => Some("wake-listening"@),
            WakeOverlay::Processing => Some("transcribing"@),
            WakeOverlay::Activated => Some("wake-activated"@),
        },
{
}

/// Speech that stays below the limit ends only by silence: as long as a capture
/// is below the length at which it is cut off, frames of speech ask nothing of
/// the host once it has begun.
pub proof fn law_speech_below_the_limit_is_silent<S>(
    v: SessionView<S>,
    samples: Seq<S>,
    settings: SettingsView,
)
    requires
        v.wf(),
        v.in_speech,
        v.utterance.len() + samples.len() < v.max_utterance_samples,
    ensures
        v.step(MsgView::Speech(samples), settings).1 == Seq::<ActionView<S>>::empty(),
        v.step(MsgView::Speech(samples), settings).0.in_speech,
        v.step(MsgView::Speech(samples), settings).0.machine == v.machine,
        v.step(MsgView::Speech(samples), settings).0.utterance == v.utterance + samples,
{
}

/// The onset of speech in `Armed` or in the window starts a capture with its
/// samples, and shows it.
pub proof fn law_onset_starts_capture<S>(
    v: SessionView<S>,
    samples: Seq<S>,
    settings: SettingsView,
)
    requires
        v.wf(),
        !v.in_speech,
        v.machine matches Some(m) && (m.state is Armed || m.state is Activated),
        samples.len() < v.max_utterance_samples,
    ensures
        ({
            let (next, actions) = v.step(MsgView::Speech(samples), settings);
            let m = v.machine->0;
            &&& next.in_speech
            &&& next.utterance == samples
            &&& next.machine == Some(m.at(WakeState::Capturing, m.state is Activated))
            &&& actions == seq![ActionView::<S>::ShowOverlay("wake-listening"@)]
        }),
{
    let m = v.machine->0;
    let event = EventView::<S>::SpeechStarted;
    let opened = SessionView { in_speech: true, ..v.quiet() };
    lemma_feed_generation(opened, event, settings);
    reveal_with_fuel(actions_of, 3);
    let effects = machine::transition(m, event).1;
    if m.state is Activated {
        assert(effects.drop_last() =~= seq![EffectView::<S>::CancelActivationTimeout]);
        assert(effects.drop_last().drop_last() =~= Seq::empty());
    } else {
        assert(effects.drop_last() =~= Seq::empty());
    }
    let started = opened.feed(event, settings).1;
    assert(started =~= seq![ActionView::<S>::ShowOverlay("wake-listening"@)]);
    assert(started + Seq::<ActionView<S>>::empty() =~= started);
}

/// What the host is asked when an utterance is captured: to show it, and to
/// transcribe exactly these samples.
proof fn lemma_captured<S>(v: SessionView<S>, samples: Seq<S>, settings: SettingsView)
    requires
        v.machine matches Some(m) && m.state is Capturing,
    ensures
        v.feed(EventView::UtteranceCaptured(samples), settings) == (
            SessionView {
                machine: Some(
                    v.machine->0.at(WakeState::Transcribing, v.machine->0.activated_capture),
                ),
                ..v
            },
            seq![
                ActionView::<S>::ShowOverlay("transcribing"@),
                ActionView::Transcribe { generation: v.generation, samples },
            ],
        ),
{
    let m = v.machine->0;
    let event = EventView::UtteranceCaptured(samples);
    lemma_feed_generation(v, event, settings);
    reveal_with_fuel(actions_of, 3);
    let effects = machine::transition(m, event).1;
    assert(effects.drop_last() =~= seq![EffectView::<S>::SetOverlay(WakeOverlay::Processing)]);
    assert(effects.drop_last().drop_last() =~= Seq::empty());
    assert(v.feed(event, settings).1 =~= seq![
        ActionView::<S>::ShowOverlay("transcribing"@),
        ActionView::Transcribe { generation: v.generation, samples },
    ]);
}

/// An utterance that reaches the limit is cut off there: it is transcribed at
/// once, whole, and nothing of it is kept.
pub proof fn law_long_utterance_is_cut_off<S>(
    v: SessionView<S>,
    samples: Seq<S>,
    settings: SettingsView,
)
    requires
        v.wf(),
        v.in_speech,
        v.machine matches Some(m) && m.state is Capturing,
        v.utterance.len() + samples.len() >= v.max_utterance_samples,
    ensures
        ({
            let (next, actions) = v.step(MsgView::Speech(samples), settings);
            &&& actions == seq![
                ActionView::<S>::ShowOverlay("transcribing"@),
                ActionView::Transcribe {
                    generation: v.generation,
                    samples: v.utterance + samples,
                },
            ]
            &&& next.machine == Some(
                v.machine->0.at(WakeState::Transcribing, v.machine->0.activated_capture),
            )
            &&& !next.in_speech && next.utterance.len() == 0 && next.silence_frames == 0
        }),
{
    lemma_captured(v.quiet(), v.utterance + samples, settings);
}

/// The last silent frame in a row ends an utterance: one of 4800 samples or more
/// is transcribed, whole; a shorter one is dropped, and the machine is back where
/// the utterance began. Nothing of it is kept.
pub proof fn law_tenth_silent_frame_ends_utterance<S>(v: SessionView<S>, settings: SettingsView)
    requires
        v.wf(),
        v.in_speech,
        v.machine matches Some(m) && m.state is Capturing,
    ensures
        ({
            let (next, actions) = v.step(MsgView::Silence, settings);
            let m = v.machine->0;
            &&& v.silence_frames < 9 ==> actions.len() == 0 && next == (SessionView {
                silence_frames: v.silence_frames + 1,
                ..v
            })
            &&& v.silence_frames == 9 ==> {
                &&& !next.in_speech && next.utterance.len() == 0 && next.silence_frames == 0
                &&& v.utterance.len() >= 4800 ==> next.machine == Some(
                    m.at(WakeState::Transcribing, m.activated_capture),
                ) && actions == seq![
                    ActionView::<S>::ShowOverlay("transcribing"@),
                    ActionView::Transcribe { generation: v.generation, samples: v.utterance },
                ]
                &&& v.utterance.len() < 4800 && !m.activated_capture ==> next.machine == Some(
                    m.at(WakeState::Armed, false),
                ) && actions == seq![ActionView::<S>::ShowOverlay("armed"@)]
                &&& v.utterance.len() < 4800 && m.activated_capture ==> next.machine == Some(
                    m.at(WakeState::Activated, false),
                ) && actions == seq![
                    ActionView::<S>::StartTimer {
                        generation: v.generation,
                        secs: at_least_one(settings.window_secs),
                    },
                    ActionView::ShowOverlay("wake-activated"@),
                ]
            }
        }),
{
    let m = v.machine->0;
    assert(HANGOVER_FRAMES == 10 && MIN_UTTERANCE_SAMPLES == 4800);
    lemma_captured(v.quiet(), v.utterance, settings);
    let event = EventView::<S>::UtteranceDropped;
    lemma_feed_generation(v.quiet(), event, settings);
    reveal_with_fuel(actions_of, 3);
    let effects = machine::transition(m, event).1;
    let dropped = v.quiet().feed(event, settings).1;
    if m.activated_capture {
        assert(effects.drop_last() =~= seq![EffectView::<S>::ScheduleActivationTimeout]);
        assert(effects.drop_last().drop_last() =~= Seq::empty());
        assert(dropped =~= seq![
            ActionView::<S>::StartTimer {
                generation: v.generation,
                secs: at_least_one(settings.window_secs),
            },
            ActionView::ShowOverlay("wake-activated"@),
        ]);
    } else {
        assert(effects.drop_last() =~= Seq::empty());
        assert(dropped =~= seq![ActionView::<S>::ShowOverlay("armed"@)]);
    }
}

/// The timer of the window closes it, in its own generation; in any other state
/// its report does nothing.
pub proof fn law_timer_closes_the_window<S>(v: SessionView<S>, settings: SettingsView)
    requires
        v.wf(),
    ensures
        ({
            let fired = MsgView::<S>::ActivationTimeoutFired { generation: v.generation };
            match v.machine {
                Some(m) if m.state is Activated => v.step(fired, settings) == (
                    SessionView { machine: Some(m.at(WakeState::Armed, false)), ..v },
                    seq![ActionView::<S>::ShowOverlay("armed"@)],
                ),
                _ => v.step(fired, settings) == (v, Seq::<ActionView<S>>::empty()),
            }
        }),
{
    let event = EventView::<S>::ActivationTimeout;
    lemma_feed_generation(v, event, settings);
    reveal_with_fuel(actions_of, 3);
    if let Some(m) = v.machine {
        let effects = machine::transition(m, event).1;
        if m.state is Activated {
            assert(effects.drop_last() =~= Seq::empty());
            assert(v.feed(event, settings).1 =~= seq![ActionView::<S>::ShowOverlay("armed"@)]);
        } else {
            assert(v.feed(event, settings).1 =~= Seq::empty());
        }
    }
}

/// While the recognizer works, what the microphone brings asks nothing of the
/// host and leaves the machine as it is.
pub proof fn law_transcribing_is_undisturbed<S>(
    v: SessionView<S>,
    msg: MsgView<S>,
    settings: SettingsView,
)
    requires
        v.wf(),
        v.machine matches Some(m) && m.state is Transcribing,
        msg is Speech || msg is Silence,
    ensures
        v.step(msg, settings).1 == Seq::<ActionView<S>>::empty(),
        v.step(msg, settings).0.machine == v.machine,
        v.step(msg, settings).0.generation == v.generation,
{
    law_generation_counts_cancellations(v, msg, settings);
    assert(actions_of(Seq::<EffectView<S>>::empty(), v.generation, settings.window_secs)
        =~= Seq::empty());
    assert(Seq::<ActionView<S>>::empty() + Seq::<ActionView<S>>::empty() =~= Seq::empty());
}

/// What a message says: its command, its samples, the text of a transcript that
/// succeeded, and the generation of a report.
pub proof fn law_messages_say_what_they_hold<S>(
    command: WakeCommand,
    samples: Vec<S>,
    generation: u64,
    heard: String,
    cause: String,
)
    ensures
        LoopMsg::<S>::Command(command)@ == MsgView::<S>::Command(command),
        LoopMsg::Audio(WakeAudioFrame::Speech(samples))@ == MsgView::Speech(samples@),
        LoopMsg::<S>::Audio(WakeAudioFrame::Silence)@ == MsgView::<S>::Silence,
        (LoopMsg::<S>::Transcript { generation, result: Ok(heard) })@ == (MsgView::<
            S,
        >::Transcript { generation: generation as nat, heard: Some(heard@) }),
        (LoopMsg::<S>::Transcript { generation, result: Err(cause) })@ == (MsgView::<
            S,
        >::Transcript { generation: generation as nat, heard: None }),
        (LoopMsg::<S>::ActivationTimeoutFired { generation })@ == (MsgView::<
            S,
        >::ActivationTimeoutFired { generation: generation as nat }),
{
}

/// What an action asks: its text, its samples, its seconds and its generation.
pub proof fn law_actions_ask_what_they_hold<S>(
    name: String,
    samples: Vec<S>,
    generation: u64,
    secs: u64,
)
    ensures
        HostAction::<S>::ShowOverlay(name)@ == ActionView::<S>::ShowOverlay(name@),
        HostAction::<S>::Paste(name)@ == ActionView::<S>::Paste(name@),
        (HostAction::Transcribe { generation, samples })@ == (ActionView::Transcribe {
            generation: generation as nat,
            samples: samples@,
        }),
        (HostAction::<S>::StartTimer { generation, secs })@ == (ActionView::<S>::StartTimer {
            generation: generation as nat,
            secs: secs as nat,
        }),
{
}

/// The stream has 16000 samples in a second; an utterance has 0.3 seconds at
/// least, ends after 10 silent frames, and is cut off at 30 seconds until the
/// settings were read.
pub proof fn law_stream_numbers()
    ensures
        SAMPLE_RATE == 16000,
        MIN_UTTERANCE_SAMPLES * 10 == 3 * SAMPLE_RATE,
        HANGOVER_FRAMES == 10,
        DEFAULT_MAX_UTTERANCE_SAMPLES == 30 * SAMPLE_RATE,
{
}

/// Messages are handled in the order in which they were posted, each once.
pub proof fn law_queue_is_in_order<S>(
    v: SessionView<S>,
    first: MsgView<S>,
    rest: Seq<MsgView<S>>,
    msg: MsgView<S>,
    settings: SettingsView,
)
    requires
        v.inbox == seq![first] + rest,
    ensures
        v.posted(msg) == (SessionView { inbox: seq![first] + rest + seq![msg], ..v }),
        v.handled(settings) == (SessionView { inbox: rest, ..v }).step(first, settings),
{
    assert(v.posted(msg).inbox =~= seq![first] + rest + seq![msg]);
    assert(v.inbox.drop_first() =~= rest);
}

/// A transcript that nobody waits for does nothing.
pub proof fn law_unexpected_transcript_does_nothing<S>(
    v: SessionView<S>,
    generation: nat,
    heard: Option<Seq<char>>,
    settings: SettingsView,
)
    requires
        v.machine matches Some(m) ==> !(m.state is Transcribing),
    ensures
        v.step(MsgView::Transcript { generation, heard }, settings) == (
            v,
            Seq::<ActionView<S>>::empty(),
        ),
{
    let said = match heard {
        Some(utterance) => utterance,
        None => Seq::empty(),
    };
    lemma_feed_generation(v, EventView::Transcribed(said), settings);
    assert(actions_of(Seq::<EffectView<S>>::empty(), v.generation, settings.window_secs)
        =~= Seq::empty());
}

/// Speech that began while the machine was not waiting for it is not captured:
/// what the microphone brings of it asks nothing of the host, and leaves the
/// machine as it is.
pub proof fn law_late_speech_is_not_captured<S>(
    v: SessionView<S>,
    msg: MsgView<S>,
    settings: SettingsView,
)
    requires
        v.wf(),
        v.in_speech,
        v.machine matches Some(m) && !(m.state is Capturing),
        msg is Speech || msg is Silence,
    ensures
        v.step(msg, settings).1 == Seq::<ActionView<S>>::empty(),
        v.step(msg, settings).0.machine == v.machine,
        v.step(msg, settings).0.generation == v.generation,
{
    law_generation_counts_cancellations(v, msg, settings);
    assert(actions_of(Seq::<EffectView<S>>::empty(), v.generation, settings.window_secs)
        =~= Seq::empty());
}

/// An onset that alone reaches the limit is shown, and transcribed at once,
/// whole; nothing of it is kept.
pub proof fn law_long_onset_is_cut_off<S>(
    v: SessionView<S>,
    samples: Seq<S>,
    settings: SettingsView,
)
    requires
        v.wf(),
        !v.in_speech,
        v.machine matches Some(m) && (m.state is Armed || m.state is Activated),
        samples.len() >= v.max_utterance_samples,
    ensures
        ({
            let (next, actions) = v.step(MsgView::Speech(samples), settings);
            let m = v.machine->0;
            let generation = if m.state is Activated {
                v.generation + 1
            } else {
                v.generation
            };
            &&& actions == seq![
                ActionView::<S>::ShowOverlay("wake-listening"@),
                ActionView::ShowOverlay("transcribing"@),
                ActionView::Transcribe { generation, samples },
            ]
            &&& next.machine == Some(m.at(WakeState::Transcribing, m.state is Activated))
            &&& next.generation == generation
            &&& !next.in_speech && next.utterance.len() == 0 && next.silence_frames == 0
        }),
{
    let m = v.machine->0;
    let event = EventView::<S>::SpeechStarted;
    let opened = SessionView { in_speech: true, ..v.quiet() };
    lemma_feed_generation(opened, event, settings);
    reveal_with_fuel(actions_of, 3);
    let effects = machine::transition(m, event).1;
    if m.state is Activated {
        assert(effects.drop_last() =~= seq![EffectView::<S>::CancelActivationTimeout]);
        assert(effects.drop_last().drop_last() =~= Seq::empty());
    } else {
        assert(effects.drop_last() =~= Seq::empty());
    }
    let (begun, started) = opened.feed(event, settings);
    assert(started =~= seq![ActionView::<S>::ShowOverlay("wake-listening"@)]);
    lemma_captured(begun.quiet(), samples, settings);
    assert(v.step(MsgView::Speech(samples), settings).1 =~= seq![
        ActionView::<S>::ShowOverlay("wake-listening"@),
        ActionView::ShowOverlay("transcribing"@),
        ActionView::Transcribe { generation: begun.generation, samples },
    ]);
}

/// Silence counts for nothing where no utterance is under way.
pub proof fn law_silence_alone_is_nothing<S>(v: SessionView<S>, settings: SettingsView)
    requires
        !v.in_speech,
    ensures
        v.step(MsgView::Silence, settings) == (v, Seq::<ActionView<S>>::empty()),
{
}

} // verus!
