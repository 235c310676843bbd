//! The worker process beside the app: one JSON object per line, `load`,
//! `transcribe` and `shutdown` requests, responses matched by increasing ids,
//! stale ids tolerated.
//!
//! The host owns the process and its pipes. It writes the lines that it gets
//! from here, hands in the lines that it reads, and waits as it is told.

use crate::json;
use crate::json::{
    as_str, as_u64, copy, get, natural_value, new_object, parse, put, text_value, write_object, Json,
    JsonNumber,
};
use crate::language;
use crate::language::map_language;
use crate::text;
use crate::text::{chars_of, decimal, join_from, text_between};
use std::collections::HashMap;
use vstd::prelude::*;

verus! {

/// A request that is not answered after this many seconds has failed.
pub const REQUEST_TIMEOUT_SECS: u64 = 300;

/// Whoever waits looks after the worker once in this many milliseconds.
pub const WORKER_DEAD_POLL_MILLIS: u64 = 200;

/// So many of the worker's last error lines are kept.
pub const STDERR_TAIL_LINES: usize = 25;

/// So many characters of the error lines are shown.
pub const STDERR_SUMMARY_CHARS: usize = 1600;

/// A worker that was asked to stop is killed after this many milliseconds.
pub const SHUTDOWN_GRACE_MILLIS: u64 = 2000;

/// Whoever waits for a worker to stop looks after it once in this many
/// milliseconds.
pub const SHUTDOWN_POLL_MILLIS: u64 = 25;

/// The line that asks the worker to stop.
pub const SHUTDOWN_LINE: &'static str = "{\"id\":0,\"op\":\"shutdown\"}";

/// What can go wrong with the worker.
#[derive(Debug)]
pub enum SidecarError {
    /// The worker answered with an error.
    Worker(String),
    NoResult,
    NoText,
    /// The worker is gone; its last error lines.
    Stopped(String),
    /// The worker did not answer within so many seconds.
    TimedOut(u64),
    StdinClosed,
    WriteFailed(String),
    NeverLoaded,
    /// A failure of the host, in its own words.
    Host(String),
}

/// What went wrong, over characters.
pub enum SidecarFault {
    Worker(Seq<char>),
    NoResult,
    NoText,
    Stopped(Seq<char>),
    TimedOut(nat),
    StdinClosed,
    WriteFailed(Seq<char>),
    NeverLoaded,
    Host(Seq<char>),
}

impl View for SidecarError {
    type V = SidecarFault;

    open spec fn view(&self) -> SidecarFault {
        match *self {
            SidecarError::Worker(message) => SidecarFault::Worker(message@),
            SidecarError::NoResult => SidecarFault::NoResult,
            SidecarError::NoText => SidecarFault::NoText,
            SidecarError::Stopped(summary) => SidecarFault::Stopped(summary@),
            SidecarError::TimedOut(secs) => SidecarFault::TimedOut(secs as nat),
            SidecarError::StdinClosed => SidecarFault::StdinClosed,
            SidecarError::WriteFailed(cause) => SidecarFault::WriteFailed(cause@),
            SidecarError::NeverLoaded => SidecarFault::NeverLoaded,
            SidecarError::Host(cause) => SidecarFault::Host(cause@),
        }
    }
}

impl SidecarFault {
    /// The message that the user reads.
    pub open spec fn message(self) -> Seq<char> {
        match self {
            SidecarFault::Worker(message) => message,
            SidecarFault::NoResult => "Qwen worker returned no result"@,
            SidecarFault::NoText => "Qwen worker returned no text field"@,
            SidecarFault::Stopped(summary) => "Qwen worker stopped: "@ + summary,
            SidecarFault::TimedOut(secs) => "Qwen worker timed out after "@ + text::digits(secs)
                + "s and was stopped. Reload the engine."@,
            SidecarFault::StdinClosed => "Qwen worker stdin is closed"@,
            SidecarFault::WriteFailed(cause) => "Failed to write to Qwen worker: "@ + cause,
            SidecarFault::NeverLoaded => "Qwen worker died before any model was loaded"@,
            SidecarFault::Host(cause) => cause,
        }
    }
}

impl SidecarError {
    /// The message that the user reads.
    pub fn message(&self) -> (r: String)
        ensures
            r@ == self@.message(),
    {
        match self {
            SidecarError::Worker(message) => message.clone(),
            SidecarError::NoResult => "Qwen worker returned no result".to_string(),
            SidecarError::NoText => "Qwen worker returned no text field".to_string(),
            SidecarError::Stopped(summary) => {
                "Qwen worker stopped: ".to_string().concat(summary.as_str())
            },
            SidecarError::TimedOut(secs) => {
                "Qwen worker timed out after ".to_string().concat(decimal(*secs).as_str()).concat(
                    "s and was stopped. Reload the engine.",
                )
            },
            SidecarError::StdinClosed => "Qwen worker stdin is closed".to_string(),
            SidecarError::WriteFailed(cause) => {
                "Failed to write to Qwen worker: ".to_string().concat(cause.as_str())
            },
            SidecarError::NeverLoaded => {
                "Qwen worker died before any model was loaded".to_string()
            },
            SidecarError::Host(cause) => cause.clone(),
        }
    }
}

/// What a result says, with the fault of a failure.
pub open spec fn outcome(result: Result<serde_json::Value, SidecarError>) -> Result<
    Json,
    SidecarFault,
> {
    match result {
        Ok(value) => Ok(json::json_of(value)),
        Err(error) => Err(error@),
    }
}

/// The fields of a `load` request.
pub open spec fn load_fields(model_path: Seq<char>, device: Seq<char>) -> Map<Seq<char>, Json> {
    json::no_fields().insert("model_path"@, Json::Text(model_path)).insert(
        "device"@,
        Json::Text(device),
    )
}

/// The fields of a `transcribe` request.
pub open spec fn transcribe_fields(
    audio_path: Seq<char>,
    language: Seq<char>,
    context: Seq<char>,
) -> Map<Seq<char>, Json> {
    json::no_fields().insert("audio_path"@, Json::Text(audio_path)).insert(
        "language"@,
        Json::Text(language::worker_language(language)),
    ).insert("context"@, Json::Text(context))
}

/// The fields of a request: its own, its id and its operation.
pub open spec fn request_fields(payload: Map<Seq<char>, Json>, id: u64, op: Seq<char>) -> Map<
    Seq<char>,
    Json,
> {
    payload.insert("id"@, Json::Number(JsonNumber::Natural(id))).insert("op"@, Json::Text(op))
}

/// The id that a response carries.
pub open spec fn reply_id(reply: Json) -> Option<u64> {
    match reply.field("id"@) {
        Some(id) => id.natural(),
        None => None,
    }
}

/// What a response answers: its error where it has one in words, else its
/// result.
pub open spec fn answer(reply: Json) -> Result<Json, SidecarFault> {
    match reply.field("error"@) {
        Some(Json::Text(message)) => Err(SidecarFault::Worker(message)),
        _ => match reply.field("result"@) {
            Some(result) => Ok(result),
            None => Err(SidecarFault::NoResult),
        },
    }
}

/// The text that a `transcribe` result holds.
pub open spec fn recognized(result: Json) -> Result<Seq<char>, SidecarFault> {
    match result.field("text"@) {
        Some(Json::Text(s)) => Ok(s),
        _ => Err(SidecarFault::NoText),
    }
}

/// Reads a response.
pub fn read_response(reply: &serde_json::Value) -> (r: Result<serde_json::Value, SidecarError>)
    ensures
        outcome(r) == answer(json::json_of(*reply)),
{
    if let Some(error) = get(reply, "error") {
        if let Some(message) = as_str(error) {
            return Err(SidecarError::Worker(message.to_string()));
        }
    }
    match get(reply, "result") {
        Some(result) => Ok(copy(result)),
        None => Err(SidecarError::NoResult),
    }
}

/// Reads the result of a `transcribe` request.
pub fn read_text(result: &serde_json::Value) -> (r: Result<String, SidecarError>)
    ensures
        match r {
            Ok(s) => recognized(json::json_of(*result)) == Ok::<Seq<char>, SidecarFault>(s@),
            Err(e) => recognized(json::json_of(*result)) == Err::<Seq<char>, SidecarFault>(e@),
        },
{
    if let Some(field) = get(result, "text") {
        if let Some(s) = as_str(field) {
            return Ok(s.to_string());
        }
    }
    Err(SidecarError::NoText)
}

/// A state of the worker's front, with `W` for whoever waits for a response.
#[verifier::ext_equal]
pub struct SidecarView<W> {
    /// The id of the next request.
    pub serial: u64,
    /// Who waits, by the id of the request.
    pub pending: Map<u64, W>,
    /// The last error lines of the worker.
    pub stderr_tail: Seq<Seq<char>>,
    /// The model and the device of the last `load` request.
    pub model_path: Option<Seq<char>>,
    pub device: Option<Seq<char>>,
    /// Whether lines can be written to the worker.
    pub stdin_open: bool,
}

/// The last lines after one more: the oldest leaves where there are too many.
pub open spec fn tail_with(tail: Seq<Seq<char>>, line: Seq<char>) -> Seq<Seq<char>> {
    if tail.len() >= STDERR_TAIL_LINES {
        tail.skip(1).push(line)
    } else {
        tail.push(line)
    }
}

/// The lines in one text, cut to what is shown.
pub open spec fn summary(tail: Seq<Seq<char>>) -> Seq<char> {
    let all = text::joined(tail);
    if all.len() <= STDERR_SUMMARY_CHARS {
        all
    } else {
        all.take(STDERR_SUMMARY_CHARS as int)
    }
}

impl<W> SidecarView<W> {
    /// A worker that was just spawned.
    pub open spec fn fresh() -> SidecarView<W> {
        SidecarView {
            serial: 1,
            pending: Map::empty(),
            stderr_tail: Seq::empty(),
            model_path: None,
            device: None,
            stdin_open: true,
        }
    }

    /// No more error lines than are kept, and finitely many waiters.
    pub open spec fn wf(self) -> bool {
        &&& self.stderr_tail.len() <= STDERR_TAIL_LINES
        &&& self.pending.dom().finite()
    }

    /// Everybody waits under an id that was used before the next one. It holds
    /// until the ids start over.
    pub open spec fn in_order(self) -> bool {
        forall|id: u64| #[trigger] self.pending.contains_key(id) ==> id < self.serial
    }

    /// After a request: the id is used up, and the waiter is registered under
    /// it.
    pub open spec fn requested(self, waiter: W) -> SidecarView<W> {
        SidecarView {
            serial: if self.serial == u64::MAX {
                0
            } else {
                (self.serial + 1) as u64
            },
            pending: self.pending.insert(self.serial, waiter),
            ..self
        }
    }

    /// With the model and the device of a `load` request.
    pub open spec fn remembering(self, model_path: Seq<char>, device: Seq<char>) -> SidecarView<W> {
        SidecarView { model_path: Some(model_path), device: Some(device), ..self }
    }

    /// The line to write for a request, with its id, or why there is none.
    pub open spec fn request_line(self, op: Seq<char>, payload: Map<Seq<char>, Json>) -> Result<
        (u64, Seq<char>),
        SidecarFault,
    > {
        if !self.stdin_open {
            Err(SidecarFault::StdinClosed)
        } else {
            match json::written(request_fields(payload, self.serial, op)) {
                Ok(line) => Ok((self.serial, line)),
                Err(cause) => Err(SidecarFault::Host(cause)),
            }
        }
    }

    /// Who gets a response: whoever waits under its id.
    pub open spec fn addressee(self, reply: Json) -> Option<W> {
        match reply_id(reply) {
            Some(id) => if self.pending.contains_key(id) {
                Some(self.pending[id])
            } else {
                None
            },
            None => None,
        }
    }

    /// After a response: nobody waits under its id.
    pub open spec fn replied(self, reply: Json) -> SidecarView<W> {
        match reply_id(reply) {
            Some(id) => SidecarView { pending: self.pending.remove(id), ..self },
            None => self,
        }
    }

    /// Nobody waits any more.
    pub open spec fn abandoned(self) -> SidecarView<W> {
        SidecarView { pending: Map::empty(), ..self }
    }

    /// After the worker was stopped.
    pub open spec fn stopped(self) -> SidecarView<W> {
        SidecarView { stdin_open: false, ..self.abandoned() }
    }

    /// What a respawned worker is to load.
    pub open spec fn reload(self) -> Result<(Seq<char>, Seq<char>), SidecarFault> {
        match self.model_path {
            None => Err(SidecarFault::NeverLoaded),
            Some(model_path) => Ok(
                (
                    model_path,
                    match self.device {
                        Some(device) => device,
                        None => "cpu"@,
                    },
                ),
            ),
        }
    }

    /// What whoever waits does next.
    pub open spec fn wait_step(self, event: WaitEventView, timeout_secs: nat) -> WaitStepView {
        match event {
            WaitEventView::Reply(reply) => WaitStepView::Finish(answer(reply)),
            WaitEventView::Disconnected => WaitStepView::Finish(
                Err(SidecarFault::Stopped(summary(self.stderr_tail))),
            ),
            WaitEventView::Quiet { alive, elapsed_nanos } => if !alive {
                WaitStepView::Finish(Err(SidecarFault::Stopped(summary(self.stderr_tail))))
            } else if elapsed_nanos > timeout_secs * 1_000_000_000 {
                WaitStepView::KillAndFinish(SidecarFault::TimedOut(timeout_secs))
            } else {
                WaitStepView::Wait
            },
        }
    }

    /// After such a step: a worker that is killed has nobody waiting for it.
    pub open spec fn after_wait(self, event: WaitEventView, timeout_secs: nat) -> SidecarView<W> {
        if self.wait_step(event, timeout_secs) is KillAndFinish {
            self.stopped()
        } else {
            self
        }
    }
}

/// What whoever waits for a response sees.
pub enum WaitEvent {
    /// The response.
    Reply(serde_json::Value),
    /// There will be no response.
    Disconnected,
    /// Nothing yet: whether the worker runs, and how long it has been.
    Quiet { alive: bool, elapsed_nanos: u128 },
}

/// What whoever waits sees, over plain values.
pub enum WaitEventView {
    Reply(Json),
    Disconnected,
    Quiet { alive: bool, elapsed_nanos: nat },
}

impl View for WaitEvent {
    type V = WaitEventView;

    open spec fn view(&self) -> WaitEventView {
        match *self {
            WaitEvent::Reply(value) => WaitEventView::Reply(json::json_of(value)),
            WaitEvent::Disconnected => WaitEventView::Disconnected,
            WaitEvent::Quiet { alive, elapsed_nanos } => WaitEventView::Quiet {
                alive,
                elapsed_nanos: elapsed_nanos as nat,
            },
        }
    }
}

/// What whoever waits does next.
pub enum WaitStep {
    /// Wait on.
    Wait,
    /// The request is over.
    Finish(Result<serde_json::Value, SidecarError>),
    /// Kill the worker; the request has failed.
    KillAndFinish(SidecarError),
}

/// What whoever waits does next, over plain values.
pub enum WaitStepView {
    Wait,
    Finish(Result<Json, SidecarFault>),
    KillAndFinish(SidecarFault),
}

impl View for WaitStep {
    type V = WaitStepView;

    open spec fn view(&self) -> WaitStepView {
        match *self {
            WaitStep::Wait => WaitStepView::Wait,
            WaitStep::Finish(result) => WaitStepView::Finish(outcome(result)),
            WaitStep::KillAndFinish(error) => WaitStepView::KillAndFinish(error@),
        }
    }
}

/// The app's front of the worker process.
pub struct QwenSidecar<W> {
    serial: u64,
    pending: HashMap<u64, W>,
    stderr_tail: Vec<String>,
    model_path: Option<String>,
    device: Option<String>,
    stdin_open: bool,
}

/// The characters of a text that may be missing.
pub open spec fn optional_text(s: Option<String>) -> Option<Seq<char>> {
    match s {
        Some(s) => Some(s@),
        None => None,
    }
}

impl<W> View for QwenSidecar<W> {
    type V = SidecarView<W>;

    closed spec fn view(&self) -> SidecarView<W> {
        SidecarView {
            serial: self.serial,
            pending: self.pending@,
            stderr_tail: text::views(self.stderr_tail@),
            model_path: optional_text(self.model_path),
            device: optional_text(self.device),
            stdin_open: self.stdin_open,
        }
    }
}

/// What a request gives back, over plain values.
pub open spec fn line_view(r: Result<(u64, String), SidecarError>) -> Result<
    (u64, Seq<char>),
    SidecarFault,
> {
    match r {
        Ok(sent) => Ok((sent.0, sent.1@)),
        Err(error) => Err(error@),
    }
}

impl<W> QwenSidecar<W> {
    /// The front of a worker that was just spawned.
    pub fn spawn() -> (r: Self)
        ensures
            r@ == SidecarView::<W>::fresh(),
            r@.wf(),
    {
        broadcast use vstd::std_specs::hash::group_hash_axioms;

        let r = QwenSidecar {
            serial: 1,
            pending: HashMap::new(),
            stderr_tail: Vec::new(),
            model_path: None,
            device: None,
            stdin_open: true,
        };
        proof {
            assert(r@.stderr_tail =~= Seq::<Seq<char>>::empty());
        }
        r
    }

    /// Registers a request, and gives its id and the line to write.
    fn request(
        &mut self,
        op: &str,
        payload: serde_json::Map<String, serde_json::Value>,
        waiter: W,
    ) -> (r: Result<(u64, String), SidecarError>)
        ensures
            final(self)@ == old(self)@.requested(waiter),
            line_view(r) == old(self)@.request_line(op@, json::fields_of(payload)),
    {
        broadcast use vstd::std_specs::hash::group_hash_axioms;

        let id: u64 = self.serial;
        self.serial = id.wrapping_add(1);
        self.pending.insert(id, waiter);
        if !self.stdin_open {
            return Err(SidecarError::StdinClosed);
        }
        let mut object = payload;
        put(&mut object, "id", natural_value(id));
        put(&mut object, "op", text_value(op));
        match write_object(&object) {
            Ok(line) => Ok((id, line)),
            Err(cause) => Err(SidecarError::Host(cause)),
        }
    }

    /// Asks the worker to load a model, and remembers it for a respawn.
    pub fn load(&mut self, model_path: &str, device: &str, waiter: W) -> (r: Result<
        (u64, String),
        SidecarError,
    >)
        ensures
            final(self)@ == old(self)@.remembering(model_path@, device@).requested(waiter),
            line_view(r) == old(self)@.request_line("load"@, load_fields(model_path@, device@)),
    {
        self.model_path = Some(model_path.to_string());
        self.device = Some(device.to_string());
        let mut payload = new_object();
        put(&mut payload, "model_path", text_value(model_path));
        put(&mut payload, "device", text_value(device));
        self.request("load", payload, waiter)
    }

    /// Asks the worker to transcribe the samples in a file.
    pub fn transcribe(
        &mut self,
        audio_path: &str,
        language: &str,
        context: Option<&str>,
        waiter: W,
    ) -> (r: Result<(u64, String), SidecarError>)
        ensures
            final(self)@ == old(self)@.requested(waiter),
            line_view(r) == old(self)@.request_line(
                "transcribe"@,
                transcribe_fields(
                    audio_path@,
                    language@,
                    match context {
                        Some(c) => c@,
                        None => ""@,
                    },
                ),
            ),
    {
        let mut payload = new_object();
        put(&mut payload, "audio_path", text_value(audio_path));
        put(&mut payload, "language", text_value(map_language(language).as_str()));
        put(
            &mut payload,
            "context",
            text_value(
                match context {
                    Some(c) => c,
                    None => "",
                },
            ),
        );
        self.request("transcribe", payload, waiter)
    }

    /// Handles a line that the worker wrote. A line that is no JSON, carries no
    /// id, or one that nobody waits for is dropped.
    pub fn receive_line(&mut self, line: &str) -> (r: Option<(W, serde_json::Value)>)
        ensures
            match json::parsed(line@) {
                None => r is None && final(self)@ == old(self)@,
                Some(reply) => final(self)@ == old(self)@.replied(reply) && delivers(
                    r,
                    old(self)@.addressee(reply),
                    reply,
                ),
            },
    {
        match parse(line) {
            Some(value) => self.receive(value),
            None => None,
        }
    }

    /// Handles a response: whoever waits for it gets it, once.
    pub fn receive(&mut self, reply: serde_json::Value) -> (r: Option<(W, serde_json::Value)>)
        ensures
            final(self)@ == old(self)@.replied(json::json_of(reply)),
            delivers(r, old(self)@.addressee(json::json_of(reply)), json::json_of(reply)),
    {
        broadcast use vstd::std_specs::hash::group_hash_axioms;

        let id: Option<u64> = match get(&reply, "id") {
            Some(field) => as_u64(field),
            None => None,
        };
        match id {
            None => None,
            Some(n) => match self.pending.remove(&n) {
                Some(waiter) => Some((waiter, reply)),
                None => {
                    proof {
                        assert(self@.pending =~= old(self)@.pending.remove(n));
                    }
                    None
                },
            },
        }
    }

    /// The worker closed its output: nobody waits any more.
    pub fn reader_ended(&mut self)
        ensures
            final(self)@ == old(self)@.abandoned(),
    {
        broadcast use vstd::std_specs::hash::group_hash_axioms;

        self.pending.clear();
    }

    /// The worker is killed, or was stopped.
    pub fn kill(&mut self)
        ensures
            final(self)@ == old(self)@.stopped(),
    {
        self.stdin_open = false;
        self.reader_ended();
    }

    /// Stops the worker: the line to write to it first, where it still listens.
    pub fn shutdown_and_kill(&mut self) -> (r: Option<&'static str>)
        ensures
            final(self)@ == old(self)@.stopped(),
            match r {
                Some(line) => old(self)@.stdin_open && line@ == SHUTDOWN_LINE@,
                None => !old(self)@.stdin_open,
            },
    {
        let listens = self.stdin_open;
        self.kill();
        if listens {
            Some(SHUTDOWN_LINE)
        } else {
            None
        }
    }

    /// A line could not be written: the worker is killed.
    pub fn write_failed(&mut self, cause: String) -> (r: SidecarError)
        ensures
            final(self)@ == old(self)@.stopped(),
            r@ == SidecarFault::WriteFailed(cause@),
    {
        self.kill();
        SidecarError::WriteFailed(cause)
    }

    /// Handles what whoever waits for a response sees, and says what to do. A
    /// request that takes longer than 300 seconds has failed.
    pub fn wait(&mut self, event: WaitEvent) -> (r: WaitStep)
        ensures
            final(self)@ == old(self)@.after_wait(event@, 300),
            r@ == old(self)@.wait_step(event@, 300),
    {
        let timeout_secs: u64 = REQUEST_TIMEOUT_SECS;
        match event {
            WaitEvent::Reply(reply) => WaitStep::Finish(read_response(&reply)),
            WaitEvent::Disconnected => WaitStep::Finish(
                Err(SidecarError::Stopped(self.stderr_summary())),
            ),
            WaitEvent::Quiet { alive, elapsed_nanos } => {
                if !alive {
                    return WaitStep::Finish(Err(SidecarError::Stopped(self.stderr_summary())));
                }
                if elapsed_nanos > timeout_secs as u128 * 1_000_000_000u128 {
                    self.kill();
                    return WaitStep::KillAndFinish(SidecarError::TimedOut(timeout_secs));
                }
                WaitStep::Wait
            },
        }
    }

    /// Keeps an error line of the worker.
    pub fn note_stderr(&mut self, line: String)
        ensures
            final(self)@ == (SidecarView {
                stderr_tail: tail_with(old(self)@.stderr_tail, line@),
                ..old(self)@
            }),
            old(self)@.wf() ==> final(self)@.wf(),
    {
        let ghost before = self@;
        if self.stderr_tail.len() >= STDERR_TAIL_LINES {
            self.stderr_tail.remove(0);
            proof {
                assert(self@.stderr_tail =~= before.stderr_tail.skip(1));
            }
        }
        let ghost kept = self@.stderr_tail;
        self.stderr_tail.push(line);
        proof {
            assert(self@.stderr_tail =~= kept.push(line@));
            assert(self@.stderr_tail =~= tail_with(before.stderr_tail, line@));
        }
    }

    /// The last error lines of the worker, in one text.
    pub fn stderr_summary(&self) -> (r: String)
        ensures
            r@ == summary(self@.stderr_tail),
    {
        let all = join_from(&self.stderr_tail, 0);
        proof {
            let lines = text::views(self.stderr_tail@);
            assert(lines.skip(0) =~= lines);
        }
        let chars = chars_of(all.as_str());
        if chars.len() <= STDERR_SUMMARY_CHARS {
            all
        } else {
            proof {
                assert(all@.subrange(0, STDERR_SUMMARY_CHARS as int) =~= all@.take(
                    STDERR_SUMMARY_CHARS as int,
                ));
            }
            text_between(&chars, 0, STDERR_SUMMARY_CHARS)
        }
    }

    /// What a respawned worker is to load: the model and the device.
    pub fn respawn(&self) -> (r: Result<(String, String), SidecarError>)
        ensures
            match r {
                Ok(plan) => self@.reload() == Ok::<(Seq<char>, Seq<char>), SidecarFault>(
                    (plan.0@, plan.1@),
                ),
                Err(e) => self@.reload() == Err::<(Seq<char>, Seq<char>), SidecarFault>(e@),
            },
    {
        match &self.model_path {
            None => Err(SidecarError::NeverLoaded),
            Some(model_path) => {
                let device = match &self.device {
                    Some(device) => device.clone(),
                    None => "cpu".to_string(),
                };
                Ok((model_path.clone(), device))
            },
        }
    }
}

/// Whether a worker that was asked to stop is killed now: once it has exited,
/// or two seconds after it was asked.
pub fn shutdown_step(elapsed_millis: u64, exited: bool) -> (kill_now: bool)
    ensures
        kill_now == (exited || elapsed_millis >= 2000),
{
    exited || elapsed_millis >= SHUTDOWN_GRACE_MILLIS
}

/// What is handed out: the waiter with the response, where there is a waiter.
pub open spec fn delivers<W>(
    r: Option<(W, serde_json::Value)>,
    waiter: Option<W>,
    reply: Json,
) -> bool {
    match r {
        Some(delivery) => waiter == Some(delivery.0) && json::json_of(delivery.1) == reply,
        None => waiter is None,
    }
}

/// What can happen to the front of a worker.
pub enum SidecarStep<W> {
    Load { model_path: Seq<char>, device: Seq<char>, waiter: W },
    Transcribe { waiter: W },
    Reply(Json),
    ReaderEnded,
    Stopped,
    Wait { event: WaitEventView, timeout_secs: nat },
    Stderr(Seq<char>),
}

impl<W> SidecarView<W> {
    /// The front after one step.
    pub open spec fn step(self, step: SidecarStep<W>) -> SidecarView<W> {
        match step {
            SidecarStep::Load { model_path, device, waiter } => self.remembering(
                model_path,
                device,
            ).requested(waiter),
            SidecarStep::Transcribe { waiter } => self.requested(waiter),
            SidecarStep::Reply(reply) => self.replied(reply),
            SidecarStep::ReaderEnded => self.abandoned(),
            SidecarStep::Stopped => self.stopped(),
            SidecarStep::Wait { event, timeout_secs } => self.after_wait(event, timeout_secs),
            SidecarStep::Stderr(line) => SidecarView {
                stderr_tail: tail_with(self.stderr_tail, line),
                ..self
            },
        }
    }

    /// The front after a row of steps.
    pub open spec fn run(self, steps: Seq<SidecarStep<W>>) -> SidecarView<W>
        decreases steps.len(),
    {
        if steps.len() == 0 {
            self
        } else {
            self.run(steps.drop_last()).step(steps.last())
        }
    }
}

/// Ids increase: a request takes the next id, which nobody waits under, and no
/// step goes back; everybody waits under an id that was used before.
pub proof fn law_ids_increase<W>(s: SidecarView<W>, step: SidecarStep<W>)
    requires
        s.in_order(),
        s.serial < u64::MAX,
    ensures
        !s.pending.contains_key(s.serial),
        s.step(step).in_order(),
        s.step(step).serial == if step is Load || step is Transcribe {
            s.serial + 1
        } else {
            s.serial as int
        },
{
}

/// From the spawn of a worker on, over any row of steps that does not use up
/// the ids, its front is well formed and its ids are in order.
pub proof fn law_sidecar_run<W>(steps: Seq<SidecarStep<W>>)
    requires
        steps.len() < u64::MAX - 1,
    ensures
        ({
            let now = SidecarView::<W>::fresh().run(steps);
            now.wf() && now.in_order() && 1 <= now.serial <= 1 + steps.len()
        }),
    decreases steps.len(),
{
    if steps.len() > 0 {
        law_sidecar_run(steps.drop_last());
        law_ids_increase(SidecarView::<W>::fresh().run(steps.drop_last()), steps.last());
    }
}

/// A response reaches whoever sent the request with its id, whatever other
/// responses came before it.
pub proof fn law_response_reaches_its_request<W>(
    s: SidecarView<W>,
    waiter: W,
    other: Json,
    reply: Json,
)
    requires
        reply_id(reply) == Some(s.serial),
        reply_id(other) != Some(s.serial),
    ensures
        s.requested(waiter).addressee(reply) == Some(waiter),
        s.requested(waiter).replied(other).addressee(reply) == Some(waiter),
{
}

/// A response is handed out once: a second one with the same id is stale.
pub proof fn law_response_is_delivered_once<W>(s: SidecarView<W>, first: Json, second: Json)
    requires
        reply_id(first) == reply_id(second),
    ensures
        s.replied(first).addressee(second) is None,
        s.replied(first).replied(second) == s.replied(first),
{
    if let Some(id) = reply_id(first) {
        assert(s.pending.remove(id).remove(id) =~= s.pending.remove(id));
    }
}

/// A stale response, or one without an id, changes nothing and reaches nobody.
pub proof fn law_stale_response_is_dropped<W>(s: SidecarView<W>, reply: Json)
    requires
        match reply_id(reply) {
            Some(id) => !s.pending.contains_key(id),
            None => true,
        },
    ensures
        s.addressee(reply) is None,
        s.replied(reply) == s,
{
    if let Some(id) = reply_id(reply) {
        assert(s.pending.remove(id) =~= s.pending);
    }
}

/// A worker that stopped, or closed its output, has nobody waiting for it; one
/// that stopped takes no more requests.
pub proof fn law_stopped_worker_answers_nobody<W>(
    s: SidecarView<W>,
    reply: Json,
    op: Seq<char>,
    payload: Map<Seq<char>, Json>,
)
    ensures
        s.abandoned().addressee(reply) is None,
        s.stopped().addressee(reply) is None,
        s.stopped().request_line(op, payload) == Err::<(u64, Seq<char>), SidecarFault>(
            SidecarFault::StdinClosed,
        ),
        s.stopped().reload() == s.reload(),
{
}

/// An error in words decides, whatever result comes with it; any other error
/// is passed over.
pub proof fn law_error_decides(reply: Json, message: Seq<char>)
    ensures
        reply.field("error"@) == Some(Json::Text(message)) ==> answer(reply) == Err::<
            Json,
            SidecarFault,
        >(SidecarFault::Worker(message)),
        (match reply.field("error"@) {
            Some(error) => error.text() is None,
            None => true,
        }) ==> match reply.field("result"@) {
            Some(result) => answer(reply) == Ok::<Json, SidecarFault>(result),
            None => answer(reply) == Err::<Json, SidecarFault>(SidecarFault::NoResult),
        },
{
}

/// A request carries its id and its operation beside its own fields.
pub proof fn law_request_carries_all(
    payload: Map<Seq<char>, Json>,
    id: u64,
    op: Seq<char>,
    key: Seq<char>,
)
    ensures
        reply_id(Json::Object(request_fields(payload, id, op))) == Some(id),
        Json::Object(request_fields(payload, id, op)).field("op"@) == Some(Json::Text(op)),
        key != "id"@ && key != "op"@ ==> Json::Object(request_fields(payload, id, op)).field(key)
            == Json::Object(payload).field(key),
{
    reveal_strlit("id");
    reveal_strlit("op");
    assert("id"@[0] != "op"@[0]);
}

/// A request times out exactly when the worker runs but has not answered for
/// longer than the limit; then it is killed, and never otherwise.
pub proof fn law_timeout_kills<W>(s: SidecarView<W>, event: WaitEventView, timeout_secs: nat)
    ensures
        s.wait_step(event, timeout_secs) is KillAndFinish <==> (match event {
            WaitEventView::Quiet { alive, elapsed_nanos } => alive && elapsed_nanos > timeout_secs
                * 1_000_000_000,
            _ => false,
        }),
        s.wait_step(event, timeout_secs) is KillAndFinish ==> s.after_wait(event, timeout_secs)
            == s.stopped(),
        !(s.wait_step(event, timeout_secs) is KillAndFinish) ==> s.after_wait(event, timeout_secs)
            == s,
{
}

/// The newest error line is always kept, and the lines before it in order.
pub proof fn law_tail_keeps_newest(tail: Seq<Seq<char>>, line: Seq<char>)
    requires
        tail.len() <= STDERR_TAIL_LINES,
    ensures
        ({
            let next = tail_with(tail, line);
            let all = tail.push(line);
            &&& next.last() == line
            &&& next.len() <= STDERR_TAIL_LINES
            &&& next == all.skip(all.len() - next.len())
            &&& next.len() == all.len() || next.len() == STDERR_TAIL_LINES
        }),
{
    let next = tail_with(tail, line);
    let all = tail.push(line);
    assert(next =~= all.skip(all.len() - next.len()));
}

/// The summary of the error lines is a beginning of them, of limited length.
pub proof fn law_summary_is_bounded(tail: Seq<Seq<char>>)
    ensures
        summary(tail).len() <= STDERR_SUMMARY_CHARS,
        summary(tail) == text::joined(tail).take(summary(tail).len() as int),
{
    assert(summary(tail) =~= text::joined(tail).take(summary(tail).len() as int));
}

/// A worker is reloaded with what it was last asked to load; one that never
/// was asked cannot be.
pub proof fn law_reload_repeats_load<W>(
    s: SidecarView<W>,
    model_path: Seq<char>,
    device: Seq<char>,
    waiter: W,
)
    ensures
        SidecarView::<W>::fresh().reload() == Err::<(Seq<char>, Seq<char>), SidecarFault>(
            SidecarFault::NeverLoaded,
        ),
        s.remembering(model_path, device).requested(waiter).stopped().reload() == Ok::<
            (Seq<char>, Seq<char>),
            SidecarFault,
        >((model_path, device)),
{
}

/// A `transcribe` request has exactly three fields of its own: the path as it is
/// given, the context as it is given, and the worker's name of the language,
/// whatever the other two are.
pub proof fn law_transcribe_request(
    audio_path: Seq<char>,
    code: Seq<char>,
    context: Seq<char>,
    key: Seq<char>,
)
    ensures
        ({
            let fields = transcribe_fields(audio_path, code, context);
            &&& fields.contains_key(key) <==> key == "audio_path"@ || key == "language"@ || key
                == "context"@
            &&& fields["audio_path"@] == Json::Text(audio_path)
            &&& fields["language"@] == Json::Text(language::worker_language(code))
            &&& fields["context"@] == Json::Text(context)
        }),
{
    reveal_strlit("audio_path");
    reveal_strlit("language");
    reveal_strlit("context");
    assert("audio_path"@.len() == 10 && "language"@.len() == 8 && "context"@.len() == 7);
}

/// The language that is sent depends on the code alone.
pub proof fn law_language_is_independent(
    code: Seq<char>,
    audio_a: Seq<char>,
    context_a: Seq<char>,
    audio_b: Seq<char>,
    context_b: Seq<char>,
)
    ensures
        transcribe_fields(audio_a, code, context_a)["language"@] == transcribe_fields(
            audio_b,
            code,
            context_b,
        )["language"@],
{
    law_transcribe_request(audio_a, code, context_a, code);
    law_transcribe_request(audio_b, code, context_b, code);
}

/// A `load` request has exactly two fields of its own: the model and the device
/// as they are given.
pub proof fn law_load_request(model_path: Seq<char>, device: Seq<char>, key: Seq<char>)
    ensures
        ({
            let fields = load_fields(model_path, device);
            &&& fields.contains_key(key) <==> key == "model_path"@ || key == "device"@
            &&& fields["model_path"@] == Json::Text(model_path)
            &&& fields["device"@] == Json::Text(device)
        }),
{
    reveal_strlit("model_path");
    reveal_strlit("device");
    assert("model_path"@.len() == 10 && "device"@.len() == 6);
}

/// The line of a request is the text of its fields, under the next id; a worker
/// that does not listen gets none.
pub proof fn law_request_line<W>(
    s: SidecarView<W>,
    op: Seq<char>,
    payload: Map<Seq<char>, Json>,
    line: Seq<char>,
    cause: Seq<char>,
)
    ensures
        ({
            let all = payload.insert("id"@, Json::Number(JsonNumber::Natural(s.serial))).insert(
                "op"@,
                Json::Text(op),
            );
            &&& !s.stdin_open ==> s.request_line(op, payload) == Err::<
                (u64, Seq<char>),
                SidecarFault,
            >(SidecarFault::StdinClosed)
            &&& s.stdin_open && json::written(all) == Ok::<Seq<char>, Seq<char>>(line)
                ==> s.request_line(op, payload) == Ok::<(u64, Seq<char>), SidecarFault>(
                (s.serial, line),
            )
            &&& s.stdin_open && json::written(all) == Err::<Seq<char>, Seq<char>>(cause)
                ==> s.request_line(op, payload) == Err::<(u64, Seq<char>), SidecarFault>(
                SidecarFault::Host(cause),
            )
        }),
{
}

/// The fields of a request are those of its payload, its id and its operation,
/// and no others.
pub proof fn law_request_has_no_other_fields(
    payload: Map<Seq<char>, Json>,
    id: u64,
    op: Seq<char>,
    key: Seq<char>,
)
    ensures
        request_fields(payload, id, op).contains_key(key) <==> payload.contains_key(key) || key
            == "id"@ || key == "op"@,
{
}

/// A response carries an id exactly where it is an object whose `id` is a natural
/// number.
pub proof fn law_reply_id(reply: Json, n: u64)
    ensures
        reply_id(reply) == Some(n) <==> (reply matches Json::Object(fields)
            && fields.contains_key("id"@) && fields["id"@] == Json::Number(
            JsonNumber::Natural(n),
        )),
{
}

/// A response reaches whoever waits under its id, and takes only that one off
/// the list.
pub proof fn law_reply_takes_only_its_waiter<W>(s: SidecarView<W>, reply: Json, id: u64)
    ensures
        ({
            let next = s.replied(reply);
            &&& next.pending.contains_key(id) <==> s.pending.contains_key(id) && reply_id(reply)
                != Some(id)
            &&& next.pending.contains_key(id) ==> next.pending[id] == s.pending[id]
            &&& next.serial == s.serial
            &&& next.stdin_open == s.stdin_open
            &&& next.stderr_tail == s.stderr_tail
            &&& next.model_path == s.model_path
            &&& next.device == s.device
        }),
{
}

/// A request adds only its own waiter to the list, under the next id.
pub proof fn law_request_adds_only_its_waiter<W>(s: SidecarView<W>, waiter: W, id: u64)
    ensures
        ({
            let next = s.requested(waiter);
            &&& next.pending.contains_key(id) <==> s.pending.contains_key(id) || id == s.serial
            &&& next.pending[s.serial] == waiter
            &&& id != s.serial && s.pending.contains_key(id) ==> next.pending[id] == s.pending[id]
            &&& next.stdin_open == s.stdin_open
            &&& next.stderr_tail == s.stderr_tail
            &&& next.model_path == s.model_path
            &&& next.device == s.device
        }),
{
}

/// Stopping a worker, or the end of its output, keeps what it was asked to load
/// and its error lines.
pub proof fn law_stopping_keeps_the_rest<W>(s: SidecarView<W>)
    ensures
        s.stopped() == (SidecarView { pending: Map::empty(), stdin_open: false, ..s }),
        s.abandoned() == (SidecarView { pending: Map::empty(), ..s }),
{
}

/// A result holds a text exactly where it is an object whose `text` is a text.
pub proof fn law_recognized(result: Json, s: Seq<char>)
    ensures
        recognized(result) == Ok::<Seq<char>, SidecarFault>(s) <==> (
        result matches Json::Object(fields) && fields.contains_key("text"@) && fields["text"@]
            == Json::Text(s)),
        recognized(result) is Err ==> recognized(result) == Err::<Seq<char>, SidecarFault>(
            SidecarFault::NoText,
        ),
{
}

/// What whoever waits does: takes the answer of a response; gives up with the
/// worker's last error lines where it is gone; gives up and has it killed after
/// the limit; and waits on otherwise.
pub proof fn law_waiting<W>(
    s: SidecarView<W>,
    reply: Json,
    elapsed_nanos: nat,
    timeout_secs: nat,
)
    ensures
        ({
            let gone = WaitStepView::Finish(
                Err(SidecarFault::Stopped(summary(s.stderr_tail))),
            );
            &&& s.wait_step(WaitEventView::Reply(reply), timeout_secs) == WaitStepView::Finish(
                answer(reply),
            )
            &&& s.wait_step(WaitEventView::Disconnected, timeout_secs) == gone
            &&& s.wait_step(
                WaitEventView::Quiet { alive: false, elapsed_nanos },
                timeout_secs,
            ) == gone
            &&& s.wait_step(WaitEventView::Quiet { alive: true, elapsed_nanos }, timeout_secs)
                == if elapsed_nanos > timeout_secs * 1_000_000_000 {
                WaitStepView::KillAndFinish(SidecarFault::TimedOut(timeout_secs))
            } else {
                WaitStepView::Wait
            }
        }),
{
}

/// The summary is as long as the limit of 1600 characters allows.
pub proof fn law_summary_is_as_long_as_allowed(tail: Seq<Seq<char>>)
    ensures
        text::joined(tail).len() <= 1600 ==> summary(tail) == text::joined(tail),
        text::joined(tail).len() > 1600 ==> summary(tail).len() == 1600,
        STDERR_TAIL_LINES == 25,
{
}

/// A message names what went wrong: the worker's own words, its last error
/// lines, the seconds in decimal and the causes stand in it as they are.
pub proof fn law_sidecar_messages(s: Seq<char>, n: nat)
    ensures
        SidecarFault::Worker(s).message() == s,
        SidecarFault::NoResult.message() == "Qwen worker returned no result"@,
        SidecarFault::NoText.message() == "Qwen worker returned no text field"@,
        SidecarFault::Stopped(s).message() == "Qwen worker stopped: "@ + s,
        SidecarFault::TimedOut(n).message() == "Qwen worker timed out after "@ + text::digits(n)
            + "s and was stopped. Reload the engine."@,
        SidecarFault::StdinClosed.message() == "Qwen worker stdin is closed"@,
        SidecarFault::WriteFailed(s).message() == "Failed to write to Qwen worker: "@ + s,
        SidecarFault::NeverLoaded.message() == "Qwen worker died before any model was loaded"@,
        SidecarFault::Host(s).message() == s,
{
}

/// A worker is reloaded on the device of its last `load`, or on the CPU where it
/// has none.
pub proof fn law_reload_device<W>(s: SidecarView<W>, model_path: Seq<char>, device: Seq<char>)
    ensures
        (SidecarView { model_path: Some(model_path), device: Some(device), ..s }).reload() == Ok::<
            (Seq<char>, Seq<char>),
            SidecarFault,
        >((model_path, device)),
        (SidecarView { model_path: Some(model_path), device: None, ..s }).reload() == Ok::<
            (Seq<char>, Seq<char>),
            SidecarFault,
        >((model_path, "cpu"@)),
        (SidecarView { model_path: None, ..s }).reload() is Err,
{
}

/// What is handed out is the waiter with the response, exactly where there is a
/// waiter.
pub proof fn law_delivery<W>(r: Option<(W, serde_json::Value)>, waiter: Option<W>, reply: Json)
    requires
        delivers(r, waiter, reply),
    ensures
        r is Some <==> waiter is Some,
        r matches Some((w, value)) ==> Some(w) == waiter && json::json_of(value) == reply,
{
}

/// What an error, an event, a step and a line hold is what they say.
pub proof fn law_sidecar_says_what_it_holds(
    s: String,
    n: u64,
    value: serde_json::Value,
    error: SidecarError,
    alive: bool,
    nanos: u128,
)
    ensures
        SidecarError::Worker(s)@ == SidecarFault::Worker(s@),
        SidecarError::NoResult@ is NoResult,
        SidecarError::NoText@ is NoText,
        SidecarError::Stopped(s)@ == SidecarFault::Stopped(s@),
        SidecarError::TimedOut(n)@ == SidecarFault::TimedOut(n as nat),
        SidecarError::StdinClosed@ is StdinClosed,
        SidecarError::WriteFailed(s)@ == SidecarFault::WriteFailed(s@),
        SidecarError::NeverLoaded@ is NeverLoaded,
        SidecarError::Host(s)@ == SidecarFault::Host(s@),
        WaitEvent::Reply(value)@ == WaitEventView::Reply(json::json_of(value)),
        WaitEvent::Disconnected@ is Disconnected,
        (WaitEvent::Quiet { alive, elapsed_nanos: nanos })@ == (WaitEventView::Quiet {
            alive,
            elapsed_nanos: nanos as nat,
        }),
        WaitStep::Wait@ is Wait,
        WaitStep::Finish(Ok(value))@ == WaitStepView::Finish(Ok(json::json_of(value))),
        WaitStep::Finish(Err(error))@ == WaitStepView::Finish(Err(error@)),
        WaitStep::KillAndFinish(error)@ == WaitStepView::KillAndFinish(error@),
        line_view(Ok((n, s))) == Ok::<(u64, Seq<char>), SidecarFault>((n, s@)),
        line_view(Err(error)) == Err::<(u64, Seq<char>), SidecarFault>(error@),
        outcome(Ok(value)) == Ok::<Json, SidecarFault>(json::json_of(value)),
        outcome(Err(error)) == Err::<Json, SidecarFault>(error@),
        optional_text(Some(s)) == Some(s@),
        optional_text(None) is None,
{
}

} // verus!
