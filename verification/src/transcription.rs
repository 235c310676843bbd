//! One transcription by the worker: see that it runs, store the samples in a
//! file, ask, and read the text.
//!
//! The machine decides; the host starts workers, writes and removes the file
//! and sends the requests as the actions say.

use crate::json::Json;
use crate::sidecar;
use crate::sidecar::{read_text, QwenSidecar, SidecarError, SidecarFault, SidecarView};
use crate::text;
use crate::text::decimal;
use vstd::prelude::*;

verus! {

/// The name of the file for the samples of one request.
pub open spec fn audio_name(process: nat, counter: nat) -> Seq<char> {
    "echo-qwen-"@ + text::digits(process) + "-"@ + text::digits(counter) + ".f32"@
}

/// The name of the file for the samples of one request.
pub fn temp_audio_name(process: u32, counter: u64) -> (r: String)
    ensures
        r@ == audio_name(process as nat, counter as nat),
{
    "echo-qwen-".to_string().concat(decimal(process as u64).as_str()).concat("-").concat(
        decimal(counter).as_str(),
    ).concat(".f32")
}

/// The four bytes of a number, the lowest first.
pub open spec fn le_bytes(bits: u32) -> Seq<u8> {
    seq![
        (bits % 256) as u8,
        (bits / 256 % 256) as u8,
        (bits / 65536 % 256) as u8,
        (bits / 16777216) as u8,
    ]
}

/// The bytes of a row of samples.
pub open spec fn samples_bytes(samples: Seq<u32>) -> Seq<u8>
    decreases samples.len(),
{
    if samples.len() == 0 {
        Seq::empty()
    } else {
        samples_bytes(samples.drop_last()) + le_bytes(samples.last())
    }
}

/// The raw file of a row of samples, each given by its bits.
pub fn audio_bytes(samples: &Vec<u32>) -> (r: Vec<u8>)
    ensures
        r@ == samples_bytes(samples@),
{
    let mut out: Vec<u8> = Vec::new();
    let mut i: usize = 0;
    while i < samples.len()
        invariant
            i <= samples@.len(),
            out@ == samples_bytes(samples@.take(i as int)),
        decreases samples@.len() - i,
    {
        proof {
            assert(samples@.take(i + 1).drop_last() =~= samples@.take(i as int));
        }
        let ghost before = out@;
        let bits: u32 = samples[i];
        out.push((bits % 256) as u8);
        out.push((bits / 256 % 256) as u8);
        out.push((bits / 65536 % 256) as u8);
        out.push((bits / 16777216) as u8);
        proof {
            assert(out@ =~= before + le_bytes(bits));
        }
        i += 1;
    }
    proof {
        assert(samples@.take(samples@.len() as int) =~= samples@);
    }
    out
}

/// The raw file has four bytes for every sample.
pub proof fn law_audio_length(samples: Seq<u32>)
    ensures
        samples_bytes(samples).len() == 4 * samples.len(),
    decreases samples.len(),
{
    if samples.len() > 0 {
        law_audio_length(samples.drop_last());
    }
}

/// The samples can be read back from the raw file: the bits of each stand in
/// its four bytes.
pub proof fn law_audio_reads_back(samples: Seq<u32>, i: int)
    requires
        0 <= i < samples.len(),
    ensures
        ({
            let bytes = samples_bytes(samples);
            samples[i] == bytes[4 * i] + 256 * bytes[4 * i + 1] + 65536 * bytes[4 * i + 2]
                + 16777216 * bytes[4 * i + 3]
        }),
    decreases samples.len(),
{
    law_audio_length(samples);
    law_audio_length(samples.drop_last());
    if i < samples.len() - 1 {
        law_audio_reads_back(samples.drop_last(), i);
        assert(samples.drop_last()[i] == samples[i]);
    }
}

/// Where a transcription stands.
#[derive(Debug, Clone, Copy, PartialEq, Eq, Structural)]
pub enum JobStage {
    /// A new worker is started, and loads the model.
    Respawning,
    /// The samples are written to a file.
    Storing,
    /// The worker was asked.
    Asking,
    /// The transcription succeeded or failed.
    Ended,
}

/// What the host reports.
pub enum JobEvent {
    /// A new worker runs and has loaded the model, or there is none.
    Respawned(Result<(), SidecarError>),
    /// The samples stand in this file, or could not be written.
    Stored(Result<String, String>),
    /// What the request came to.
    Answered(Result<serde_json::Value, SidecarError>),
}

/// What the host reports, over plain values.
pub enum JobEventView {
    Respawned(Result<(), SidecarFault>),
    Stored(Result<Seq<char>, Seq<char>>),
    Answered(Result<Json, SidecarFault>),
}

impl View for JobEvent {
    type V = JobEventView;

    open spec fn view(&self) -> JobEventView {
        match *self {
            JobEvent::Respawned(result) => JobEventView::Respawned(
                match result {
                    Ok(_) => Ok(()),
                    Err(error) => Err(error@),
                },
            ),
            JobEvent::Stored(result) => JobEventView::Stored(
                match result {
                    Ok(path) => Ok(path@),
                    Err(cause) => Err(cause@),
                },
            ),
            JobEvent::Answered(result) => JobEventView::Answered(sidecar::outcome(result)),
        }
    }
}

/// What the host has to do.
pub enum JobAction {
    /// Stop the worker, start a new one, and have it load this model.
    Respawn { model_path: String, device: String },
    /// Write the samples to a file.
    StoreAudio,
    /// Send the request for this file.
    Ask { audio_path: String },
    /// Remove the file where there is one; this is the outcome.
    Finish { result: Result<String, SidecarError>, remove: Option<String> },
    /// Nothing: the event has no meaning here.
    Ignore,
}

/// What the host has to do, over plain values.
pub enum JobActionView {
    Respawn { model_path: Seq<char>, device: Seq<char> },
    StoreAudio,
    Ask { audio_path: Seq<char> },
    Finish { result: Result<Seq<char>, SidecarFault>, remove: Option<Seq<char>> },
    Ignore,
}

impl View for JobAction {
    type V = JobActionView;

    open spec fn view(&self) -> JobActionView {
        match *self {
            JobAction::Respawn { model_path, device } => JobActionView::Respawn {
                model_path: model_path@,
                device: device@,
            },
            JobAction::StoreAudio => JobActionView::StoreAudio,
            JobAction::Ask { audio_path } => JobActionView::Ask { audio_path: audio_path@ },
            JobAction::Finish { result, remove } => JobActionView::Finish {
                result: match result {
                    Ok(s) => Ok(s@),
                    Err(error) => Err(error@),
                },
                remove: sidecar::optional_text(remove),
            },
            JobAction::Ignore => JobActionView::Ignore,
        }
    }
}

/// A state of a transcription.
#[verifier::ext_equal]
pub struct JobView {
    pub stage: JobStage,
    /// The file of the samples, while it stands.
    pub audio_path: Option<Seq<char>>,
}

/// How a transcription begins: with a worker that runs, or with a new one that
/// loads what the last one was asked to load.
pub open spec fn job_start<W>(worker: SidecarView<W>, alive: bool) -> (JobView, JobActionView) {
    let job = JobView { stage: JobStage::Storing, audio_path: None };
    if alive {
        (job, JobActionView::StoreAudio)
    } else {
        match worker.reload() {
            Ok(plan) => (
                JobView { stage: JobStage::Respawning, ..job },
                JobActionView::Respawn { model_path: plan.0, device: plan.1 },
            ),
            Err(fault) => job.finished(Err(fault)),
        }
    }
}

impl JobView {
    /// The file stands exactly while the worker is asked about it.
    pub open spec fn wf(self) -> bool {
        self.audio_path is Some <==> self.stage is Asking
    }

    /// The end: the file goes.
    pub open spec fn finished(self, result: Result<Seq<char>, SidecarFault>) -> (
        JobView,
        JobActionView,
    ) {
        (
            JobView { stage: JobStage::Ended, audio_path: None },
            JobActionView::Finish { result, remove: self.audio_path },
        )
    }

    /// What an event does: the next state, and what the host has to do. An
    /// event that has no meaning in a stage does nothing.
    pub open spec fn step(self, event: JobEventView) -> (JobView, JobActionView) {
        match (self.stage, event) {
            (JobStage::Respawning, JobEventView::Respawned(result)) => match result {
                Ok(_) => (
                    JobView { stage: JobStage::Storing, ..self },
                    JobActionView::StoreAudio,
                ),
                Err(fault) => self.finished(Err(fault)),
            },
            (JobStage::Storing, JobEventView::Stored(result)) => match result {
                Ok(path) => (
                    JobView { stage: JobStage::Asking, audio_path: Some(path) },
                    JobActionView::Ask { audio_path: path },
                ),
                Err(cause) => self.finished(Err(SidecarFault::Host(cause))),
            },
            (JobStage::Asking, JobEventView::Answered(result)) => match result {
                Ok(value) => self.finished(sidecar::recognized(value)),
                Err(fault) => self.finished(Err(fault)),
            },
            _ => (self, JobActionView::Ignore),
        }
    }
}

/// A transcription under way.
pub struct Transcription {
    stage: JobStage,
    audio_path: Option<String>,
}

impl View for Transcription {
    type V = JobView;

    closed spec fn view(&self) -> JobView {
        JobView { stage: self.stage, audio_path: sidecar::optional_text(self.audio_path) }
    }
}

impl Transcription {
    /// Begins a transcription, with a worker that runs or does not.
    pub fn begin<W>(worker: &QwenSidecar<W>, alive: bool) -> (r: (Self, JobAction))
        ensures
            r.0@ == job_start(worker@, alive).0,
            r.1@ == job_start(worker@, alive).1,
            r.0@.wf(),
    {
        let mut job = Transcription { stage: JobStage::Storing, audio_path: None };
        if alive {
            return (job, JobAction::StoreAudio);
        }
        match worker.respawn() {
            Ok((model_path, device)) => {
                job.stage = JobStage::Respawning;
                (job, JobAction::Respawn { model_path, device })
            },
            Err(error) => {
                let action = job.finish(Err(error));
                (job, action)
            },
        }
    }

    /// Handles one event, and says what the host has to do.
    pub fn advance(&mut self, event: JobEvent) -> (r: JobAction)
        ensures
            final(self)@ == old(self)@.step(event@).0,
            r@ == old(self)@.step(event@).1,
    {
        match (self.stage, event) {
            (JobStage::Respawning, JobEvent::Respawned(result)) => match result {
                Ok(_) => {
                    self.stage = JobStage::Storing;
                    JobAction::StoreAudio
                },
                Err(error) => self.finish(Err(error)),
            },
            (JobStage::Storing, JobEvent::Stored(result)) => match result {
                Ok(path) => {
                    self.stage = JobStage::Asking;
                    self.audio_path = Some(path.clone());
                    JobAction::Ask { audio_path: path }
                },
                Err(cause) => self.finish(Err(SidecarError::Host(cause))),
            },
            (JobStage::Asking, JobEvent::Answered(result)) => match result {
                Ok(value) => self.finish(read_text(&value)),
                Err(error) => self.finish(Err(error)),
            },
            _ => JobAction::Ignore,
        }
    }

    /// Ends the transcription.
    fn finish(&mut self, result: Result<String, SidecarError>) -> (r: JobAction)
        ensures
            final(self)@ == old(self)@.finished(
                match result {
                    Ok(s) => Ok(s@),
                    Err(error) => Err(error@),
                },
            ).0,
            r@ == old(self)@.finished(
                match result {
                    Ok(s) => Ok(s@),
                    Err(error) => Err(error@),
                },
            ).1,
    {
        self.stage = JobStage::Ended;
        let remove = self.audio_path.take();
        JobAction::Finish { result, remove }
    }
}

/// Every event keeps a transcription well formed.
pub proof fn law_job_keeps_wf(job: JobView, event: JobEventView)
    requires
        job.wf(),
    ensures
        job.step(event).0.wf(),
{
}

/// A file that was stored is removed at the end, whether or not the request
/// succeeded.
pub proof fn law_stored_audio_is_removed(
    job: JobView,
    path: Seq<char>,
    answered: Result<Json, SidecarFault>,
)
    requires
        job.stage is Storing,
    ensures
        ({
            let asking = job.step(JobEventView::Stored(Ok(path))).0;
            let (ended, action) = asking.step(JobEventView::Answered(answered));
            &&& ended == (JobView { stage: JobStage::Ended, audio_path: None })
            &&& action matches JobActionView::Finish { remove, .. } && remove == Some(path)
        }),
{
}

/// A transcription succeeds exactly when the worker's result holds a text, and
/// then with that text.
pub proof fn law_text_comes_from_worker(job: JobView, event: JobEventView, s: Seq<char>)
    requires
        job.wf(),
    ensures
        (job.step(event).1 matches JobActionView::Finish { result, .. } && result == Ok::<
            Seq<char>,
            SidecarFault,
        >(s)) <==> job.stage is Asking && (event matches JobEventView::Answered(Ok(value))
            && value.field("text"@) == Some(Json::Text(s))),
{
}

/// A worker is started anew at most once, at the beginning, and only where
/// none runs.
pub proof fn law_respawns_at_most_once<W>(
    worker: SidecarView<W>,
    alive: bool,
    job: JobView,
    event: JobEventView,
)
    ensures
        job_start(worker, alive).1 is Respawn <==> !alive && worker.reload() is Ok,
        !(job.step(event).1 is Respawn),
{
}

/// A transcription that has ended answers nothing.
pub proof fn law_ended_job_is_silent(job: JobView, event: JobEventView)
    requires
        job.stage is Ended,
    ensures
        job.step(event) == (job, JobActionView::Ignore),
{
}

/// The file of a request is named after the process and a counter, in decimal.
pub proof fn law_audio_name(process: nat, counter: nat)
    ensures
        audio_name(process, counter) == "echo-qwen-"@ + text::digits(process) + "-"@
            + text::digits(counter) + ".f32"@,
{
}

/// How a transcription begins. With a worker that runs, the samples are stored.
/// Without one, a new one loads the model on the device of the last one; where
/// nothing was ever loaded, the transcription fails, and there is no file to
/// remove.
pub proof fn law_job_begins<W>(worker: SidecarView<W>, alive: bool)
    ensures
        ({
            let (job, action) = job_start(worker, alive);
            &&& job.audio_path is None
            &&& alive ==> job.stage is Storing && action is StoreAudio
            &&& !alive && worker.model_path is None ==> job.stage is Ended && action == (
            JobActionView::Finish { result: Err(SidecarFault::NeverLoaded), remove: None })
            &&& !alive && worker.model_path is Some ==> job.stage is Respawning && action == (
            JobActionView::Respawn {
                model_path: worker.model_path->0,
                device: if worker.device is Some {
                    worker.device->0
                } else {
                    "cpu"@
                },
            })
        }),
{
}

/// How a transcription moves on. A new worker that has the model is followed by
/// storing the samples; a stored file is the one that the worker is asked about;
/// and every failure is the outcome, in its own words.
pub proof fn law_job_moves_on(
    job: JobView,
    fault: SidecarFault,
    path: Seq<char>,
    cause: Seq<char>,
    value: Json,
)
    requires
        job.wf(),
    ensures
        job.stage is Respawning ==> job.step(JobEventView::Respawned(Ok(()))) == (
            JobView { stage: JobStage::Storing, ..job },
            JobActionView::StoreAudio,
        ),
        job.stage is Respawning ==> job.step(JobEventView::Respawned(Err(fault))).1 == (
        JobActionView::Finish { result: Err(fault), remove: None }),
        job.stage is Storing ==> job.step(JobEventView::Stored(Ok(path))) == (
            JobView { stage: JobStage::Asking, audio_path: Some(path) },
            JobActionView::Ask { audio_path: path },
        ),
        job.stage is Storing ==> job.step(JobEventView::Stored(Err(cause))).1 == (
        JobActionView::Finish { result: Err(SidecarFault::Host(cause)), remove: None }),
        job.stage is Asking ==> job.step(JobEventView::Answered(Err(fault))).1 == (
        JobActionView::Finish { result: Err(fault), remove: job.audio_path }),
        job.stage is Asking ==> job.step(JobEventView::Answered(Ok(value))).1 == (
        JobActionView::Finish {
            result: match value.field("text"@) {
                Some(Json::Text(s)) => Ok(s),
                _ => Err(SidecarFault::NoText),
            },
            remove: job.audio_path,
        }),
{
}

/// An event that has no meaning in a stage does nothing.
pub proof fn law_misplaced_job_event(job: JobView, event: JobEventView)
    requires
        event is Respawned ==> !(job.stage is Respawning),
        event is Stored ==> !(job.stage is Storing),
        event is Answered ==> !(job.stage is Asking),
    ensures
        job.step(event) == (job, JobActionView::Ignore),
{
}

/// The bytes of samples are those of each, one after the other.
pub proof fn law_audio_is_concatenated(a: Seq<u32>, b: Seq<u32>)
    ensures
        samples_bytes(a + b) == samples_bytes(a) + samples_bytes(b),
    decreases b.len(),
{
    if b.len() == 0 {
        assert(a + b =~= a);
        assert(samples_bytes(a) + samples_bytes(b) =~= samples_bytes(a));
    } else {
        law_audio_is_concatenated(a, b.drop_last());
        assert((a + b).drop_last() =~= a + b.drop_last());
        assert(samples_bytes(a + b) =~= samples_bytes(a) + samples_bytes(b));
    }
}

/// What an event and an action hold is what they say.
pub proof fn law_job_says_what_it_holds(
    a: String,
    b: String,
    value: serde_json::Value,
    error: SidecarError,
)
    ensures
        JobEvent::Respawned(Ok(()))@ == JobEventView::Respawned(Ok(())),
        JobEvent::Respawned(Err(error))@ == JobEventView::Respawned(Err(error@)),
        JobEvent::Stored(Ok(a))@ == JobEventView::Stored(Ok(a@)),
        JobEvent::Stored(Err(a))@ == JobEventView::Stored(Err(a@)),
        JobEvent::Answered(Ok(value))@ == JobEventView::Answered(Ok(crate::json::json_of(value))),
        JobEvent::Answered(Err(error))@ == JobEventView::Answered(Err(error@)),
        (JobAction::Respawn { model_path: a, device: b })@ == (JobActionView::Respawn {
            model_path: a@,
            device: b@,
        }),
        JobAction::StoreAudio@ is StoreAudio,
        (JobAction::Ask { audio_path: a })@ == (JobActionView::Ask { audio_path: a@ }),
        (JobAction::Finish { result: Ok(a), remove: Some(b) })@ == (JobActionView::Finish {
            result: Ok(a@),
            remove: Some(b@),
        }),
        (JobAction::Finish { result: Err(error), remove: None })@ == (JobActionView::Finish {
            result: Err(error@),
            remove: None,
        }),
        JobAction::Ignore@ is Ignore,
{
}

} // verus!
