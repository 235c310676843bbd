//! A verified download: resume where a partial file stands, check what the
//! server reports against the pinned size, and check size and SHA-256 of the
//! file before it is used.
//!
//! The machine decides; the host sends the requests and touches the file as
//! the actions say, and hands the outcome back as the next event.

use crate::digest;
use crate::digest::file_digest;
use crate::runtime::{Fault, RuntimeError};
use crate::text;
use crate::text::{decimal, to_lowercase};
use vstd::prelude::*;

verus! {

/// Where a download stands.
#[derive(Debug, Clone, Copy, PartialEq, Eq, Structural)]
pub enum DownloadPhase {
    /// A request was sent.
    Requesting,
    /// The body is arriving.
    Receiving,
    /// The body is complete; the size of the file is asked for.
    Measuring,
    /// The digest of the file is asked for.
    Hashing,
    /// The download succeeded or failed.
    Ended,
}

/// What the host reports.
#[derive(Debug)]
pub enum DownloadEvent {
    /// The status of a response, as a number and in words, and the length of
    /// its body where the server gives one.
    Response { status: u16, status_text: String, content_length: Option<u64> },
    /// The next piece of the body, by its length, or what broke the stream;
    /// and whether the install was cancelled before it.
    Chunk { cancelled: bool, chunk: Result<u64, String> },
    /// The body is complete, and the file is written out.
    StreamEnded,
    /// The size of the file.
    Measured(u64),
    /// The SHA-256 digest of the file, in lowercase hexadecimal.
    Hashed(String),
    /// The host failed at what it was asked for.
    HostFailed(String),
}

/// An event over characters and numbers.
pub enum DownloadEventView {
    Response { status: nat, status_text: Seq<char>, content_length: Option<u64> },
    Chunk { cancelled: bool, chunk: Result<u64, Seq<char>> },
    StreamEnded,
    Measured(nat),
    Hashed(Seq<char>),
    HostFailed(Seq<char>),
}

impl View for DownloadEvent {
    type V = DownloadEventView;

    open spec fn view(&self) -> DownloadEventView {
        match *self {
            DownloadEvent::Response { status, status_text, content_length } =>
                DownloadEventView::Response {
                status: status as nat,
                status_text: status_text@,
                content_length,
            },
            DownloadEvent::Chunk { cancelled, chunk } => DownloadEventView::Chunk {
                cancelled,
                chunk: match chunk {
                    Ok(len) => Ok(len),
                    Err(e) => Err(e@),
                },
            },
            DownloadEvent::StreamEnded => DownloadEventView::StreamEnded,
            DownloadEvent::Measured(actual) => DownloadEventView::Measured(actual as nat),
            DownloadEvent::Hashed(hash) => DownloadEventView::Hashed(hash@),
            DownloadEvent::HostFailed(cause) => DownloadEventView::HostFailed(cause@),
        }
    }
}

/// What the host has to do.
#[derive(Debug)]
pub enum DownloadAction {
    /// Request the file, from the given header on where there is one.
    Request { range: Option<String> },
    /// Remove the partial file, and request the file from its beginning.
    Restart,
    /// Open the partial file: to append, or anew.
    OpenPart { append: bool },
    /// Write the piece; then this many bytes of this many have arrived.
    WriteChunk { downloaded: u64, total: u64 },
    /// Say how large the file is.
    Measure,
    /// Compute the SHA-256 digest of the file.
    Hash,
    /// Give up, and remove the partial file where it is of no use.
    Fail { error: RuntimeError, remove_part: bool },
    /// The file is complete and verified.
    Complete,
    /// Nothing: the event has no meaning here.
    Ignore,
}

/// An action over characters and numbers.
pub enum DownloadActionView {
    Request { range: Option<Seq<char>> },
    Restart,
    OpenPart { append: bool },
    WriteChunk { downloaded: nat, total: nat },
    Measure,
    Hash,
    Fail { error: Fault, remove_part: bool },
    Complete,
    Ignore,
}

impl View for DownloadAction {
    type V = DownloadActionView;

    open spec fn view(&self) -> DownloadActionView {
        match *self {
            DownloadAction::Request { range } => DownloadActionView::Request {
                range: match range {
                    Some(header) => Some(header@),
                    None => None,
                },
            },
            DownloadAction::Restart => DownloadActionView::Restart,
            DownloadAction::OpenPart { append } => DownloadActionView::OpenPart { append },
            DownloadAction::WriteChunk { downloaded, total } => DownloadActionView::WriteChunk {
                downloaded: downloaded as nat,
                total: total as nat,
            },
            DownloadAction::Measure => DownloadActionView::Measure,
            DownloadAction::Hash => DownloadActionView::Hash,
            DownloadAction::Fail { error, remove_part } => DownloadActionView::Fail {
                error: error@,
                remove_part,
            },
            DownloadAction::Complete => DownloadActionView::Complete,
            DownloadAction::Ignore => DownloadActionView::Ignore,
        }
    }
}

/// A state of a download.
#[verifier::ext_equal]
pub struct DownloadView {
    pub url: Seq<char>,
    /// The pinned size; 0 where none is pinned.
    pub expected_size: nat,
    /// The pinned digest, in hexadecimal of any case.
    pub expected_sha256: Seq<char>,
    /// The length of the partial file that the download continues.
    pub resume_from: nat,
    /// The size that the server reports; 0 where it reports none.
    pub total: nat,
    /// The bytes that stand in the file.
    pub downloaded: nat,
    /// The size of the file, once it was measured.
    pub measured: nat,
    pub phase: DownloadPhase,
}

impl DownloadView {
    /// Whether the size is the pinned one, or none is pinned.
    pub open spec fn size_matches(self, size: nat) -> bool {
        self.expected_size == 0 || size == self.expected_size
    }

    /// A file is hashed only once its size was measured and matched.
    pub open spec fn wf(self) -> bool {
        &&& self.phase is Hashing ==> self.size_matches(self.measured)
        &&& self.phase is Receiving ==> self.downloaded >= self.resume_from
    }

    /// The download in another phase.
    pub open spec fn at(self, phase: DownloadPhase) -> DownloadView {
        DownloadView { phase, ..self }
    }

    /// Giving up.
    pub open spec fn failed(self, error: Fault, remove_part: bool) -> (
        DownloadView,
        DownloadActionView,
    ) {
        (self.at(DownloadPhase::Ended), DownloadActionView::Fail { error, remove_part })
    }

    /// Whether the body of a response with this status is taken: a success,
    /// and not the whole file where only the rest was asked for.
    pub open spec fn takes(self, status: nat) -> bool {
        200 <= status < 300 && !(self.resume_from > 0 && status == 200)
    }

    /// What a response does.
    pub open spec fn on_response(
        self,
        status: nat,
        status_text: Seq<char>,
        content_length: Option<u64>,
    ) -> (DownloadView, DownloadActionView) {
        let total = self.resume_from + reported_length(content_length);
        if self.resume_from > 0 && status == 200 {
            (DownloadView { resume_from: 0, ..self }, DownloadActionView::Restart)
        } else if !(200 <= status < 300) {
            self.failed(Fault::HttpStatus { url: self.url, status: status_text }, false)
        } else if total > 0 && !self.size_matches(total) {
            self.failed(
                Fault::SizeMismatch {
                    url: self.url,
                    expected: self.expected_size,
                    reported: total,
                },
                false,
            )
        } else {
            (
                DownloadView {
                    total,
                    downloaded: self.resume_from,
                    phase: DownloadPhase::Receiving,
                    ..self
                },
                DownloadActionView::OpenPart { append: self.resume_from > 0 },
            )
        }
    }

    /// What an event does: the next state, and what the host has to do. An
    /// event that has no meaning in a phase does nothing.
    pub open spec fn step(self, event: DownloadEventView) -> (DownloadView, DownloadActionView) {
        match (self.phase, event) {
            (DownloadPhase::Ended, _) => (self, DownloadActionView::Ignore),
            (_, DownloadEventView::HostFailed(cause)) => self.failed(Fault::Host(cause), false),
            (
                DownloadPhase::Requesting,
                DownloadEventView::Response { status, status_text, content_length },
            ) => self.on_response(status, status_text, content_length),
            (DownloadPhase::Receiving, DownloadEventView::Chunk { cancelled, chunk }) => if cancelled {
                self.failed(Fault::Cancelled, false)
            } else {
                match chunk {
                    Err(cause) => self.failed(Fault::Host(cause), false),
                    Ok(len) => (
                        DownloadView { downloaded: self.downloaded + len as nat, ..self },
                        DownloadActionView::WriteChunk {
                            downloaded: self.downloaded + len as nat,
                            total: self.total,
                        },
                    ),
                }
            },
            (DownloadPhase::Receiving, DownloadEventView::StreamEnded) => (
                self.at(DownloadPhase::Measuring),
                DownloadActionView::Measure,
            ),
            (DownloadPhase::Measuring, DownloadEventView::Measured(actual)) => if self.size_matches(
                actual,
            ) {
                (
                    DownloadView { measured: actual, phase: DownloadPhase::Hashing, ..self },
                    DownloadActionView::Hash,
                )
            } else {
                self.failed(
                    Fault::Incomplete { url: self.url, expected: self.expected_size, actual },
                    true,
                )
            },
            (DownloadPhase::Hashing, DownloadEventView::Hashed(hash)) => if hash == text::lowercase(
                self.expected_sha256,
            ) {
                (self.at(DownloadPhase::Ended), DownloadActionView::Complete)
            } else {
                self.failed(Fault::HashMismatch { url: self.url }, true)
            },
            _ => (self, DownloadActionView::Ignore),
        }
    }

    /// The numbers of the event leave the counters in range.
    pub open spec fn step_fits(self, event: DownloadEventView) -> bool {
        match (self.phase, event) {
            (
                DownloadPhase::Requesting,
                DownloadEventView::Response { status, status_text, content_length },
            ) => self.takes(status) ==> self.resume_from + reported_length(content_length)
                <= u64::MAX,
            (
                DownloadPhase::Receiving,
                DownloadEventView::Chunk { cancelled: false, chunk: Ok(len) },
            ) => self.downloaded + len <= u64::MAX,
            _ => true,
        }
    }
}

/// The length that a response gives for its body; 0 where it gives none.
pub open spec fn reported_length(content_length: Option<u64>) -> nat {
    match content_length {
        Some(n) => n as nat,
        None => 0,
    }
}

/// The header that asks for everything from a position on.
pub open spec fn range_from(position: nat) -> Seq<char> {
    "bytes="@ + text::digits(position) + "-"@
}

/// A download before its first response: where a partial file stands, it
/// continues it.
pub open spec fn download_start(
    url: Seq<char>,
    expected_size: nat,
    expected_sha256: Seq<char>,
    part_len: Option<u64>,
) -> DownloadView {
    DownloadView {
        url,
        expected_size,
        expected_sha256,
        resume_from: reported_length(part_len),
        total: 0,
        downloaded: 0,
        measured: 0,
        phase: DownloadPhase::Requesting,
    }
}

/// The first request of a download: for the rest where a partial file stands.
pub open spec fn first_request(part_len: Option<u64>) -> DownloadActionView {
    DownloadActionView::Request {
        range: if reported_length(part_len) > 0 {
            Some(range_from(reported_length(part_len)))
        } else {
            None
        },
    }
}

/// A download under way.
pub struct Download {
    url: String,
    expected_size: u64,
    expected_sha256: String,
    resume_from: u64,
    total: u64,
    downloaded: u64,
    measured: u64,
    phase: DownloadPhase,
}

impl View for Download {
    type V = DownloadView;

    closed spec fn view(&self) -> DownloadView {
        DownloadView {
            url: self.url@,
            expected_size: self.expected_size as nat,
            expected_sha256: self.expected_sha256@,
            resume_from: self.resume_from as nat,
            total: self.total as nat,
            downloaded: self.downloaded as nat,
            measured: self.measured as nat,
            phase: self.phase,
        }
    }
}

impl Download {
    /// Starts a download. Where a partial file stands, `part_len` is its
    /// length, and the request asks for the rest.
    pub fn start(
        url: String,
        expected_size: u64,
        expected_sha256: String,
        part_len: Option<u64>,
    ) -> (r: (Self, DownloadAction))
        ensures
            r.0@ == download_start(url@, expected_size as nat, expected_sha256@, part_len),
            r.0@.wf(),
            r.1@ == first_request(part_len),
    {
        let resume_from: u64 = match part_len {
            Some(len) => len,
            None => 0,
        };
        let range = if resume_from > 0 {
            Some("bytes=".to_string().concat(decimal(resume_from).as_str()).concat("-"))
        } else {
            None
        };
        let download = Download {
            url,
            expected_size,
            expected_sha256,
            resume_from,
            total: 0,
            downloaded: 0,
            measured: 0,
            phase: DownloadPhase::Requesting,
        };
        (download, DownloadAction::Request { range })
    }

    /// Whether the body is arriving, and how many bytes stand in the file then.
    pub fn received(&self) -> (r: Option<u64>)
        ensures
            r == if self@.phase is Receiving {
                Some(self@.downloaded as u64)
            } else {
                None
            },
            self@.phase is Receiving ==> self@.downloaded <= u64::MAX,
    {
        match self.phase {
            DownloadPhase::Receiving => Some(self.downloaded),
            _ => None,
        }
    }

    /// Whether the event leaves the counters in range.
    pub fn fits(&self, event: &DownloadEvent) -> (r: bool)
        ensures
            r == self@.step_fits(event@),
    {
        match (self.phase, event) {
            (
                DownloadPhase::Requesting,
                DownloadEvent::Response { status, status_text: _, content_length },
            ) => {
                let taken = *status >= 200 && *status < 300 && !(self.resume_from > 0 && *status
                    == 200);
                let length: u64 = match content_length {
                    Some(n) => *n,
                    None => 0,
                };
                !taken || length <= u64::MAX - self.resume_from
            },
            (
                DownloadPhase::Receiving,
                DownloadEvent::Chunk { cancelled: false, chunk: Ok(len) },
            ) => *len <= u64::MAX - self.downloaded,
            _ => true,
        }
    }

    /// Handles one event, and says what the host has to do.
    pub fn advance(&mut self, event: DownloadEvent) -> (r: DownloadAction)
        requires
            old(self)@.step_fits(event@),
        ensures
            final(self)@ == old(self)@.step(event@).0,
            r@ == old(self)@.step(event@).1,
    {
        match (self.phase, event) {
            (DownloadPhase::Ended, _) => DownloadAction::Ignore,
            (_, DownloadEvent::HostFailed(cause)) => self.fail(RuntimeError::Host(cause), false),
            (
                DownloadPhase::Requesting,
                DownloadEvent::Response { status, status_text, content_length },
            ) => self.respond(status, status_text, content_length),
            (DownloadPhase::Receiving, DownloadEvent::Chunk { cancelled, chunk }) => {
                if cancelled {
                    return self.fail(RuntimeError::Cancelled, false);
                }
                match chunk {
                    Err(cause) => self.fail(RuntimeError::Host(cause), false),
                    Ok(len) => {
                        self.downloaded = self.downloaded + len;
                        DownloadAction::WriteChunk {
                            downloaded: self.downloaded,
                            total: self.total,
                        }
                    },
                }
            },
            (DownloadPhase::Receiving, DownloadEvent::StreamEnded) => {
                self.phase = DownloadPhase::Measuring;
                DownloadAction::Measure
            },
            (DownloadPhase::Measuring, DownloadEvent::Measured(actual)) => {
                if self.expected_size > 0 && actual != self.expected_size {
                    let error = RuntimeError::Incomplete {
                        url: self.url.clone(),
                        expected: self.expected_size,
                        actual,
                    };
                    return self.fail(error, true);
                }
                self.measured = actual;
                self.phase = DownloadPhase::Hashing;
                DownloadAction::Hash
            },
            (DownloadPhase::Hashing, DownloadEvent::Hashed(hash)) => {
                let expected = to_lowercase(self.expected_sha256.as_str());
                if hash != expected {
                    let error = RuntimeError::HashMismatch { url: self.url.clone() };
                    return self.fail(error, true);
                }
                self.phase = DownloadPhase::Ended;
                DownloadAction::Complete
            },
            _ => DownloadAction::Ignore,
        }
    }

    /// Handles the bytes of the file: computes their digest, and says what the
    /// host has to do.
    pub fn check_file(&mut self, data: &[u8]) -> (r: DownloadAction)
        ensures
            final(self)@ == old(self)@.step(
                DownloadEventView::Hashed(digest::hex(digest::sha256(data@))),
            ).0,
            r@ == old(self)@.step(
                DownloadEventView::Hashed(digest::hex(digest::sha256(data@))),
            ).1,
    {
        self.advance(DownloadEvent::Hashed(file_digest(data)))
    }

    /// Handles a response.
    fn respond(&mut self, status: u16, status_text: String, content_length: Option<u64>) -> (r:
        DownloadAction)
        requires
            old(self)@.takes(status as nat) ==> old(self)@.resume_from + reported_length(
                content_length,
            ) <= u64::MAX,
        ensures
            final(self)@ == old(self)@.on_response(
                status as nat,
                status_text@,
                content_length,
            ).0,
            r@ == old(self)@.on_response(status as nat, status_text@, content_length).1,
    {
        if self.resume_from > 0 && status == 200 {
            // The server ignored the range: start over.
            self.resume_from = 0;
            return DownloadAction::Restart;
        }
        if status < 200 || status >= 300 {
            let error = RuntimeError::HttpStatus { url: self.url.clone(), status: status_text };
            return self.fail(error, false);
        }
        let length: u64 = match content_length {
            Some(n) => n,
            None => 0,
        };
        let total: u64 = self.resume_from + length;
        if self.expected_size > 0 && total > 0 && total != self.expected_size {
            let error = RuntimeError::SizeMismatch {
                url: self.url.clone(),
                expected: self.expected_size,
                reported: total,
            };
            return self.fail(error, false);
        }
        self.total = total;
        self.downloaded = self.resume_from;
        self.phase = DownloadPhase::Receiving;
        DownloadAction::OpenPart { append: self.resume_from > 0 }
    }

    /// Gives up.
    fn fail(&mut self, error: RuntimeError, remove_part: bool) -> (r: DownloadAction)
        ensures
            final(self)@ == old(self)@.failed(error@, remove_part).0,
            r@ == old(self)@.failed(error@, remove_part).1,
    {
        self.phase = DownloadPhase::Ended;
        DownloadAction::Fail { error, remove_part }
    }
}

/// Every event keeps a download well formed, and what is pinned stays pinned.
pub proof fn law_download_keeps_wf(d: DownloadView, event: DownloadEventView)
    requires
        d.wf(),
    ensures
        ({
            let next = d.step(event).0;
            &&& next.wf()
            &&& next.url == d.url
            &&& next.expected_size == d.expected_size
            &&& next.expected_sha256 == d.expected_sha256
        }),
{
}

/// A download completes only with the pinned digest, and with the pinned size
/// where one is pinned.
pub proof fn law_complete_is_verified(d: DownloadView, event: DownloadEventView)
    requires
        d.wf(),
        d.step(event).1 is Complete,
    ensures
        event == DownloadEventView::Hashed(text::lowercase(d.expected_sha256)),
        d.size_matches(d.measured),
{
}

/// Of a file with the right size, the digest of its bytes decides: the pinned
/// one completes the download, and any other one fails it.
pub proof fn law_digest_decides(d: DownloadView, data: Seq<u8>)
    requires
        d.phase is Hashing,
    ensures
        ({
            let hash = digest::hex(digest::sha256(data));
            let action = d.step(DownloadEventView::Hashed(hash)).1;
            &&& action is Complete <==> hash == text::lowercase(d.expected_sha256)
            &&& !(action is Complete) ==> action == (DownloadActionView::Fail {
                error: Fault::HashMismatch { url: d.url },
                remove_part: true,
            })
        }),
{
}

/// A file of the wrong size or the wrong digest is removed; after every other
/// failure the partial file stays, for the next download to continue.
pub proof fn law_part_removed_iff_useless(d: DownloadView, event: DownloadEventView)
    requires
        d.step(event).1 is Fail,
    ensures
        d.step(event).1 matches DownloadActionView::Fail { error, remove_part } && (remove_part
            <==> error is Incomplete || error is HashMismatch),
{
}

/// A server that ignores the range makes the download start over once: the
/// next response with that status is taken.
pub proof fn law_restart_happens_once(
    d: DownloadView,
    first: DownloadEventView,
    second: DownloadEventView,
)
    requires
        d.step(first).1 is Restart,
    ensures
        d.step(first).0.resume_from == 0,
        d.step(first).0.phase is Requesting,
        !(d.step(first).0.step(second).1 is Restart),
{
}

/// The progress of a row of pieces: each adds its length, from where the
/// partial file ended.
pub proof fn law_progress_adds_up(d: DownloadView, len: u64)
    requires
        d.wf(),
        d.phase is Receiving,
    ensures
        ({
            let event = DownloadEventView::Chunk { cancelled: false, chunk: Ok(len) };
            let (next, action) = d.step(event);
            &&& next == (DownloadView { downloaded: d.downloaded + len as nat, ..d })
            &&& action == (DownloadActionView::WriteChunk {
                downloaded: d.downloaded + len as nat,
                total: d.total,
            })
        }),
{
}

/// A cancelled install fails at the next piece, and keeps the partial file.
pub proof fn law_cancel_stops_download(d: DownloadView, chunk: Result<u64, Seq<char>>)
    requires
        d.phase is Receiving,
    ensures
        d.step(DownloadEventView::Chunk { cancelled: true, chunk }) == (
            d.at(DownloadPhase::Ended),
            DownloadActionView::Fail { error: Fault::Cancelled, remove_part: false },
        ),
{
}

/// A download that has ended answers nothing.
pub proof fn law_ended_download_is_silent(d: DownloadView, event: DownloadEventView)
    requires
        d.phase is Ended,
    ensures
        d.step(event) == (d, DownloadActionView::Ignore),
{
}

/// The first request asks for everything where no partial file stands, and for
/// the rest, from its length in decimal on, where one does.
pub proof fn law_first_request_asks_for_the_rest(part_len: Option<u64>)
    ensures
        match part_len {
            Some(n) if n > 0 => first_request(part_len) == (DownloadActionView::Request {
                range: Some("bytes="@ + text::digits(n as nat) + "-"@),
            }),
            _ => first_request(part_len) == (DownloadActionView::Request { range: None }),
        },
{
}

/// A download starts with what is pinned, where the partial file ends.
pub proof fn law_download_starts_with_the_pin(
    url: Seq<char>,
    size: nat,
    sha256: Seq<char>,
    part_len: Option<u64>,
)
    ensures
        ({
            let d = download_start(url, size, sha256, part_len);
            &&& d.url == url
            &&& d.expected_size == size
            &&& d.expected_sha256 == sha256
            &&& d.phase is Requesting
            &&& part_len is None ==> d.resume_from == 0
            &&& part_len matches Some(n) ==> d.resume_from == n
        }),
{
}

/// What a response leads to. The whole file, where only the rest was asked for,
/// makes the download start over. A status that is no success fails it. A size
/// that is reported and is not the pinned one fails it. Otherwise the body is
/// taken, behind the partial file where there is one.
pub proof fn law_response_decides(
    d: DownloadView,
    status: nat,
    status_text: Seq<char>,
    content_length: Option<u64>,
)
    requires
        d.phase is Requesting,
    ensures
        ({
            let event = DownloadEventView::Response { status, status_text, content_length };
            let (next, action) = d.step(event);
            let length: nat = match content_length {
                Some(n) => n as nat,
                None => 0,
            };
            let whole = d.resume_from + length;
            let success = 200 <= status && status <= 299;
            let ignored = d.resume_from > 0 && status == 200;
            let wrong_size = d.expected_size > 0 && whole > 0 && whole != d.expected_size;
            &&& action is Restart <==> ignored
            &&& ignored ==> next == (DownloadView { resume_from: 0, ..d })
            &&& !success ==> next.phase is Ended && action == (DownloadActionView::Fail {
                error: Fault::HttpStatus { url: d.url, status: status_text },
                remove_part: false,
            })
            &&& success && !ignored && wrong_size ==> next.phase is Ended && action == (
            DownloadActionView::Fail {
                error: Fault::SizeMismatch {
                    url: d.url,
                    expected: d.expected_size,
                    reported: whole,
                },
                remove_part: false,
            })
            &&& success && !ignored && !wrong_size ==> {
                &&& action == (DownloadActionView::OpenPart { append: d.resume_from > 0 })
                &&& next.phase is Receiving
                &&& next.downloaded == d.resume_from
                &&& next.total == whole
            }
        }),
{
}

/// What the body leads to: a broken stream fails the download with its cause,
/// and the end of the body has the file measured.
pub proof fn law_body_decides(d: DownloadView, cause: Seq<char>)
    requires
        d.phase is Receiving,
    ensures
        d.step(DownloadEventView::Chunk { cancelled: false, chunk: Err(cause) }) == (
            DownloadView { phase: DownloadPhase::Ended, ..d },
            DownloadActionView::Fail { error: Fault::Host(cause), remove_part: false },
        ),
        d.step(DownloadEventView::StreamEnded) == (
            DownloadView { phase: DownloadPhase::Measuring, ..d },
            DownloadActionView::Measure,
        ),
{
}

/// What the size of the file leads to: the pinned one, or any where none is
/// pinned, has the file hashed; another one fails the download.
pub proof fn law_size_decides(d: DownloadView, actual: nat)
    requires
        d.phase is Measuring,
    ensures
        ({
            let (next, action) = d.step(DownloadEventView::Measured(actual));
            if d.expected_size == 0 || actual == d.expected_size {
                action is Hash && next == (DownloadView {
                    phase: DownloadPhase::Hashing,
                    measured: actual,
                    ..d
                })
            } else {
                next.phase is Ended && action == (DownloadActionView::Fail {
                    error: Fault::Incomplete { url: d.url, expected: d.expected_size, actual },
                    remove_part: true,
                })
            }
        }),
{
}

/// What the digest of the file leads to, in any spelling of the pinned one that
/// lowercasing makes the same.
pub proof fn law_digest_is_compared_in_lowercase(d: DownloadView, hash: Seq<char>)
    requires
        d.phase is Hashing,
    ensures
        d.step(DownloadEventView::Hashed(hash)) == (
            DownloadView { phase: DownloadPhase::Ended, ..d },
            if hash == text::lowercase(d.expected_sha256) {
                DownloadActionView::Complete
            } else {
                DownloadActionView::Fail {
                    error: Fault::HashMismatch { url: d.url },
                    remove_part: true,
                }
            },
        ),
{
}

/// A failure of the host ends a download that is under way, with its cause.
pub proof fn law_host_failure_ends_download(d: DownloadView, cause: Seq<char>)
    requires
        !(d.phase is Ended),
    ensures
        d.step(DownloadEventView::HostFailed(cause)) == (
            DownloadView { phase: DownloadPhase::Ended, ..d },
            DownloadActionView::Fail { error: Fault::Host(cause), remove_part: false },
        ),
{
}

/// An event that has no meaning in a phase does nothing.
pub proof fn law_misplaced_report_does_nothing(d: DownloadView, event: DownloadEventView)
    requires
        !(event is HostFailed),
        event is Response ==> !(d.phase is Requesting),
        event is Chunk || event is StreamEnded ==> !(d.phase is Receiving),
        event is Measured ==> !(d.phase is Measuring),
        event is Hashed ==> !(d.phase is Hashing),
    ensures
        d.step(event) == (d, DownloadActionView::Ignore),
{
}

/// What an event holds is what it says.
pub proof fn law_download_events_say_what_they_hold(
    status: u16,
    words: String,
    content_length: Option<u64>,
    cancelled: bool,
    n: u64,
)
    ensures
        (DownloadEvent::Response { status, status_text: words, content_length })@ == (
        DownloadEventView::Response {
            status: status as nat,
            status_text: words@,
            content_length,
        }),
        (DownloadEvent::Chunk { cancelled, chunk: Ok(n) })@ == (DownloadEventView::Chunk {
            cancelled,
            chunk: Ok(n),
        }),
        (DownloadEvent::Chunk { cancelled, chunk: Err(words) })@ == (DownloadEventView::Chunk {
            cancelled,
            chunk: Err(words@),
        }),
        DownloadEvent::StreamEnded@ is StreamEnded,
        DownloadEvent::Measured(n)@ == DownloadEventView::Measured(n as nat),
        DownloadEvent::Hashed(words)@ == DownloadEventView::Hashed(words@),
        DownloadEvent::HostFailed(words)@ == DownloadEventView::HostFailed(words@),
{
}

/// What an action asks is what it holds.
pub proof fn law_download_actions_ask_what_they_hold(
    header: String,
    append: bool,
    n: u64,
    k: u64,
    error: RuntimeError,
    remove_part: bool,
)
    ensures
        (DownloadAction::Request { range: Some(header) })@ == (DownloadActionView::Request {
            range: Some(header@),
        }),
        (DownloadAction::Request { range: None })@ == (DownloadActionView::Request {
            range: None,
        }),
        DownloadAction::Restart@ is Restart,
        (DownloadAction::OpenPart { append })@ == (DownloadActionView::OpenPart { append }),
        (DownloadAction::WriteChunk { downloaded: n, total: k })@ == (
        DownloadActionView::WriteChunk { downloaded: n as nat, total: k as nat }),
        DownloadAction::Measure@ is Measure,
        DownloadAction::Hash@ is Hash,
        (DownloadAction::Fail { error, remove_part })@ == (DownloadActionView::Fail {
            error: error@,
            remove_part,
        }),
        DownloadAction::Complete@ is Complete,
        DownloadAction::Ignore@ is Ignore,
{
}

} // verus!
