//! The bundled Qwen3-ASR runtime: an embedded Python with PyTorch and
//! `qwen-asr`, installed as a component from a pinned manifest.
//!
//! This module holds what is pinned, what can go wrong, who may install when,
//! and the rules for names and files of the component.

use crate::text;
use crate::text::{decimal, is_alphanumeric, trimmed, CharClass};
use vstd::prelude::*;

verus! {

/// The directory of the installed runtime, below the app data.
pub const RUNTIME_DIR: &'static str = "qwen-runtime";

/// The directory in which a new runtime is put together.
pub const STAGING_DIR: &'static str = "qwen-runtime.staging";

/// The directory of partial downloads.
pub const CACHE_DIR: &'static str = "qwen-runtime.cache";

/// The directory of the runtime that is being replaced.
pub const OLD_DIR: &'static str = "qwen-runtime.old";

/// The file in the runtime directory that marks a complete install.
pub const SENTINEL_FILE: &'static str = ".installed";

/// The interpreter in the runtime directory.
pub const PYTHON_EXE: &'static str = "python.exe";

/// At most one progress event is emitted in this many milliseconds.
pub const THROTTLE_MILLIS: u64 = 100;

/// One pinned archive.
#[derive(Debug, Clone)]
pub struct RuntimeArchive {
    pub name: String,
    pub url: String,
    pub sha256: String,
    pub size_bytes: u64,
    pub extract: String,
}

/// A pinned archive over characters.
pub struct ArchiveView {
    pub name: Seq<char>,
    pub url: Seq<char>,
    pub sha256: Seq<char>,
    pub size_bytes: nat,
    pub extract: Seq<char>,
}

impl View for RuntimeArchive {
    type V = ArchiveView;

    open spec fn view(&self) -> ArchiveView {
        ArchiveView {
            name: self.name@,
            url: self.url@,
            sha256: self.sha256@,
            size_bytes: self.size_bytes as nat,
            extract: self.extract@,
        }
    }
}

/// The pinned archives of one version of the runtime.
#[derive(Debug, Clone)]
pub struct RuntimeManifest {
    pub version: String,
    pub install_bytes: u64,
    pub archives: Vec<RuntimeArchive>,
}

/// What the archives of a list say.
pub open spec fn archive_views(list: Seq<RuntimeArchive>) -> Seq<ArchiveView> {
    Seq::new(list.len(), |i: int| list[i]@)
}

/// The sizes of the archives, added up.
pub open spec fn total_size(archives: Seq<ArchiveView>) -> nat
    decreases archives.len(),
{
    if archives.len() == 0 {
        0
    } else {
        total_size(archives.drop_last()) + archives.last().size_bytes
    }
}

/// The first archives are no larger than all of them.
pub proof fn lemma_total_size_of_front(archives: Seq<ArchiveView>, n: int)
    requires
        0 <= n <= archives.len(),
    ensures
        total_size(archives.take(n)) <= total_size(archives),
        n < archives.len() ==> total_size(archives.take(n)) + archives[n].size_bytes
            == total_size(archives.take(n + 1)),
    decreases archives.len() - n,
{
    if n == archives.len() {
        assert(archives.take(n) =~= archives);
    } else {
        assert(archives.take(n + 1).drop_last() =~= archives.take(n));
        lemma_total_size_of_front(archives, n + 1);
    }
}

/// What can go wrong with the runtime.
#[derive(Debug)]
pub enum RuntimeError {
    AlreadyInstalling,
    Cancelled,
    HttpStatus { url: String, status: String },
    SizeMismatch { url: String, expected: u64, reported: u64 },
    Incomplete { url: String, expected: u64, actual: u64 },
    HashMismatch { url: String },
    UnsupportedArchive { name: String },
    MissingFile { rel: String },
    UnsafePath { archive: String, name: String },
    RenameFailed { from: String, to: String, cause: String },
    ActivationFailed { cause: String },
    WindowsOnly,
    NotInstalled,
    /// A failure of the host, in its own words.
    Host(String),
}

/// What went wrong, over characters.
pub enum Fault {
    AlreadyInstalling,
    Cancelled,
    HttpStatus { url: Seq<char>, status: Seq<char> },
    SizeMismatch { url: Seq<char>, expected: nat, reported: nat },
    Incomplete { url: Seq<char>, expected: nat, actual: nat },
    HashMismatch { url: Seq<char> },
    UnsupportedArchive { name: Seq<char> },
    MissingFile { rel: Seq<char> },
    UnsafePath { archive: Seq<char>, name: Seq<char> },
    RenameFailed { from: Seq<char>, to: Seq<char>, cause: Seq<char> },
    ActivationFailed { cause: Seq<char> },
    WindowsOnly,
    NotInstalled,
    Host(Seq<char>),
}

impl View for RuntimeError {
    type V = Fault;

    open spec fn view(&self) -> Fault {
        match *self {
            RuntimeError::AlreadyInstalling => Fault::AlreadyInstalling,
            RuntimeError::Cancelled => Fault::Cancelled,
            RuntimeError::HttpStatus { url, status } => Fault::HttpStatus {
                url: url@,
                status: status@,
            },
            RuntimeError::SizeMismatch { url, expected, reported } => Fault::SizeMismatch {
                url: url@,
                expected: expected as nat,
                reported: reported as nat,
            },
            RuntimeError::Incomplete { url, expected, actual } => Fault::Incomplete {
                url: url@,
                expected: expected as nat,
                actual: actual as nat,
            },
            RuntimeError::HashMismatch { url } => Fault::HashMismatch { url: url@ },
            RuntimeError::UnsupportedArchive { name } => Fault::UnsupportedArchive { name: name@ },
            RuntimeError::MissingFile { rel } => Fault::MissingFile { rel: rel@ },
            RuntimeError::UnsafePath { archive, name } => Fault::UnsafePath {
                archive: archive@,
                name: name@,
            },
            RuntimeError::RenameFailed { from, to, cause } => Fault::RenameFailed {
                from: from@,
                to: to@,
                cause: cause@,
            },
            RuntimeError::ActivationFailed { cause } => Fault::ActivationFailed { cause: cause@ },
            RuntimeError::WindowsOnly => Fault::WindowsOnly,
            RuntimeError::NotInstalled => Fault::NotInstalled,
            RuntimeError::Host(cause) => Fault::Host(cause@),
        }
    }
}

impl Fault {
    /// The message that the user reads.
    pub open spec fn message(self) -> Seq<char> {
        match self {
            Fault::AlreadyInstalling => "Qwen runtime install is already in progress"@,
            Fault::Cancelled => "Download cancelled"@,
            Fault::HttpStatus { url, status } => "Failed to download "@ + url + ": HTTP "@ + status,
            Fault::SizeMismatch { url, expected, reported } => "Download size mismatch for "@ + url
                + ": expected "@ + text::digits(expected) + " bytes, server reports "@
                + text::digits(reported),
            Fault::Incomplete { url, expected, actual } => "Download incomplete for "@ + url
                + ": expected "@ + text::digits(expected) + " bytes, got "@ + text::digits(actual),
            Fault::HashMismatch { url } => "SHA256 mismatch for "@ + url
                + ": file is corrupt. Please retry."@,
            Fault::UnsupportedArchive { name } =>
                "Unsupported archive type in runtime manifest: "@ + name,
            Fault::MissingFile { rel } => "Qwen runtime payload is incomplete: missing "@ + rel,
            Fault::UnsafePath { archive, name } => "Unsafe path in archive "@ + archive + ": "@
                + name,
            Fault::RenameFailed { from, to, cause } => "Failed to rename "@ + from + " → "@ + to
                + ": "@ + cause,
            Fault::ActivationFailed { cause } =>
                "Failed to activate Qwen runtime (is the model still loaded? Unload it and retry): "@
                + cause,
            Fault::WindowsOnly => "The bundled Qwen runtime is currently Windows-only"@,
            Fault::NotInstalled =>
                "Qwen runtime is not installed. Download it from the model settings."@,
            Fault::Host(cause) => cause,
        }
    }
}

impl RuntimeError {
    /// The message that the user reads.
    pub fn message(&self) -> (r: String)
        ensures
            r@ == self@.message(),
    {
        match self {
            RuntimeError::AlreadyInstalling =>
                "Qwen runtime install is already in progress".to_string(),
            RuntimeError::Cancelled => "Download cancelled".to_string(),
            RuntimeError::HttpStatus { url, status } => {
                "Failed to download ".to_string().concat(url.as_str()).concat(": HTTP ").concat(
                    status.as_str(),
                )
            },
            RuntimeError::SizeMismatch { url, expected, reported } => {
                "Download size mismatch for ".to_string().concat(url.as_str()).concat(
                    ": expected ",
                ).concat(decimal(*expected).as_str()).concat(" bytes, server reports ").concat(
                    decimal(*reported).as_str(),
                )
            },
            RuntimeError::Incomplete { url, expected, actual } => {
                "Download incomplete for ".to_string().concat(url.as_str()).concat(
                    ": expected ",
                ).concat(decimal(*expected).as_str()).concat(" bytes, got ").concat(
                    decimal(*actual).as_str(),
                )
            },
            RuntimeError::HashMismatch { url } => {
                "SHA256 mismatch for ".to_string().concat(url.as_str()).concat(
                    ": file is corrupt. Please retry.",
                )
            },
            RuntimeError::UnsupportedArchive { name } => {
                "Unsupported archive type in runtime manifest: ".to_string().concat(name.as_str())
            },
            RuntimeError::MissingFile { rel } => {
                "Qwen runtime payload is incomplete: missing ".to_string().concat(rel.as_str())
            },
            RuntimeError::UnsafePath { archive, name } => {
                "Unsafe path in archive ".to_string().concat(archive.as_str()).concat(
                    ": ",
                ).concat(name.as_str())
            },
            RuntimeError::RenameFailed { from, to, cause } => {
                "Failed to rename ".to_string().concat(from.as_str()).concat(" → ").concat(
                    to.as_str(),
                ).concat(": ").concat(cause.as_str())
            },
            RuntimeError::ActivationFailed { cause } => {
                "Failed to activate Qwen runtime (is the model still loaded? Unload it and retry): ".to_string().concat(
                cause.as_str())
            },
            RuntimeError::WindowsOnly =>
                "The bundled Qwen runtime is currently Windows-only".to_string(),
            RuntimeError::NotInstalled =>
                "Qwen runtime is not installed. Download it from the model settings.".to_string(),
            RuntimeError::Host(cause) => cause.clone(),
        }
    }
}

/// What the download command answers when an install failed.
pub fn install_failure(error: &RuntimeError) -> (r: String)
    ensures
        r@ == "Qwen runtime install failed: "@ + error@.message(),
{
    "Qwen runtime install failed: ".to_string().concat(error.message().as_str())
}

/// Where the bundled interpreter stands: the directory below the app data, and
/// the file in it. The pinned manifest is for Windows only.
pub fn python_executable(windows: bool, exe_present: bool) -> (r: Result<
    (&'static str, &'static str),
    RuntimeError,
>)
    ensures
        match r {
            Ok(place) => windows && exe_present && place.0@ == "qwen-runtime"@ && place.1@
                == "python.exe"@,
            Err(e) => if !windows {
                e@ is WindowsOnly
            } else {
                !exe_present && e@ is NotInstalled
            },
        },
{
    if !windows {
        Err(RuntimeError::WindowsOnly)
    } else if !exe_present {
        Err(RuntimeError::NotInstalled)
    } else {
        Ok((RUNTIME_DIR, PYTHON_EXE))
    }
}

/// The version that the marker of an install holds.
pub fn installed_version(marker: &str) -> (r: String)
    ensures
        r@ == text::strip(marker@, CharClass::Blank),
{
    trimmed(marker)
}

/// A character of a file name: letters, numbers, `.`, `-` and `_` stand,
/// everything else becomes `_`.
pub open spec fn sanitized_char(c: char) -> char {
    if text::alphanumeric(c) || c == '.' || c == '-' || c == '_' {
        c
    } else {
        '_'
    }
}

/// A name made safe for use as a file name.
pub open spec fn sanitized(name: Seq<char>) -> Seq<char> {
    name.map_values(|c: char| sanitized_char(c))
}

/// A name made safe for use as a file name.
pub fn sanitize_component(name: &str) -> (r: String)
    ensures
        r@ == sanitized(name@),
{
    let mut out = String::new();
    for c in it: name.chars()
        invariant
            it.seq() == name@,
            out@ == sanitized(name@.take(it.index() as int)),
    {
        proof {
            assert(sanitized(name@.take(it.index() + 1)) =~= sanitized(
                name@.take(it.index() as int),
            ).push(sanitized_char(c)));
        }
        if is_alphanumeric(c) || c == '.' || c == '-' || c == '_' {
            out.push(c);
        } else {
            out.push('_');
        }
    }
    assert(name@.take(name@.len() as int) =~= name@);
    out
}

/// Whether a text can stand as one component of a path: of ASCII it holds only
/// letters, digits, `.`, `-` and `_`, so nothing that separates directories or
/// names a drive.
pub open spec fn plain_name(name: Seq<char>) -> bool {
    forall|i: int|
        0 <= i < name.len() && #[trigger] name[i] <= '\u{7f}' ==> text::ascii_alphanumeric(name[i])
            || name[i] == '.' || name[i] == '-' || name[i] == '_'
}

/// A sanitized name is as long as the name, holds only letters, numbers, `.`,
/// `-` and `_`, and stays as it is when it is sanitized again. It has no `/`,
/// `\` or `:`.
pub proof fn law_sanitized(name: Seq<char>)
    ensures
        sanitized(name).len() == name.len(),
        forall|i: int|
            0 <= i < name.len() ==> {
                let c = #[trigger] sanitized(name)[i];
                text::alphanumeric(c) || c == '.' || c == '-' || c == '_'
            },
        plain_name(sanitized(name)),
        !sanitized(name).contains('/'),
        !sanitized(name).contains('\\'),
        !sanitized(name).contains(':'),
        sanitized(sanitized(name)) == sanitized(name),
{
    assert(sanitized(sanitized(name)) =~= sanitized(name));
}

/// Whether a progress event is due, this many milliseconds after the last.
pub fn progress_due(elapsed_millis: u64) -> (r: bool)
    ensures
        r == (elapsed_millis >= 100),
{
    elapsed_millis >= THROTTLE_MILLIS
}

/// One entry of a zip archive: its name, its path where that stays inside the
/// directory it is extracted to, and whether it is a directory.
#[derive(Debug)]
pub struct ZipEntry {
    pub name: String,
    pub enclosed: Option<String>,
    pub is_dir: bool,
}

/// What is done with an entry, by its path below the target directory.
#[derive(Debug)]
pub enum EntryAction {
    CreateDir(String),
    WriteFile(String),
}

/// Flat extraction of one entry, directly into the component root. An entry
/// whose path would leave it is refused.
pub fn extract_entry(archive: &str, entry: ZipEntry) -> (r: Result<EntryAction, RuntimeError>)
    ensures
        match r {
            Ok(EntryAction::CreateDir(path)) => entry.enclosed == Some(path) && entry.is_dir,
            Ok(EntryAction::WriteFile(path)) => entry.enclosed == Some(path) && !entry.is_dir,
            Err(e) => entry.enclosed is None && e@ == (Fault::UnsafePath {
                archive: archive@,
                name: entry.name@,
            }),
        },
{
    match entry.enclosed {
        None => Err(RuntimeError::UnsafePath { archive: archive.to_owned(), name: entry.name }),
        Some(path) => if entry.is_dir {
            Ok(EntryAction::CreateDir(path))
        } else {
            Ok(EntryAction::WriteFile(path))
        },
    }
}

/// The files that a complete payload has.
pub open spec fn required() -> Seq<Seq<char>> {
    seq![
        "python.exe"@,
        "python312.dll"@,
        "python312.zip"@,
        "qwen_asr/__init__.py"@,
        "torch/__init__.py"@,
    ]
}

/// The files that a complete payload has, in the order in which they are
/// looked for.
pub fn required_files() -> (r: Vec<&'static str>)
    ensures
        r@.len() == required().len(),
        forall|i: int| 0 <= i < required().len() ==> (#[trigger] r@[i])@ == required()[i],
{
    vec![
        "python.exe",
        "python312.dll",
        "python312.zip",
        "qwen_asr/__init__.py",
        "torch/__init__.py",
    ]
}

/// A file to write below the staging directory.
#[derive(Debug)]
pub struct FileWrite {
    pub path: String,
    pub contents: String,
}

/// Integrity check and configuration of an extracted payload. `present` says
/// of each required file whether it is there. The first one missing is
/// reported; otherwise two files are written: the search path, so that the
/// interpreter only ever searches its own directory, and the version.
pub fn finalize_runtime_dir(present: &Vec<bool>, version: &str) -> (r: Result<
    Vec<FileWrite>,
    RuntimeError,
>)
    requires
        present@.len() == required().len(),
    ensures
        r is Ok <==> forall|i: int| 0 <= i < present@.len() ==> #[trigger] present@[i],
        r matches Ok(writes) ==> {
            &&& writes@.len() == 2
            &&& writes@[0].path@ == "python312._pth"@
            &&& writes@[0].contents@ == "python312.zip\n.\nimport site\n"@
            &&& writes@[1].path@ == ".runtime-version"@
            &&& writes@[1].contents@ == version@
        },
        r matches Err(e) ==> exists|i: int|
            {
                &&& 0 <= i < present@.len()
                &&& !#[trigger] present@[i]
                &&& forall|k: int| 0 <= k < i ==> #[trigger] present@[k]
                &&& e@ == (Fault::MissingFile { rel: required()[i] })
            },
{
    let files = required_files();
    let mut i: usize = 0;
    while i < present.len()
        invariant
            i <= present@.len(),
            present@.len() == required().len(),
            files@.len() == required().len(),
            forall|k: int|
                0 <= k < required().len() ==> (#[trigger] files@[k])@ == required()[k],
            forall|k: int| 0 <= k < i ==> #[trigger] present@[k],
        decreases present@.len() - i,
    {
        if !present[i] {
            return Err(RuntimeError::MissingFile { rel: files[i].to_owned() });
        }
        i += 1;
    }
    Ok(
        vec![
            FileWrite {
                path: "python312._pth".to_string(),
                contents: "python312.zip\n.\nimport site\n".to_string(),
            },
            FileWrite { path: ".runtime-version".to_string(), contents: version.to_owned() },
        ],
    )
}

/// How often a rename is tried.
pub const RENAME_ATTEMPTS: u32 = 16;

/// The pause after a failed rename, in milliseconds.
pub const RENAME_PAUSE_MILLIS: u64 = 500;

/// What follows a try of a rename.
#[derive(Debug, Clone, Copy, PartialEq, Eq, Structural)]
pub enum RetryStep {
    Done,
    /// Wait, then try again.
    PauseThenRetry(u64),
    /// Wait, then report the last failure.
    PauseThenFail(u64),
}

/// What follows the try number `attempt`, counted from 1: transient file locks
/// are waited out, for a limited number of tries.
pub fn rename_with_retry(attempt: u32, succeeded: bool) -> (r: RetryStep)
    ensures
        r == if succeeded {
            RetryStep::Done
        } else if attempt < 16 {
            RetryStep::PauseThenRetry(500)
        } else {
            RetryStep::PauseThenFail(500)
        },
{
    if succeeded {
        RetryStep::Done
    } else if attempt < RENAME_ATTEMPTS {
        RetryStep::PauseThenRetry(RENAME_PAUSE_MILLIS)
    } else {
        RetryStep::PauseThenFail(RENAME_PAUSE_MILLIS)
    }
}

/// What the settings page shows of the runtime.
#[derive(Debug, Clone)]
pub struct QwenRuntimeStatus {
    pub installed: bool,
    pub version: Option<String>,
    pub installing: bool,
    pub downloaded_bytes: u64,
    pub total_bytes: u64,
}

/// A change of the install state, for the user interface.
#[derive(Debug)]
pub struct RuntimeStatusEvent {
    pub state: String,
    pub error: Option<String>,
}

/// Who may install: one install at a time, and whether it was cancelled.
pub struct QwenRuntimeManager {
    installing: bool,
    cancel_flag: bool,
    progress: (u64, u64),
}

/// The state of the manager.
pub struct ManagerView {
    pub installing: bool,
    pub cancelled: bool,
    pub progress: (u64, u64),
}

impl View for QwenRuntimeManager {
    type V = ManagerView;

    closed spec fn view(&self) -> ManagerView {
        ManagerView {
            installing: self.installing,
            cancelled: self.cancel_flag,
            progress: self.progress,
        }
    }
}

impl QwenRuntimeManager {
    /// A manager with nothing under way.
    pub fn new() -> (r: Self)
        ensures
            r@ == (ManagerView { installing: false, cancelled: false, progress: (0, 0) }),
    {
        QwenRuntimeManager { installing: false, cancel_flag: false, progress: (0, 0) }
    }

    /// The status, with what the disk says of the install.
    pub fn status(&self, installed: bool, version: Option<String>) -> (r: QwenRuntimeStatus)
        ensures
            r == (QwenRuntimeStatus {
                installed,
                version,
                installing: self@.installing,
                downloaded_bytes: self@.progress.0,
                total_bytes: self@.progress.1,
            }),
    {
        QwenRuntimeStatus {
            installed,
            version,
            installing: self.installing,
            downloaded_bytes: self.progress.0,
            total_bytes: self.progress.1,
        }
    }

    /// Asks the install under way to stop.
    pub fn cancel_download(&mut self)
        ensures
            final(self)@ == (ManagerView { cancelled: true, ..old(self)@ }),
    {
        self.cancel_flag = true;
    }

    /// Whether the install under way was asked to stop.
    pub fn is_cancelled(&self) -> (r: bool)
        ensures
            r == self@.cancelled,
    {
        self.cancel_flag
    }

    /// Claims the install: refused while another one is under way.
    pub fn claim_install(&mut self) -> (r: Result<(), RuntimeError>)
        ensures
            r is Err <==> old(self)@.installing,
            r matches Err(e) ==> e@ is AlreadyInstalling,
            final(self)@ == (ManagerView { installing: true, ..old(self)@ }),
    {
        if self.installing {
            return Err(RuntimeError::AlreadyInstalling);
        }
        self.installing = true;
        Ok(())
    }

    /// An install really starts: an earlier cancellation is forgotten. The
    /// event tells the user interface.
    pub fn start_install(&mut self) -> (r: RuntimeStatusEvent)
        ensures
            final(self)@ == (ManagerView { cancelled: false, ..old(self)@ }),
            r.state@ == "installing"@,
            r.error is None,
    {
        self.cancel_flag = false;
        RuntimeStatusEvent { state: "installing".to_string(), error: None }
    }

    /// The install is over. A failure after a cancellation is reported as the
    /// cancellation; the event tells the user interface.
    pub fn finish_install(&mut self, result: Result<(), RuntimeError>) -> (r: (
        RuntimeStatusEvent,
        Result<(), RuntimeError>,
    ))
        ensures
            ({
                let (event, outcome) = r;
                match result {
                    Ok(_) => {
                        &&& final(self)@ == (ManagerView {
                            installing: false,
                            progress: (0, 0),
                            ..old(self)@
                        })
                        &&& event.state@ == "installed"@
                        &&& event.error is None
                        &&& outcome is Ok
                    },
                    Err(e) => {
                        &&& final(self)@ == (ManagerView { installing: false, ..old(self)@ })
                        &&& outcome matches Err(reported) && event.error matches Some(message) && {
                            &&& message@ == reported@.message()
                            &&& if old(self)@.cancelled {
                                event.state@ == "cancelled"@ && reported@ is Cancelled
                            } else {
                                event.state@ == "failed"@ && reported@ == e@
                            }
                        }
                    },
                }
            }),
    {
        self.installing = false;
        match result {
            Ok(_) => {
                self.progress = (0, 0);
                (RuntimeStatusEvent { state: "installed".to_string(), error: None }, Ok(()))
            },
            Err(e) => {
                if self.cancel_flag {
                    let message = "Download cancelled".to_string();
                    (
                        RuntimeStatusEvent { state: "cancelled".to_string(), error: Some(message) },
                        Err(RuntimeError::Cancelled),
                    )
                } else {
                    let message = e.message();
                    (
                        RuntimeStatusEvent { state: "failed".to_string(), error: Some(message) },
                        Err(e),
                    )
                }
            },
        }
    }
}

/// Sanitizing keeps letters, numbers, `.`, `-` and `_` at their places, and puts
/// `_` in the place of everything else.
pub proof fn law_sanitized_char_by_char(name: Seq<char>, i: int)
    requires
        0 <= i < name.len(),
    ensures
        ({
            let kept = text::alphanumeric(name[i]) || name[i] == '.' || name[i] == '-' || name[i]
                == '_';
            &&& kept ==> sanitized(name)[i] == name[i]
            &&& !kept ==> sanitized(name)[i] == '_'
        }),
{
}

/// Sizes add up, archive by archive.
pub proof fn law_sizes_add_up(a: Seq<ArchiveView>, b: Seq<ArchiveView>, one: ArchiveView)
    ensures
        total_size(Seq::<ArchiveView>::empty()) == 0,
        total_size(seq![one]) == one.size_bytes,
        total_size(a + b) == total_size(a) + total_size(b),
    decreases b.len(),
{
    assert(seq![one].drop_last() =~= Seq::<ArchiveView>::empty());
    assert(total_size(seq![one].drop_last()) == 0);
    if b.len() == 0 {
        assert(a + b =~= a);
    } else {
        law_sizes_add_up(a, b.drop_last(), one);
        assert((a + b).drop_last() =~= a + b.drop_last());
    }
}

/// What the archives of a list say, in order.
pub proof fn law_archive_views(list: Seq<RuntimeArchive>, i: int)
    requires
        0 <= i < list.len(),
    ensures
        archive_views(list).len() == list.len(),
        archive_views(list)[i] == (ArchiveView {
            name: list[i].name@,
            url: list[i].url@,
            sha256: list[i].sha256@,
            size_bytes: list[i].size_bytes as nat,
            extract: list[i].extract@,
        }),
{
}

/// A complete payload has the interpreter, its library and its modules, and the
/// two packages.
pub proof fn law_required_files()
    ensures
        required().len() == 5,
        required()[0] == "python.exe"@,
        required()[1] == "python312.dll"@,
        required()[2] == "python312.zip"@,
        required()[3] == "qwen_asr/__init__.py"@,
        required()[4] == "torch/__init__.py"@,
{
}

/// A message names what went wrong and where: the address, the numbers in
/// decimal, the names and the causes stand in it as they are.
pub proof fn law_messages_name_the_cause(
    a: Seq<char>,
    b: Seq<char>,
    c: Seq<char>,
    n: nat,
    k: nat,
)
    ensures
        Fault::AlreadyInstalling.message() == "Qwen runtime install is already in progress"@,
        Fault::Cancelled.message() == "Download cancelled"@,
        (Fault::HttpStatus { url: a, status: b }).message() == "Failed to download "@ + a
            + ": HTTP "@ + b,
        (Fault::SizeMismatch { url: a, expected: n, reported: k }).message()
            == "Download size mismatch for "@ + a + ": expected "@ + text::digits(n)
            + " bytes, server reports "@ + text::digits(k),
        (Fault::Incomplete { url: a, expected: n, actual: k }).message()
            == "Download incomplete for "@ + a + ": expected "@ + text::digits(n) + " bytes, got "@
            + text::digits(k),
        (Fault::HashMismatch { url: a }).message() == "SHA256 mismatch for "@ + a
            + ": file is corrupt. Please retry."@,
        (Fault::UnsupportedArchive { name: a }).message()
            == "Unsupported archive type in runtime manifest: "@ + a,
        (Fault::MissingFile { rel: a }).message() == "Qwen runtime payload is incomplete: missing "@
            + a,
        (Fault::UnsafePath { archive: a, name: b }).message() == "Unsafe path in archive "@ + a
            + ": "@ + b,
        (Fault::RenameFailed { from: a, to: b, cause: c }).message() == "Failed to rename "@ + a
            + " → "@ + b + ": "@ + c,
        (Fault::ActivationFailed { cause: c }).message()
            == "Failed to activate Qwen runtime (is the model still loaded? Unload it and retry): "@
            + c,
        Fault::WindowsOnly.message() == "The bundled Qwen runtime is currently Windows-only"@,
        Fault::NotInstalled.message()
            == "Qwen runtime is not installed. Download it from the model settings."@,
        Fault::Host(c).message() == c,
{
}

/// What an error holds is what it says.
pub proof fn law_errors_say_what_they_hold(a: String, b: String, c: String, n: u64, k: u64)
    ensures
        (RuntimeError::HttpStatus { url: a, status: b })@ == (Fault::HttpStatus {
            url: a@,
            status: b@,
        }),
        (RuntimeError::SizeMismatch { url: a, expected: n, reported: k })@ == (
        Fault::SizeMismatch { url: a@, expected: n as nat, reported: k as nat }),
        (RuntimeError::Incomplete { url: a, expected: n, actual: k })@ == (Fault::Incomplete {
            url: a@,
            expected: n as nat,
            actual: k as nat,
        }),
        (RuntimeError::HashMismatch { url: a })@ == (Fault::HashMismatch { url: a@ }),
        (RuntimeError::UnsupportedArchive { name: a })@ == (Fault::UnsupportedArchive {
            name: a@,
        }),
        (RuntimeError::MissingFile { rel: a })@ == (Fault::MissingFile { rel: a@ }),
        (RuntimeError::UnsafePath { archive: a, name: b })@ == (Fault::UnsafePath {
            archive: a@,
            name: b@,
        }),
        (RuntimeError::RenameFailed { from: a, to: b, cause: c })@ == (Fault::RenameFailed {
            from: a@,
            to: b@,
            cause: c@,
        }),
        (RuntimeError::ActivationFailed { cause: c })@ == (Fault::ActivationFailed { cause: c@ }),
        RuntimeError::Host(c)@ == Fault::Host(c@),
        RuntimeError::AlreadyInstalling@ is AlreadyInstalling,
        RuntimeError::Cancelled@ is Cancelled,
        RuntimeError::WindowsOnly@ is WindowsOnly,
        RuntimeError::NotInstalled@ is NotInstalled,
{
}

} // verus!
