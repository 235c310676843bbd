//! The install of the runtime: every pinned archive is downloaded, verified
//! and extracted into a staging directory, which is checked and then swapped
//! with the runtime in use. If the swap fails, the runtime in use is put back.
//!
//! The machine decides; the host performs the actions and hands the outcome
//! back as the next event.

use crate::runtime;
use crate::runtime::{
    sanitize_component, ArchiveView, Fault, RuntimeArchive, RuntimeError, RuntimeManifest,
};
use crate::text;
use crate::text::same_text;
use vstd::prelude::*;

verus! {

/// Where an install stands.
#[derive(Debug)]
pub enum InstallStage {
    /// The staging directory is being prepared.
    Preparing,
    /// The archive at the index is being downloaded.
    Downloading,
    /// The archive at the index is being extracted.
    Extracting,
    /// The partial file of the archive before the index is being removed.
    Discarding,
    /// The staging directory is being checked and configured.
    Finalizing,
    /// What an earlier swap left behind is being removed.
    ClearingOld,
    /// The runtime in use is being moved out of the way.
    SettingAside,
    /// The staging directory is being moved into place.
    Activating,
    /// The runtime that was in use is being put back, after this failure.
    RollingBack(String),
    /// The marker of a complete install is being written.
    Marking,
    /// The install succeeded or failed.
    Ended,
}

/// A stage over characters.
pub enum StageView {
    Preparing,
    Downloading,
    Extracting,
    Discarding,
    Finalizing,
    ClearingOld,
    SettingAside,
    Activating,
    RollingBack(Seq<char>),
    Marking,
    Ended,
}

impl View for InstallStage {
    type V = StageView;

    open spec fn view(&self) -> StageView {
        match *self {
            InstallStage::Preparing => StageView::Preparing,
            InstallStage::Downloading => StageView::Downloading,
            InstallStage::Extracting => StageView::Extracting,
            InstallStage::Discarding => StageView::Discarding,
            InstallStage::Finalizing => StageView::Finalizing,
            InstallStage::ClearingOld => StageView::ClearingOld,
            InstallStage::SettingAside => StageView::SettingAside,
            InstallStage::Activating => StageView::Activating,
            InstallStage::RollingBack(cause) => StageView::RollingBack(cause@),
            InstallStage::Marking => StageView::Marking,
            InstallStage::Ended => StageView::Ended,
        }
    }
}

/// What the host reports.
#[derive(Debug)]
pub enum InstallEvent {
    /// The staging and cache directories stand, the staging directory empty.
    Prepared { cancelled: bool },
    /// The archive was downloaded and verified.
    Downloaded,
    /// The archive was extracted.
    Extracted,
    /// The partial file was removed, or could not be.
    Discarded { cancelled: bool },
    /// The staging directory is complete and configured.
    Finalized,
    /// Leftovers of an earlier swap were removed, or could not be; and whether
    /// a runtime is in use.
    OldCleared { runtime_present: bool },
    /// The runtime in use was moved out of the way.
    SetAside,
    /// The staging directory was moved into place.
    Activated,
    /// It could not be; and whether a runtime was set aside.
    ActivationFailed { cause: String, old_present: bool },
    /// The runtime that was set aside was put back, or could not be.
    RolledBack,
    /// The marker was written.
    Marked,
    /// What the host was asked for failed.
    Failed(RuntimeError),
}

/// An event over characters.
pub enum InstallEventView {
    Prepared { cancelled: bool },
    Downloaded,
    Extracted,
    Discarded { cancelled: bool },
    Finalized,
    OldCleared { runtime_present: bool },
    SetAside,
    Activated,
    ActivationFailed { cause: Seq<char>, old_present: bool },
    RolledBack,
    Marked,
    Failed(Fault),
}

impl View for InstallEvent {
    type V = InstallEventView;

    open spec fn view(&self) -> InstallEventView {
        match *self {
            InstallEvent::Prepared { cancelled } => InstallEventView::Prepared { cancelled },
            InstallEvent::Downloaded => InstallEventView::Downloaded,
            InstallEvent::Extracted => InstallEventView::Extracted,
            InstallEvent::Discarded { cancelled } => InstallEventView::Discarded { cancelled },
            InstallEvent::Finalized => InstallEventView::Finalized,
            InstallEvent::OldCleared { runtime_present } => InstallEventView::OldCleared {
                runtime_present,
            },
            InstallEvent::SetAside => InstallEventView::SetAside,
            InstallEvent::Activated => InstallEventView::Activated,
            InstallEvent::ActivationFailed { cause, old_present } =>
                InstallEventView::ActivationFailed { cause: cause@, old_present },
            InstallEvent::RolledBack => InstallEventView::RolledBack,
            InstallEvent::Marked => InstallEventView::Marked,
            InstallEvent::Failed(error) => InstallEventView::Failed(error@),
        }
    }
}

/// What the host has to do.
#[derive(Debug)]
pub enum InstallAction {
    /// Empty and create the staging directory, create the cache directory.
    Prepare,
    /// Download and verify an archive, to the file `part` in the cache.
    Download { part: String, url: String, size_bytes: u64, sha256: String },
    /// Extract the file `part` into the staging directory. A failure is
    /// reported by the name of the archive.
    Extract { part: String, name: String },
    /// Remove the file `part` from the cache.
    Discard { part: String },
    /// Check and configure the staging directory for this version.
    Finalize { version: String },
    /// Remove what an earlier swap left behind.
    ClearOld,
    /// Move the runtime in use out of the way.
    SetAside,
    /// Move the staging directory into place.
    Activate,
    /// Put the runtime that was set aside back.
    RollBack,
    /// Remove the runtime that was set aside and the cache, then write the
    /// marker with this version.
    Mark { version: String },
    /// The install succeeded.
    Complete,
    /// The install failed.
    Fail(RuntimeError),
    /// Nothing: the event has no meaning here.
    Ignore,
}

/// An action over characters.
pub enum InstallActionView {
    Prepare,
    Download { part: Seq<char>, url: Seq<char>, size_bytes: nat, sha256: Seq<char> },
    Extract { part: Seq<char>, name: Seq<char> },
    Discard { part: Seq<char> },
    Finalize { version: Seq<char> },
    ClearOld,
    SetAside,
    Activate,
    RollBack,
    Mark { version: Seq<char> },
    Complete,
    Fail(Fault),
    Ignore,
}

impl View for InstallAction {
    type V = InstallActionView;

    open spec fn view(&self) -> InstallActionView {
        match *self {
            InstallAction::Prepare => InstallActionView::Prepare,
            InstallAction::Download { part, url, size_bytes, sha256 } =>
                InstallActionView::Download {
                part: part@,
                url: url@,
                size_bytes: size_bytes as nat,
                sha256: sha256@,
            },
            InstallAction::Extract { part, name } => InstallActionView::Extract {
                part: part@,
                name: name@,
            },
            InstallAction::Discard { part } => InstallActionView::Discard { part: part@ },
            InstallAction::Finalize { version } => InstallActionView::Finalize {
                version: version@,
            },
            InstallAction::ClearOld => InstallActionView::ClearOld,
            InstallAction::SetAside => InstallActionView::SetAside,
            InstallAction::Activate => InstallActionView::Activate,
            InstallAction::RollBack => InstallActionView::RollBack,
            InstallAction::Mark { version } => InstallActionView::Mark { version: version@ },
            InstallAction::Complete => InstallActionView::Complete,
            InstallAction::Fail(error) => InstallActionView::Fail(error@),
            InstallAction::Ignore => InstallActionView::Ignore,
        }
    }
}

/// The file in the cache to which an archive of this name is downloaded.
pub open spec fn part_file(name: Seq<char>) -> Seq<char> {
    runtime::sanitized(name) + ".part"@
}

/// A state of an install.
#[verifier::ext_equal]
pub struct InstallView {
    pub version: Seq<char>,
    pub archives: Seq<ArchiveView>,
    pub stage: StageView,
    /// The archives before the index are extracted.
    pub index: nat,
    /// The bytes of those archives.
    pub completed: nat,
    /// The bytes of all archives.
    pub total: nat,
}

impl InstallView {
    /// The counters say what is done; while an archive is worked on there is
    /// one at the index; and from the check of the staging directory on, every
    /// archive is extracted.
    pub open spec fn wf(self) -> bool {
        &&& self.index <= self.archives.len()
        &&& self.total == runtime::total_size(self.archives)
        &&& self.total <= u64::MAX
        &&& self.completed == runtime::total_size(self.archives.take(self.index as int))
        &&& self.stage is Preparing ==> self.index == 0
        &&& self.stage is Downloading || self.stage is Extracting ==> self.index
            < self.archives.len()
        &&& self.stage is Discarding ==> self.index > 0
        &&& self.past_archives() ==> self.index == self.archives.len()
    }

    /// Whether the stage comes after the archives.
    pub open spec fn past_archives(self) -> bool {
        ||| self.stage is Finalizing
        ||| self.stage is ClearingOld
        ||| self.stage is SettingAside
        ||| self.stage is Activating
        ||| self.stage is RollingBack
        ||| self.stage is Marking
    }

    /// The install in another stage.
    pub open spec fn at(self, stage: StageView) -> InstallView {
        InstallView { stage, ..self }
    }

    /// Giving up.
    pub open spec fn failed(self, error: Fault) -> (InstallView, InstallActionView) {
        (self.at(StageView::Ended), InstallActionView::Fail(error))
    }

    /// On to the archive at the index: a cancelled install stops here; behind
    /// the last archive the staging directory is checked.
    pub open spec fn next_archive(self, cancelled: bool) -> (InstallView, InstallActionView) {
        if self.index >= self.archives.len() {
            (
                self.at(StageView::Finalizing),
                InstallActionView::Finalize { version: self.version },
            )
        } else if cancelled {
            self.failed(Fault::Cancelled)
        } else {
            let archive = self.archives[self.index as int];
            (
                self.at(StageView::Downloading),
                InstallActionView::Download {
                    part: part_file(archive.name),
                    url: archive.url,
                    size_bytes: archive.size_bytes,
                    sha256: archive.sha256,
                },
            )
        }
    }

    /// Whether a failure of the host ends the install in this stage. Where it
    /// does not, the host has nothing to report but the outcome itself.
    pub open spec fn can_fail(self) -> bool {
        ||| self.stage is Preparing
        ||| self.stage is Downloading
        ||| self.stage is Extracting
        ||| self.stage is Finalizing
        ||| self.stage is SettingAside
        ||| self.stage is Marking
    }

    /// What an event does: the next state, and what the host has to do. An
    /// event that has no meaning in a stage does nothing.
    pub open spec fn step(self, event: InstallEventView) -> (InstallView, InstallActionView) {
        match (self.stage, event) {
            (StageView::Preparing, InstallEventView::Prepared { cancelled }) => self.next_archive(
                cancelled,
            ),
            (StageView::Downloading, InstallEventView::Downloaded) => {
                let archive = self.archives[self.index as int];
                if archive.extract == "zip"@ {
                    (
                        self.at(StageView::Extracting),
                        InstallActionView::Extract {
                            part: part_file(archive.name),
                            name: archive.name,
                        },
                    )
                } else {
                    self.failed(Fault::UnsupportedArchive { name: archive.name })
                }
            },
            (StageView::Extracting, InstallEventView::Extracted) => {
                let archive = self.archives[self.index as int];
                (
                    InstallView {
                        stage: StageView::Discarding,
                        index: self.index + 1,
                        completed: self.completed + archive.size_bytes,
                        ..self
                    },
                    InstallActionView::Discard { part: part_file(archive.name) },
                )
            },
            (StageView::Discarding, InstallEventView::Discarded { cancelled }) =>
                self.next_archive(cancelled),
            (StageView::Finalizing, InstallEventView::Finalized) => (
                self.at(StageView::ClearingOld),
                InstallActionView::ClearOld,
            ),
            (StageView::ClearingOld, InstallEventView::OldCleared { runtime_present }) => if runtime_present {
                (self.at(StageView::SettingAside), InstallActionView::SetAside)
            } else {
                (self.at(StageView::Activating), InstallActionView::Activate)
            },
            (StageView::SettingAside, InstallEventView::SetAside) => (
                self.at(StageView::Activating),
                InstallActionView::Activate,
            ),
            (StageView::Activating, InstallEventView::Activated) => (
                self.at(StageView::Marking),
                InstallActionView::Mark { version: self.version },
            ),
            (StageView::Activating, InstallEventView::ActivationFailed { cause, old_present }) => if old_present {
                (self.at(StageView::RollingBack(cause)), InstallActionView::RollBack)
            } else {
                self.failed(Fault::ActivationFailed { cause })
            },
            (StageView::RollingBack(cause), InstallEventView::RolledBack) => self.failed(
                Fault::ActivationFailed { cause },
            ),
            (StageView::Marking, InstallEventView::Marked) => (
                self.at(StageView::Ended),
                InstallActionView::Complete,
            ),
            (_, InstallEventView::Failed(error)) => if self.can_fail() {
                self.failed(error)
            } else {
                (self, InstallActionView::Ignore)
            },
            _ => (self, InstallActionView::Ignore),
        }
    }

    /// The install after a row of events.
    pub open spec fn run(self, events: Seq<InstallEventView>) -> InstallView
        decreases events.len(),
    {
        if events.len() == 0 {
            self
        } else {
            self.run(events.drop_last()).step(events.last()).0
        }
    }
}

/// An install of these archives before anything is done.
pub open spec fn install_start(version: Seq<char>, archives: Seq<ArchiveView>) -> InstallView {
    InstallView {
        version,
        archives,
        stage: StageView::Preparing,
        index: 0,
        completed: 0,
        total: runtime::total_size(archives),
    }
}

/// The sizes of the archives, added up.
fn add_sizes(archives: &Vec<RuntimeArchive>) -> (r: u64)
    requires
        runtime::total_size(runtime::archive_views(archives@)) <= u64::MAX,
    ensures
        r == runtime::total_size(runtime::archive_views(archives@)),
{
    let ghost all = runtime::archive_views(archives@);
    let mut sum: u64 = 0;
    let mut i: usize = 0;
    while i < archives.len()
        invariant
            i <= archives@.len(),
            all == runtime::archive_views(archives@),
            runtime::total_size(all) <= u64::MAX,
            sum == runtime::total_size(all.take(i as int)),
        decreases archives@.len() - i,
    {
        proof {
            runtime::lemma_total_size_of_front(all, i as int);
            runtime::lemma_total_size_of_front(all, i + 1);
        }
        sum = sum + archives[i].size_bytes;
        i += 1;
    }
    proof {
        assert(all.take(all.len() as int) =~= all);
    }
    sum
}

/// The file in the cache to which an archive of this name is downloaded.
pub fn part_file_name(name: &str) -> (r: String)
    ensures
        r@ == part_file(name@),
{
    sanitize_component(name).concat(".part")
}

/// An install under way.
pub struct Installation {
    manifest: RuntimeManifest,
    stage: InstallStage,
    index: usize,
    completed: u64,
    total: u64,
}

impl View for Installation {
    type V = InstallView;

    closed spec fn view(&self) -> InstallView {
        InstallView {
            version: self.manifest.version@,
            archives: runtime::archive_views(self.manifest.archives@),
            stage: self.stage@,
            index: self.index as nat,
            completed: self.completed as nat,
            total: self.total as nat,
        }
    }
}

impl Installation {
    /// Begins an install of the manifest; `None` where the runtime is
    /// installed already, and there is nothing to do.
    pub fn begin(manifest: RuntimeManifest, installed: bool) -> (r: Option<(Self, InstallAction)>)
        requires
            !installed ==> runtime::total_size(runtime::archive_views(manifest.archives@))
                <= u64::MAX,
        ensures
            r is None <==> installed,
            r matches Some(begun) ==> {
                &&& begun.0@.wf()
                &&& begun.0@ == install_start(
                    manifest.version@,
                    runtime::archive_views(manifest.archives@),
                )
                &&& begun.1@ is Prepare
            },
    {
        if installed {
            return None;
        }
        let total: u64 = add_sizes(&manifest.archives);
        proof {
            assert(runtime::archive_views(manifest.archives@).take(0) =~= Seq::empty());
        }
        let installation = Installation {
            manifest,
            stage: InstallStage::Preparing,
            index: 0,
            completed: 0,
            total,
        };
        Some((installation, InstallAction::Prepare))
    }

    /// The address, the size and the digest of the archive that is being
    /// downloaded; `None` where none is.
    pub fn pinned(&self) -> (r: Option<(String, u64, String)>)
        requires
            self@.wf(),
        ensures
            match r {
                Some(pin) => {
                    let archive = self@.archives[self@.index as int];
                    &&& self@.stage is Downloading
                    &&& pin.0@ == archive.url
                    &&& pin.1 == archive.size_bytes
                    &&& pin.2@ == archive.sha256
                },
                None => !(self@.stage is Downloading),
            },
    {
        match &self.stage {
            InstallStage::Downloading => {
                let archive = &self.manifest.archives[self.index];
                Some((archive.url.clone(), archive.size_bytes, archive.sha256.clone()))
            },
            _ => None,
        }
    }

    /// The progress of the whole install, in bytes, while this many bytes of
    /// the archive at the index have arrived: how many of how many.
    pub fn progress(&self, downloaded: u64) -> (r: (u64, u64))
        requires
            self@.completed + downloaded <= u64::MAX,
        ensures
            r.0 == self@.completed + downloaded,
            r.1 == self@.total,
    {
        (self.completed + downloaded, self.total)
    }

    /// Handles one event, and says what the host has to do.
    pub fn advance(&mut self, event: InstallEvent) -> (r: InstallAction)
        requires
            old(self)@.wf(),
        ensures
            final(self)@.wf(),
            final(self)@ == old(self)@.step(event@).0,
            r@ == old(self)@.step(event@).1,
    {
        proof {
            law_install_keeps_wf(self@, event@);
            runtime::lemma_total_size_of_front(self@.archives, self@.index as int);
        }
        match event {
            InstallEvent::Prepared { cancelled } => match &self.stage {
                InstallStage::Preparing => self.next_archive(cancelled),
                _ => InstallAction::Ignore,
            },
            InstallEvent::Downloaded => match &self.stage {
                InstallStage::Downloading => {
                    let name = self.manifest.archives[self.index].name.clone();
                    if same_text(self.manifest.archives[self.index].extract.as_str(), "zip") {
                        self.stage = InstallStage::Extracting;
                        InstallAction::Extract { part: part_file_name(name.as_str()), name }
                    } else {
                        self.fail(RuntimeError::UnsupportedArchive { name })
                    }
                },
                _ => InstallAction::Ignore,
            },
            InstallEvent::Extracted => match &self.stage {
                InstallStage::Extracting => {
                    let part = part_file_name(self.manifest.archives[self.index].name.as_str());
                    proof {
                        runtime::lemma_total_size_of_front(self@.archives, self.index + 1);
                        assert(self.index < self.manifest.archives.len());
                    }
                    self.completed = self.completed + self.manifest.archives[self.index].size_bytes;
                    self.index = self.index + 1;
                    self.stage = InstallStage::Discarding;
                    InstallAction::Discard { part }
                },
                _ => InstallAction::Ignore,
            },
            InstallEvent::Discarded { cancelled } => match &self.stage {
                InstallStage::Discarding => self.next_archive(cancelled),
                _ => InstallAction::Ignore,
            },
            InstallEvent::Finalized => match &self.stage {
                InstallStage::Finalizing => {
                    self.stage = InstallStage::ClearingOld;
                    InstallAction::ClearOld
                },
                _ => InstallAction::Ignore,
            },
            InstallEvent::OldCleared { runtime_present } => match &self.stage {
                InstallStage::ClearingOld => {
                    if runtime_present {
                        self.stage = InstallStage::SettingAside;
                        InstallAction::SetAside
                    } else {
                        self.stage = InstallStage::Activating;
                        InstallAction::Activate
                    }
                },
                _ => InstallAction::Ignore,
            },
            InstallEvent::SetAside => match &self.stage {
                InstallStage::SettingAside => {
                    self.stage = InstallStage::Activating;
                    InstallAction::Activate
                },
                _ => InstallAction::Ignore,
            },
            InstallEvent::Activated => match &self.stage {
                InstallStage::Activating => {
                    self.stage = InstallStage::Marking;
                    InstallAction::Mark { version: self.manifest.version.clone() }
                },
                _ => InstallAction::Ignore,
            },
            InstallEvent::ActivationFailed { cause, old_present } => match &self.stage {
                InstallStage::Activating => {
                    if old_present {
                        self.stage = InstallStage::RollingBack(cause);
                        InstallAction::RollBack
                    } else {
                        self.fail(RuntimeError::ActivationFailed { cause })
                    }
                },
                _ => InstallAction::Ignore,
            },
            InstallEvent::RolledBack => match &self.stage {
                InstallStage::RollingBack(cause) => {
                    let error = RuntimeError::ActivationFailed { cause: cause.clone() };
                    self.fail(error)
                },
                _ => InstallAction::Ignore,
            },
            InstallEvent::Marked => match &self.stage {
                InstallStage::Marking => {
                    self.stage = InstallStage::Ended;
                    InstallAction::Complete
                },
                _ => InstallAction::Ignore,
            },
            InstallEvent::Failed(error) => match &self.stage {
                InstallStage::Preparing
                | InstallStage::Downloading
                | InstallStage::Extracting
                | InstallStage::Finalizing
                | InstallStage::SettingAside
                | InstallStage::Marking => self.fail(error),
                _ => InstallAction::Ignore,
            },
        }
    }

    /// On to the archive at the index.
    fn next_archive(&mut self, cancelled: bool) -> (r: InstallAction)
        ensures
            final(self)@ == old(self)@.next_archive(cancelled).0,
            r@ == old(self)@.next_archive(cancelled).1,
    {
        if self.index >= self.manifest.archives.len() {
            self.stage = InstallStage::Finalizing;
            return InstallAction::Finalize { version: self.manifest.version.clone() };
        }
        if cancelled {
            return self.fail(RuntimeError::Cancelled);
        }
        self.stage = InstallStage::Downloading;
        let archive = &self.manifest.archives[self.index];
        InstallAction::Download {
            part: part_file_name(archive.name.as_str()),
            url: archive.url.clone(),
            size_bytes: archive.size_bytes,
            sha256: archive.sha256.clone(),
        }
    }

    /// Gives up.
    fn fail(&mut self, error: RuntimeError) -> (r: InstallAction)
        ensures
            final(self)@ == old(self)@.failed(error@).0,
            r@ == old(self)@.failed(error@).1,
    {
        self.stage = InstallStage::Ended;
        InstallAction::Fail(error)
    }
}

/// The file of a partial download stands in the cache directory itself,
/// whatever the archive is called.
pub proof fn law_part_file_is_plain(name: Seq<char>)
    ensures
        runtime::plain_name(part_file(name)),
{
    runtime::law_sanitized(name);
    reveal_strlit(".part");
    let file = part_file(name);
    let n = runtime::sanitized(name).len();
    assert forall|i: int|
        0 <= i < file.len() && #[trigger] file[i] <= '\u{7f}' implies text::ascii_alphanumeric(
        file[i],
    ) || file[i] == '.' || file[i] == '-' || file[i] == '_' by {
        if i < n {
            assert(file[i] == runtime::sanitized(name)[i]);
        } else {
            assert(file[i] == ".part"@[i - n]);
        }
    }
}

/// Every event keeps an install well formed, and what is pinned stays pinned.
pub proof fn law_install_keeps_wf(v: InstallView, event: InstallEventView)
    requires
        v.wf(),
    ensures
        v.step(event).0.wf(),
        v.step(event).0.version == v.version,
        v.step(event).0.archives == v.archives,
{
    runtime::lemma_total_size_of_front(v.archives, v.index as int);
}

/// Over any row of events an install stays well formed.
pub proof fn law_install_run_keeps_wf(v: InstallView, events: Seq<InstallEventView>)
    requires
        v.wf(),
    ensures
        v.run(events).wf(),
        v.run(events).version == v.version,
        v.run(events).archives == v.archives,
    decreases events.len(),
{
    if events.len() > 0 {
        law_install_run_keeps_wf(v, events.drop_last());
        law_install_keeps_wf(v.run(events.drop_last()), events.last());
    }
}

/// Whether the stage comes before the runtime in use is swapped.
pub open spec fn before_swap(stage: StageView) -> bool {
    ||| stage is Preparing
    ||| stage is Downloading
    ||| stage is Extracting
    ||| stage is Discarding
    ||| stage is Finalizing
    ||| stage is ClearingOld
}

/// Whether the action touches the directory of the runtime in use.
pub open spec fn touches_runtime(action: InstallActionView) -> bool {
    ||| action is SetAside
    ||| action is Activate
    ||| action is RollBack
    ||| action is Mark
}

impl InstallView {
    /// What the host has to do over a row of events, in order.
    pub open spec fn actions(self, events: Seq<InstallEventView>) -> Seq<InstallActionView>
        decreases events.len(),
    {
        if events.len() == 0 {
            Seq::empty()
        } else {
            self.actions(events.drop_last()).push(self.run(events.drop_last()).step(events.last()).1)
        }
    }
}

/// The runtime in use is left alone up to the swap: as long as an install has
/// not come to it, no action so far touches that runtime; and the next one does
/// only where the leftovers of an earlier swap are cleared.
pub proof fn law_runtime_in_use_is_left_alone(
    version: Seq<char>,
    archives: Seq<ArchiveView>,
    events: Seq<InstallEventView>,
    event: InstallEventView,
)
    ensures
        ({
            let start = install_start(version, archives);
            let now = start.run(events);
            before_swap(now.stage) ==> {
                &&& forall|i: int|
                    0 <= i < start.actions(events).len() ==> !touches_runtime(
                        #[trigger] start.actions(events)[i],
                    )
                &&& touches_runtime(now.step(event).1) ==> now.stage is ClearingOld
                    && event is OldCleared
            }
        }),
    decreases events.len(),
{
    if events.len() > 0 {
        let init = events.drop_last();
        law_runtime_in_use_is_left_alone(version, archives, init, events.last());
        let start = install_start(version, archives);
        let before = start.run(init);
        let actions = start.actions(events);
        assert(actions == start.actions(init).push(before.step(events.last()).1));
        if before_swap(start.run(events).stage) {
            assert(before_swap(before.stage));
            assert forall|i: int| 0 <= i < actions.len() implies !touches_runtime(
                #[trigger] actions[i],
            ) by {
                if i < start.actions(init).len() {
                    assert(actions[i] == start.actions(init)[i]);
                }
            }
        }
    }
}

/// The staging directory is checked only once every archive is extracted.
pub proof fn law_finalize_needs_all_archives(v: InstallView, event: InstallEventView)
    requires
        v.wf(),
        v.step(event).1 is Finalize,
    ensures
        v.index == v.archives.len(),
        v.completed == v.total,
{
    assert(v.archives.take(v.archives.len() as int) =~= v.archives);
}

/// The marker of a complete install is written only once the staging directory
/// was moved into place, with every archive extracted; and the install
/// succeeds only once the marker is written.
pub proof fn law_marker_needs_activation(v: InstallView, event: InstallEventView)
    requires
        v.wf(),
    ensures
        v.step(event).1 is Mark ==> {
            &&& v.stage is Activating
            &&& event is Activated
            &&& v.index == v.archives.len()
            &&& v.step(event).1 == (InstallActionView::Mark { version: v.version })
        },
        v.step(event).1 is Complete <==> v.stage is Marking && event is Marked,
{
}

/// If the staging directory cannot be moved into place, a runtime that was set
/// aside is put back before the install fails.
pub proof fn law_failed_activation_rolls_back(v: InstallView, cause: Seq<char>)
    requires
        v.stage is Activating,
    ensures
        ({
            let event = InstallEventView::ActivationFailed { cause, old_present: true };
            let (rolling, action) = v.step(event);
            &&& action is RollBack
            &&& rolling.step(InstallEventView::RolledBack) == (
                v.at(StageView::Ended),
                InstallActionView::Fail(Fault::ActivationFailed { cause }),
            )
        }),
{
}

/// The progress stays within the total while no archive is larger than pinned.
pub proof fn law_install_progress_in_range(v: InstallView, downloaded: nat)
    requires
        v.wf(),
        v.stage is Downloading,
        downloaded <= v.archives[v.index as int].size_bytes,
    ensures
        v.completed + downloaded <= v.total,
{
    runtime::lemma_total_size_of_front(v.archives, v.index as int);
    runtime::lemma_total_size_of_front(v.archives, (v.index + 1) as int);
}

/// A cancelled install starts no further archive.
pub proof fn law_cancelled_install_stops(v: InstallView)
    requires
        v.index < v.archives.len(),
    ensures
        v.stage is Preparing ==> v.step(InstallEventView::Prepared { cancelled: true })
            == v.failed(Fault::Cancelled),
        v.stage is Discarding ==> v.step(InstallEventView::Discarded { cancelled: true })
            == v.failed(Fault::Cancelled),
{
}

/// An install that has ended answers nothing.
pub proof fn law_ended_install_is_silent(v: InstallView, event: InstallEventView)
    requires
        v.stage is Ended,
    ensures
        v.step(event) == (v, InstallActionView::Ignore),
{
}

/// What the host reports while all goes well up to the extraction of the first
/// `n` archives.
pub open spec fn smooth_archives(n: nat) -> Seq<InstallEventView>
    decreases n,
{
    if n == 0 {
        seq![InstallEventView::Prepared { cancelled: false }]
    } else {
        smooth_archives((n - 1) as nat).push(InstallEventView::Downloaded).push(
            InstallEventView::Extracted,
        ).push(InstallEventView::Discarded { cancelled: false })
    }
}

/// One more event at the end of a row.
proof fn lemma_run_push(v: InstallView, events: Seq<InstallEventView>, event: InstallEventView)
    ensures
        v.run(events.push(event)) == v.run(events).step(event).0,
{
    assert(events.push(event).drop_last() =~= events);
}

/// As long as all goes well, the archives are worked through in order, and
/// behind the last one the staging directory is checked.
pub proof fn law_archives_in_order(version: Seq<char>, archives: Seq<ArchiveView>, n: nat)
    requires
        n <= archives.len(),
        runtime::total_size(archives) <= u64::MAX,
        forall|i: int| 0 <= i < archives.len() ==> (#[trigger] archives[i]).extract == "zip"@,
    ensures
        install_start(version, archives).run(smooth_archives(n)) == (InstallView {
            stage: if n < archives.len() {
                StageView::Downloading
            } else {
                StageView::Finalizing
            },
            index: n,
            completed: runtime::total_size(archives.take(n as int)),
            ..install_start(version, archives)
        }),
    decreases n,
{
    let start = install_start(version, archives);
    if n == 0 {
        assert(archives.take(0) =~= Seq::empty());
        let first = InstallEventView::Prepared { cancelled: false };
        lemma_run_push(start, Seq::empty(), first);
        assert(Seq::empty().push(first) =~= smooth_archives(0));
    } else {
        let before = smooth_archives((n - 1) as nat);
        law_archives_in_order(version, archives, (n - 1) as nat);
        let a = before.push(InstallEventView::Downloaded);
        let b = a.push(InstallEventView::Extracted);
        lemma_run_push(start, before, InstallEventView::Downloaded);
        lemma_run_push(start, a, InstallEventView::Extracted);
        lemma_run_push(start, b, InstallEventView::Discarded { cancelled: false });
        runtime::lemma_total_size_of_front(archives, n - 1);
    }
}

/// An install in which all goes well succeeds: with the archives worked
/// through, the staging directory moved into place, and the marker written.
pub proof fn law_smooth_install_succeeds(
    version: Seq<char>,
    archives: Seq<ArchiveView>,
    runtime_present: bool,
)
    requires
        runtime::total_size(archives) <= u64::MAX,
        forall|i: int| 0 <= i < archives.len() ==> (#[trigger] archives[i]).extract == "zip"@,
    ensures
        ({
            let checked = smooth_archives(archives.len()).push(InstallEventView::Finalized).push(
                InstallEventView::OldCleared { runtime_present },
            );
            let ready = if runtime_present {
                checked.push(InstallEventView::SetAside)
            } else {
                checked
            };
            install_start(version, archives).run(ready.push(InstallEventView::Activated)).step(
                InstallEventView::Marked,
            ).1 is Complete
        }),
{
    let start = install_start(version, archives);
    law_archives_in_order(version, archives, archives.len());
    let events = smooth_archives(archives.len());
    lemma_run_push(start, events, InstallEventView::Finalized);
    let a = events.push(InstallEventView::Finalized);
    lemma_run_push(start, a, InstallEventView::OldCleared { runtime_present });
    let b = a.push(InstallEventView::OldCleared { runtime_present });
    lemma_run_push(start, b, InstallEventView::SetAside);
    let ready = if runtime_present {
        b.push(InstallEventView::SetAside)
    } else {
        b
    };
    lemma_run_push(start, ready, InstallEventView::Activated);
}

/// The file of a partial download is called like the archive, made safe.
pub proof fn law_part_file_is_named_after_the_archive(name: Seq<char>)
    ensures
        part_file(name) == runtime::sanitized(name) + ".part"@,
{
}

/// What an action speaks of is one archive, the one at the index: its file, its
/// address, its size and its digest are asked for together, it is extracted
/// under its own name, and its own file is removed.
pub proof fn law_actions_speak_of_one_archive(v: InstallView, event: InstallEventView)
    requires
        v.wf(),
    ensures
        ({
            let (next, action) = v.step(event);
            &&& action matches InstallActionView::Download { part, url, size_bytes, sha256 } ==> {
                let archive = v.archives[v.index as int];
                &&& v.index < v.archives.len()
                &&& next.index == v.index
                &&& part == runtime::sanitized(archive.name) + ".part"@
                &&& url == archive.url
                &&& size_bytes == archive.size_bytes
                &&& sha256 == archive.sha256
            }
            &&& action matches InstallActionView::Extract { part, name } ==> {
                let archive = v.archives[v.index as int];
                &&& v.index < v.archives.len()
                &&& next.index == v.index
                &&& archive.extract == "zip"@
                &&& name == archive.name
                &&& part == runtime::sanitized(archive.name) + ".part"@
            }
            &&& action matches InstallActionView::Discard { part } ==> {
                let archive = v.archives[v.index as int];
                &&& v.index < v.archives.len()
                &&& next.index == v.index + 1
                &&& next.completed == v.completed + archive.size_bytes
                &&& part == runtime::sanitized(archive.name) + ".part"@
            }
            &&& action matches InstallActionView::Finalize { version } ==> version == v.version
            &&& action matches InstallActionView::Mark { version } ==> version == v.version
        }),
{
}

/// The index counts the archives that are extracted: it moves on by one with the
/// extraction of each, and by nothing else.
pub proof fn law_index_counts_extractions(v: InstallView, event: InstallEventView)
    requires
        v.wf(),
    ensures
        ({
            let next = v.step(event).0;
            if v.stage is Extracting && event is Extracted {
                next.index == v.index + 1 && next.completed == v.completed
                    + v.archives[v.index as int].size_bytes
            } else {
                next.index == v.index && next.completed == v.completed
            }
        }),
{
}

/// How an install moves on: each stage has its report, and leads to the next.
pub proof fn law_install_moves_on(v: InstallView, runtime_present: bool, cause: Seq<char>)
    requires
        v.wf(),
    ensures
        v.stage is Downloading && v.archives[v.index as int].extract == "zip"@ ==> v.step(
            InstallEventView::Downloaded,
        ).0.stage is Extracting,
        v.stage is Downloading && v.archives[v.index as int].extract != "zip"@ ==> v.step(
            InstallEventView::Downloaded,
        ) == (
            v.at(StageView::Ended),
            InstallActionView::Fail(
                Fault::UnsupportedArchive { name: v.archives[v.index as int].name },
            ),
        ),
        v.stage is Extracting ==> v.step(InstallEventView::Extracted).1 is Discard,
        v.stage is Preparing && v.archives.len() > 0 ==> v.step(
            InstallEventView::Prepared { cancelled: false },
        ).1 is Download,
        v.stage is Discarding && v.index < v.archives.len() ==> v.step(
            InstallEventView::Discarded { cancelled: false },
        ).1 is Download,
        v.stage is Discarding && v.index == v.archives.len() ==> v.step(
            InstallEventView::Discarded { cancelled: runtime_present },
        ).1 is Finalize,
        v.stage is Finalizing ==> v.step(InstallEventView::Finalized).1 is ClearOld,
        v.stage is ClearingOld ==> v.step(InstallEventView::OldCleared { runtime_present }).1
            == if runtime_present {
            InstallActionView::SetAside
        } else {
            InstallActionView::Activate
        },
        v.stage is SettingAside ==> v.step(InstallEventView::SetAside).1 is Activate,
        v.stage is Activating ==> v.step(InstallEventView::Activated).1 is Mark,
        v.stage is Activating ==> v.step(
            InstallEventView::ActivationFailed { cause, old_present: false },
        ) == (
            v.at(StageView::Ended),
            InstallActionView::Fail(Fault::ActivationFailed { cause }),
        ),
{
}

/// A failure of the host ends an install with its cause where something can
/// fail, and is passed over elsewhere.
pub proof fn law_host_failure_ends_install(v: InstallView, error: Fault)
    ensures
        ({
            let fallible = v.stage is Preparing || v.stage is Downloading || v.stage is Extracting
                || v.stage is Finalizing || v.stage is SettingAside || v.stage is Marking;
            v.step(InstallEventView::Failed(error)) == if fallible {
                (v.at(StageView::Ended), InstallActionView::Fail(error))
            } else {
                (v, InstallActionView::Ignore)
            }
        }),
{
}

/// A report that does not belong to the stage does nothing.
pub proof fn law_misplaced_report_is_ignored(v: InstallView, event: InstallEventView)
    requires
        !(event is Failed),
        event is Prepared ==> !(v.stage is Preparing),
        event is Downloaded ==> !(v.stage is Downloading),
        event is Extracted ==> !(v.stage is Extracting),
        event is Discarded ==> !(v.stage is Discarding),
        event is Finalized ==> !(v.stage is Finalizing),
        event is OldCleared ==> !(v.stage is ClearingOld),
        event is SetAside ==> !(v.stage is SettingAside),
        event is Activated || event is ActivationFailed ==> !(v.stage is Activating),
        event is RolledBack ==> !(v.stage is RollingBack),
        event is Marked ==> !(v.stage is Marking),
    ensures
        v.step(event) == (v, InstallActionView::Ignore),
{
}

/// What an event holds is what it says.
pub proof fn law_install_events_say_what_they_hold(
    flag: bool,
    cause: String,
    error: RuntimeError,
)
    ensures
        (InstallEvent::Prepared { cancelled: flag })@ == (InstallEventView::Prepared {
            cancelled: flag,
        }),
        InstallEvent::Downloaded@ is Downloaded,
        InstallEvent::Extracted@ is Extracted,
        (InstallEvent::Discarded { cancelled: flag })@ == (InstallEventView::Discarded {
            cancelled: flag,
        }),
        InstallEvent::Finalized@ is Finalized,
        (InstallEvent::OldCleared { runtime_present: flag })@ == (InstallEventView::OldCleared {
            runtime_present: flag,
        }),
        InstallEvent::SetAside@ is SetAside,
        InstallEvent::Activated@ is Activated,
        (InstallEvent::ActivationFailed { cause, old_present: flag })@ == (
        InstallEventView::ActivationFailed { cause: cause@, old_present: flag }),
        InstallEvent::RolledBack@ is RolledBack,
        InstallEvent::Marked@ is Marked,
        InstallEvent::Failed(error)@ == InstallEventView::Failed(error@),
{
}

/// What an action asks is what it holds.
pub proof fn law_install_actions_ask_what_they_hold(
    a: String,
    b: String,
    c: String,
    size_bytes: u64,
    error: RuntimeError,
)
    ensures
        InstallAction::Prepare@ is Prepare,
        (InstallAction::Download { part: a, url: b, size_bytes, sha256: c })@ == (
        InstallActionView::Download {
            part: a@,
            url: b@,
            size_bytes: size_bytes as nat,
            sha256: c@,
        }),
        (InstallAction::Extract { part: a, name: b })@ == (InstallActionView::Extract {
            part: a@,
            name: b@,
        }),
        (InstallAction::Discard { part: a })@ == (InstallActionView::Discard { part: a@ }),
        (InstallAction::Finalize { version: a })@ == (InstallActionView::Finalize { version: a@ }),
        InstallAction::ClearOld@ is ClearOld,
        InstallAction::SetAside@ is SetAside,
        InstallAction::Activate@ is Activate,
        InstallAction::RollBack@ is RollBack,
        (InstallAction::Mark { version: a })@ == (InstallActionView::Mark { version: a@ }),
        InstallAction::Complete@ is Complete,
        InstallAction::Fail(error)@ == InstallActionView::Fail(error@),
        InstallAction::Ignore@ is Ignore,
{
}

/// Without archives there is nothing to download, and the staging directory is
/// checked at once, whether or not the install was cancelled.
pub proof fn law_nothing_to_download(v: InstallView, cancelled: bool)
    requires
        v.wf(),
        v.stage is Preparing,
        v.archives.len() == 0,
    ensures
        v.step(InstallEventView::Prepared { cancelled }) == (
            v.at(StageView::Finalizing),
            InstallActionView::Finalize { version: v.version },
        ),
{
}

} // verus!
