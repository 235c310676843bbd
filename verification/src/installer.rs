//! The whole install: the steps of the install, with the download of each
//! archive inside them. An archive is extracted only once its download is
//! verified against what is pinned for it.

use crate::digest;
use crate::digest::file_digest;
use crate::download;
use crate::download::{
    Download, DownloadAction, DownloadActionView, DownloadEvent, DownloadEventView, DownloadView,
};
use crate::install;
use crate::install::{
    InstallAction, InstallActionView, InstallEvent, InstallEventView, InstallView, Installation,
};
use crate::runtime;
use crate::runtime::{ArchiveView, Fault, RuntimeError, RuntimeManifest};
use crate::text;
use vstd::prelude::*;

verus! {

/// What the host reports.
#[derive(Debug)]
pub enum InstallerEvent {
    /// How a step of the install went.
    Install(InstallEvent),
    /// An archive is to be downloaded: the length of its partial file, where
    /// one stands.
    Part(Option<u64>),
    /// How the download goes.
    Download(DownloadEvent),
}

/// What the host reports, over characters and numbers.
pub enum InstallerEventView {
    Install(InstallEventView),
    Part(Option<u64>),
    Download(DownloadEventView),
}

impl View for InstallerEvent {
    type V = InstallerEventView;

    open spec fn view(&self) -> InstallerEventView {
        match *self {
            InstallerEvent::Install(event) => InstallerEventView::Install(event@),
            InstallerEvent::Part(part_len) => InstallerEventView::Part(part_len),
            InstallerEvent::Download(event) => InstallerEventView::Download(event@),
        }
    }
}

/// What the host has to do.
#[derive(Debug)]
pub enum InstallerAction {
    /// A step of the install.
    Install(InstallAction),
    /// A step of the download.
    Download(DownloadAction),
    /// Write the piece that arrived; then this many bytes of this many are
    /// done, over all archives.
    Write { downloaded: u64, total: u64 },
    /// The download failed, and the install with it: remove the partial file
    /// where it is of no use.
    Abandon { error: RuntimeError, remove_part: bool },
    /// Nothing: the event has no meaning here.
    Ignore,
}

/// What the host has to do, over characters and numbers.
pub enum InstallerActionView {
    Install(InstallActionView),
    Download(DownloadActionView),
    Write { downloaded: nat, total: nat },
    Abandon { error: Fault, remove_part: bool },
    Ignore,
}

impl View for InstallerAction {
    type V = InstallerActionView;

    open spec fn view(&self) -> InstallerActionView {
        match *self {
            InstallerAction::Install(action) => InstallerActionView::Install(action@),
            InstallerAction::Download(action) => InstallerActionView::Download(action@),
            InstallerAction::Write { downloaded, total } => InstallerActionView::Write {
                downloaded: downloaded as nat,
                total: total as nat,
            },
            InstallerAction::Abandon { error, remove_part } => InstallerActionView::Abandon {
                error: error@,
                remove_part,
            },
            InstallerAction::Ignore => InstallerActionView::Ignore,
        }
    }
}

/// A state of the whole install.
#[verifier::ext_equal]
pub struct InstallerView {
    pub install: InstallView,
    /// The download of the archive at the index, while there is one.
    pub download: Option<DownloadView>,
}

/// A whole install before anything is done.
pub open spec fn installer_start(version: Seq<char>, archives: Seq<ArchiveView>) -> InstallerView {
    InstallerView { install: install::install_start(version, archives), download: None }
}

impl InstallerView {
    /// The archive at the index.
    pub open spec fn archive(self) -> ArchiveView {
        self.install.archives[self.install.index as int]
    }

    /// A download is under way only while the install is at one, and it is
    /// held to what is pinned for the archive at the index.
    pub open spec fn wf(self) -> bool {
        &&& self.install.wf()
        &&& self.download matches Some(d) ==> {
            &&& self.install.stage is Downloading
            &&& d.wf()
            &&& !(d.phase is Ended)
            &&& d.url == self.archive().url
            &&& d.expected_size == self.archive().size_bytes
            &&& d.expected_sha256 == self.archive().sha256
        }
    }

    /// What an event does: the next state, and what the host has to do. That
    /// an archive is downloaded is never taken from the host: only a download
    /// that is complete and verified counts.
    pub open spec fn step(self, event: InstallerEventView) -> (InstallerView, InstallerActionView) {
        match event {
            InstallerEventView::Install(InstallEventView::Downloaded) => (
                self,
                InstallerActionView::Ignore,
            ),
            InstallerEventView::Install(report) => {
                let (next, action) = self.install.step(report);
                (
                    InstallerView {
                        install: next,
                        download: if next.stage is Downloading {
                            self.download
                        } else {
                            None
                        },
                    },
                    InstallerActionView::Install(action),
                )
            },
            InstallerEventView::Part(part_len) => if self.install.stage is Downloading
                && self.download is None {
                (
                    InstallerView {
                        download: Some(
                            download::download_start(
                                self.archive().url,
                                self.archive().size_bytes,
                                self.archive().sha256,
                                part_len,
                            ),
                        ),
                        ..self
                    },
                    InstallerActionView::Download(download::first_request(part_len)),
                )
            } else {
                (self, InstallerActionView::Ignore)
            },
            InstallerEventView::Download(report) => match self.download {
                None => (self, InstallerActionView::Ignore),
                Some(d) => self.downloading(d.step(report)),
            },
        }
    }

    /// What follows a step of the download.
    pub open spec fn downloading(self, step: (DownloadView, DownloadActionView)) -> (
        InstallerView,
        InstallerActionView,
    ) {
        match step.1 {
            DownloadActionView::Complete => {
                let (next, action) = self.install.step(InstallEventView::Downloaded);
                (
                    InstallerView { install: next, download: None },
                    InstallerActionView::Install(action),
                )
            },
            DownloadActionView::Fail { error, remove_part } => (
                InstallerView {
                    install: self.install.step(InstallEventView::Failed(error)).0,
                    download: None,
                },
                InstallerActionView::Abandon { error, remove_part },
            ),
            DownloadActionView::WriteChunk { downloaded, total } => (
                InstallerView { download: Some(step.0), ..self },
                InstallerActionView::Write {
                    downloaded: self.install.completed + downloaded,
                    total: self.install.total,
                },
            ),
            action => (
                InstallerView { download: Some(step.0), ..self },
                InstallerActionView::Download(action),
            ),
        }
    }

    /// The numbers of the event leave the counters in range.
    pub open spec fn step_fits(self, event: InstallerEventView) -> bool {
        match (event, self.download) {
            (InstallerEventView::Download(report), Some(d)) => {
                &&& d.step_fits(report)
                &&& d.step(report).1 matches DownloadActionView::WriteChunk { downloaded, total }
                    ==> self.install.completed + downloaded <= u64::MAX
            },
            _ => true,
        }
    }

    /// The whole install after a row of events.
    pub open spec fn run(self, events: Seq<InstallerEventView>) -> InstallerView
        decreases events.len(),
    {
        if events.len() == 0 {
            self
        } else {
            self.run(events.drop_last()).step(events.last()).0
        }
    }

    /// The progress that is reported over a row of events, in order: how many
    /// bytes of how many.
    pub open spec fn reports(self, events: Seq<InstallerEventView>) -> Seq<(nat, nat)>
        decreases events.len(),
    {
        if events.len() == 0 {
            Seq::empty()
        } else {
            let before = self.reports(events.drop_last());
            match self.run(events.drop_last()).step(events.last()).1 {
                InstallerActionView::Write { downloaded, total } => before.push(
                    (downloaded, total),
                ),
                _ => before,
            }
        }
    }

    /// The file has the size of what was written to it.
    pub open spec fn measures_truly(self, event: InstallerEventView) -> bool {
        match (event, self.download) {
            (InstallerEventView::Download(DownloadEventView::Measured(size)), Some(d)) => size
                == d.downloaded,
            _ => true,
        }
    }

    /// Over a row of events, every file has the size of what was written to it.
    pub open spec fn run_measures_truly(self, events: Seq<InstallerEventView>) -> bool
        decreases events.len(),
    {
        events.len() == 0 || (self.run_measures_truly(events.drop_last()) && self.run(
            events.drop_last(),
        ).measures_truly(events.last()))
    }
}

/// The whole install, under way.
pub struct Installer {
    install: Installation,
    download: Option<Download>,
}

impl View for Installer {
    type V = InstallerView;

    closed spec fn view(&self) -> InstallerView {
        InstallerView {
            install: self.install@,
            download: match self.download {
                Some(d) => Some(d@),
                None => None,
            },
        }
    }
}

impl Installer {
    /// Begins an install of the manifest; `None` where the runtime is
    /// installed already, and there is nothing to do.
    pub fn begin(manifest: RuntimeManifest, installed: bool) -> (r: Option<(Self, InstallerAction)>)
        requires
            !installed ==> runtime::total_size(runtime::archive_views(manifest.archives@))
                <= u64::MAX,
        ensures
            r is None <==> installed,
            r matches Some(begun) ==> {
                &&& begun.0@.wf()
                &&& begun.0@ == installer_start(
                    manifest.version@,
                    runtime::archive_views(manifest.archives@),
                )
                &&& begun.1@ == InstallerActionView::Install(InstallActionView::Prepare)
            },
    {
        match Installation::begin(manifest, installed) {
            None => None,
            Some((install, action)) => {
                let installer = Installer { install, download: None };
                Some((installer, InstallerAction::Install(action)))
            },
        }
    }

    /// Whether the event leaves the counters in range.
    pub fn fits(&self, event: &InstallerEvent) -> (r: bool)
        requires
            self@.wf(),
        ensures
            r == self@.step_fits(event@),
    {
        match (event, &self.download) {
            (InstallerEvent::Download(report), Some(d)) => {
                if !d.fits(report) {
                    return false;
                }
                let completed: u64 = self.completed();
                match (d.received(), report) {
                    (
                        Some(received),
                        DownloadEvent::Chunk { cancelled: false, chunk: Ok(len) },
                    ) => received + *len <= u64::MAX - completed,
                    _ => true,
                }
            },
            _ => true,
        }
    }

    /// The bytes of the archives that are extracted.
    fn completed(&self) -> (r: u64)
        requires
            self@.wf(),
        ensures
            r == self@.install.completed,
    {
        proof {
            runtime::lemma_total_size_of_front(
                self@.install.archives,
                self@.install.index as int,
            );
        }
        self.install.progress(0).0
    }

    /// Handles one event, and says what the host has to do.
    pub fn advance(&mut self, event: InstallerEvent) -> (r: InstallerAction)
        requires
            old(self)@.wf(),
            old(self)@.step_fits(event@),
        ensures
            final(self)@.wf(),
            final(self)@ == old(self)@.step(event@).0,
            r@ == old(self)@.step(event@).1,
    {
        proof {
            law_installer_keeps_wf(self@, event@);
        }
        match event {
            InstallerEvent::Install(InstallEvent::Downloaded) => InstallerAction::Ignore,
            InstallerEvent::Install(report) => {
                let action = self.install.advance(report);
                if self.install.pinned().is_none() {
                    self.download = None;
                }
                InstallerAction::Install(action)
            },
            InstallerEvent::Part(part_len) => match (self.install.pinned(), &self.download) {
                (Some((url, size, sha256)), None) => {
                    let (download, action) = Download::start(url, size, sha256, part_len);
                    self.download = Some(download);
                    InstallerAction::Download(action)
                },
                _ => InstallerAction::Ignore,
            },
            InstallerEvent::Download(report) => match self.download.take() {
                None => InstallerAction::Ignore,
                Some(download) => {
                    let mut download = download;
                    match download.advance(report) {
                        DownloadAction::Complete => {
                            InstallerAction::Install(self.install.advance(InstallEvent::Downloaded))
                        },
                        DownloadAction::Fail { error, remove_part } => self.abandon(
                            error,
                            remove_part,
                        ),
                        DownloadAction::WriteChunk { downloaded, total: _ } => {
                            let (done, total) = self.install.progress(downloaded);
                            self.download = Some(download);
                            InstallerAction::Write { downloaded: done, total }
                        },
                        action => {
                            self.download = Some(download);
                            InstallerAction::Download(action)
                        },
                    }
                },
            },
        }
    }

    /// Handles the bytes of a downloaded file: computes their digest, and says
    /// what the host has to do.
    pub fn check_file(&mut self, data: &[u8]) -> (r: InstallerAction)
        requires
            old(self)@.wf(),
        ensures
            final(self)@.wf(),
            final(self)@ == old(self)@.step(file_checked(data@)).0,
            r@ == old(self)@.step(file_checked(data@)).1,
    {
        self.advance(InstallerEvent::Download(DownloadEvent::Hashed(file_digest(data))))
    }

    /// Ends the install with the failure of a download.
    fn abandon(&mut self, error: RuntimeError, remove_part: bool) -> (r: InstallerAction)
        requires
            old(self)@.install.wf(),
            old(self)@.install.stage is Downloading,
        ensures
            final(self)@ == (InstallerView {
                install: old(self)@.install.step(InstallEventView::Failed(error@)).0,
                ..old(self)@
            }),
            r@ == (InstallerActionView::Abandon { error: error@, remove_part }),
    {
        match self.install.advance(InstallEvent::Failed(error)) {
            InstallAction::Fail(error) => InstallerAction::Abandon { error, remove_part },
            _ => InstallerAction::Ignore,
        }
    }
}

/// The report that a file has these bytes.
pub open spec fn file_checked(data: Seq<u8>) -> InstallerEventView {
    InstallerEventView::Download(DownloadEventView::Hashed(digest::hex(digest::sha256(data))))
}

/// Every event keeps the whole install well formed, and what is pinned stays
/// pinned.
pub proof fn law_installer_keeps_wf(v: InstallerView, event: InstallerEventView)
    requires
        v.wf(),
    ensures
        v.step(event).0.wf(),
        v.step(event).0.install.version == v.install.version,
        v.step(event).0.install.archives == v.install.archives,
{
    install::law_install_keeps_wf(v.install, InstallEventView::Downloaded);
    match event {
        InstallerEventView::Install(report) => install::law_install_keeps_wf(v.install, report),
        InstallerEventView::Part(_) => {},
        InstallerEventView::Download(report) => {
            if let Some(d) = v.download {
                download::law_download_keeps_wf(d, report);
                if let DownloadActionView::Fail { error, remove_part } = d.step(report).1 {
                    install::law_install_keeps_wf(v.install, InstallEventView::Failed(error));
                }
            }
        },
    }
}

/// Over any row of events the whole install stays well formed, and what is
/// pinned stays pinned.
pub proof fn law_installer_run_keeps_wf(v: InstallerView, events: Seq<InstallerEventView>)
    requires
        v.wf(),
    ensures
        v.run(events).wf(),
        v.run(events).install.version == v.install.version,
        v.run(events).install.archives == v.install.archives,
    decreases events.len(),
{
    if events.len() > 0 {
        law_installer_run_keeps_wf(v, events.drop_last());
        law_installer_keeps_wf(v.run(events.drop_last()), events.last());
    }
}

/// A whole install before anything is done is well formed.
proof fn lemma_start_wf(version: Seq<char>, archives: Seq<ArchiveView>)
    requires
        runtime::total_size(archives) <= u64::MAX,
    ensures
        installer_start(version, archives).wf(),
{
    assert(archives.take(0) =~= Seq::empty());
}

/// Only what is pinned is extracted: whatever the host reports, an archive is
/// extracted only right after its file was found to have the pinned digest, and
/// the pinned size where one is pinned.
pub proof fn law_extracts_only_pinned(
    version: Seq<char>,
    archives: Seq<ArchiveView>,
    events: Seq<InstallerEventView>,
    event: InstallerEventView,
    part: Seq<char>,
    name: Seq<char>,
)
    requires
        runtime::total_size(archives) <= u64::MAX,
        installer_start(version, archives).run(events).step(event).1
            == InstallerActionView::Install(InstallActionView::Extract { part, name }),
    ensures
        ({
            let before = installer_start(version, archives).run(events);
            let i = before.install.index as int;
            &&& 0 <= i < archives.len()
            &&& name == archives[i].name
            &&& part == install::part_file(archives[i].name)
            &&& event == InstallerEventView::Download(
                DownloadEventView::Hashed(text::lowercase(archives[i].sha256)),
            )
            &&& before.download matches Some(d) && (archives[i].size_bytes == 0 || d.measured
                == archives[i].size_bytes)
        }),
{
    let start = installer_start(version, archives);
    lemma_start_wf(version, archives);
    law_installer_run_keeps_wf(start, events);
    let before = start.run(events);
    if let InstallerEventView::Download(report) = event {
        let d = before.download->0;
        assert(d.step(report).1 is Complete);
        download::law_complete_is_verified(d, report);
    }
}

/// The bytes of a file that is extracted have the pinned digest.
pub proof fn law_extracted_file_has_pinned_digest(
    version: Seq<char>,
    archives: Seq<ArchiveView>,
    events: Seq<InstallerEventView>,
    data: Seq<u8>,
    part: Seq<char>,
    name: Seq<char>,
)
    requires
        runtime::total_size(archives) <= u64::MAX,
        installer_start(version, archives).run(events).step(file_checked(data)).1
            == InstallerActionView::Install(InstallActionView::Extract { part, name }),
    ensures
        ({
            let i = installer_start(version, archives).run(events).install.index as int;
            &&& 0 <= i < archives.len()
            &&& name == archives[i].name
            &&& digest::hex(digest::sha256(data)) == text::lowercase(archives[i].sha256)
        }),
{
    law_extracts_only_pinned(version, archives, events, file_checked(data), part, name);
}

/// That an archive is downloaded is never taken from the host.
pub proof fn law_download_is_not_claimed(v: InstallerView)
    ensures
        v.step(InstallerEventView::Install(InstallEventView::Downloaded)) == (
            v,
            InstallerActionView::Ignore,
        ),
{
}

impl InstallerView {
    /// What the host has to do over a row of events, in order.
    pub open spec fn actions(self, events: Seq<InstallerEventView>) -> Seq<InstallerActionView>
        decreases events.len(),
    {
        if events.len() == 0 {
            Seq::empty()
        } else {
            self.actions(events.drop_last()).push(self.run(events.drop_last()).step(events.last()).1)
        }
    }
}

/// Whether the action touches the directory of the runtime in use.
pub open spec fn touches_runtime(action: InstallerActionView) -> bool {
    action matches InstallerActionView::Install(step) && install::touches_runtime(step)
}

/// The runtime in use is left alone up to the swap: as long as the whole install
/// has not come to it, no action so far touches that runtime; and the next one
/// does only where the leftovers of an earlier swap are cleared.
pub proof fn law_installer_leaves_runtime_alone(
    version: Seq<char>,
    archives: Seq<ArchiveView>,
    events: Seq<InstallerEventView>,
    event: InstallerEventView,
)
    requires
        runtime::total_size(archives) <= u64::MAX,
    ensures
        ({
            let start = installer_start(version, archives);
            let now = start.run(events);
            install::before_swap(now.install.stage) ==> {
                &&& forall|i: int|
                    0 <= i < start.actions(events).len() ==> !touches_runtime(
                        #[trigger] start.actions(events)[i],
                    )
                &&& touches_runtime(now.step(event).1) ==> now.install.stage is ClearingOld && (
                event matches InstallerEventView::Install(report) && report is OldCleared)
            }
        }),
    decreases events.len(),
{
    let start = installer_start(version, archives);
    lemma_start_wf(version, archives);
    law_installer_run_keeps_wf(start, events);
    if events.len() > 0 {
        let init = events.drop_last();
        law_installer_leaves_runtime_alone(version, archives, init, events.last());
        law_installer_run_keeps_wf(start, init);
        let before = start.run(init);
        let actions = start.actions(events);
        assert(actions == start.actions(init).push(before.step(events.last()).1));
        if install::before_swap(start.run(events).install.stage) {
            assert(install::before_swap(before.install.stage));
            assert forall|i: int| 0 <= i < actions.len() implies !touches_runtime(
                #[trigger] actions[i],
            ) by {
                if i < start.actions(init).len() {
                    assert(actions[i] == start.actions(init)[i]);
                }
            }
        }
    }
}

/// How an archive comes over the network: the length of the partial file, the
/// response, the pieces of the body, and the size of the file in the end.
pub struct Transfer {
    pub part_len: Option<u64>,
    pub status: nat,
    pub status_text: Seq<char>,
    pub content_length: Option<u64>,
    pub chunks: Seq<u64>,
    pub size: nat,
}

impl Transfer {
    /// The archive arrives: the response is a success that continues the
    /// partial file, and no size contradicts the pinned one.
    pub open spec fn serves(self, archive: ArchiveView) -> bool {
        let resume_from = download::reported_length(self.part_len);
        let total = resume_from + download::reported_length(self.content_length);
        &&& 200 <= self.status < 300
        &&& resume_from > 0 ==> self.status != 200
        &&& archive.size_bytes == 0 || total == 0 || total == archive.size_bytes
        &&& archive.size_bytes == 0 || self.size == archive.size_bytes
    }

    /// The body, piece by piece.
    pub open spec fn body(self) -> Seq<InstallerEventView> {
        self.chunks.map_values(
            |len: u64|
                InstallerEventView::Download(
                    DownloadEventView::Chunk { cancelled: false, chunk: Ok(len) },
                ),
        )
    }

    /// What the host reports up to the body.
    pub open spec fn opening(self) -> Seq<InstallerEventView> {
        seq![
            InstallerEventView::Part(self.part_len),
            InstallerEventView::Download(
                DownloadEventView::Response {
                    status: self.status,
                    status_text: self.status_text,
                    content_length: self.content_length,
                },
            ),
        ]
    }

    /// What the host reports behind the body: the file has the pinned digest,
    /// and is extracted.
    pub open spec fn closing(self, archive: ArchiveView) -> Seq<InstallerEventView> {
        seq![
            InstallerEventView::Download(DownloadEventView::StreamEnded),
            InstallerEventView::Download(DownloadEventView::Measured(self.size)),
            InstallerEventView::Download(
                DownloadEventView::Hashed(text::lowercase(archive.sha256)),
            ),
            InstallerEventView::Install(InstallEventView::Extracted),
            InstallerEventView::Install(InstallEventView::Discarded { cancelled: false }),
        ]
    }

    /// What the host reports of one archive while all goes well.
    pub open spec fn events(self, archive: ArchiveView) -> Seq<InstallerEventView> {
        self.opening() + self.body() + self.closing(archive)
    }
}

/// One row of events after another.
proof fn lemma_run_add(
    v: InstallerView,
    first: Seq<InstallerEventView>,
    then: Seq<InstallerEventView>,
)
    ensures
        v.run(first + then) == v.run(first).run(then),
    decreases then.len(),
{
    if then.len() == 0 {
        assert(first + then =~= first);
    } else {
        assert((first + then).drop_last() =~= first + then.drop_last());
        lemma_run_add(v, first, then.drop_last());
    }
}

/// One more event at the end of a row.
proof fn lemma_run_push(
    v: InstallerView,
    events: Seq<InstallerEventView>,
    event: InstallerEventView,
)
    ensures
        v.run(events.push(event)) == v.run(events).step(event).0,
{
    assert(events.push(event).drop_last() =~= events);
}

/// The body of a response only moves the counter of the download.
proof fn lemma_body_runs(v: InstallerView, t: Transfer, n: int)
    requires
        v.download matches Some(d) && d.phase is Receiving,
        0 <= n <= t.chunks.len(),
    ensures
        ({
            let now = v.run(t.body().take(n));
            &&& now.install == v.install
            &&& now.download matches Some(d) && d == (DownloadView {
                downloaded: d.downloaded,
                ..v.download->0
            })
        }),
    decreases n,
{
    if n == 0 {
        assert(t.body().take(0) =~= Seq::empty());
    } else {
        lemma_body_runs(v, t, n - 1);
        let before = t.body().take(n - 1);
        assert(t.body().take(n) =~= before.push(t.body()[n - 1]));
        lemma_run_push(v, before, t.body()[n - 1]);
    }
}

/// An archive that arrives with the pinned digest is extracted, and the install
/// moves on.
proof fn lemma_archive_runs(v: InstallerView, t: Transfer)
    requires
        v.wf(),
        v.install.stage is Downloading,
        v.download is None,
        v.archive().extract == "zip"@,
        t.serves(v.archive()),
    ensures
        v.run(t.events(v.archive())) == (InstallerView {
            install: InstallView {
                index: v.install.index + 1,
                completed: v.install.completed + v.archive().size_bytes,
                ..v.install
            }.next_archive(false).0,
            download: None,
        }),
{
    let a = v.archive();
    let open = t.opening();
    lemma_run_push(v, Seq::empty(), open[0]);
    lemma_run_push(v, Seq::empty().push(open[0]), open[1]);
    assert(Seq::empty().push(open[0]).push(open[1]) =~= open);
    let opened = v.run(open);
    assert(opened.install == v.install);
    assert(opened.download matches Some(d) && d.phase is Receiving);

    lemma_run_add(v, open, t.body());
    lemma_body_runs(opened, t, t.chunks.len() as int);
    assert(t.body().take(t.chunks.len() as int) =~= t.body());
    let received = v.run(open + t.body());

    let close = t.closing(a);
    lemma_run_add(v, open + t.body(), close);
    let none = Seq::<InstallerEventView>::empty();
    let c1 = none.push(close[0]);
    let c2 = c1.push(close[1]);
    let c3 = c2.push(close[2]);
    let c4 = c3.push(close[3]);
    lemma_run_push(received, none, close[0]);
    lemma_run_push(received, c1, close[1]);
    lemma_run_push(received, c2, close[2]);
    lemma_run_push(received, c3, close[3]);
    lemma_run_push(received, c4, close[4]);
    assert(c4.push(close[4]) =~= close);
    let hashing = received.run(c2);
    assert(hashing.download matches Some(d) && d.phase is Hashing);
    let extracting = received.run(c3);
    assert(extracting == (InstallerView {
        install: v.install.at(install::StageView::Extracting),
        download: None,
    }));
    let discarding = received.run(c4);
    assert(discarding.install.stage is Discarding);
    let moved = InstallView {
        index: v.install.index + 1,
        completed: v.install.completed + a.size_bytes,
        ..v.install
    };
    assert(discarding == (InstallerView {
        install: moved.at(install::StageView::Discarding),
        download: None,
    }));
    assert(moved.at(install::StageView::Discarding).next_archive(false).0 == moved.next_archive(
        false,
    ).0);
}

/// What the host reports while all goes well, up to the extraction of the first
/// `n` archives.
pub open spec fn smooth_archives(
    archives: Seq<ArchiveView>,
    transfers: Seq<Transfer>,
    n: nat,
) -> Seq<InstallerEventView>
    decreases n,
{
    if n == 0 {
        seq![InstallerEventView::Install(InstallEventView::Prepared { cancelled: false })]
    } else {
        smooth_archives(archives, transfers, (n - 1) as nat) + transfers[n - 1].events(
            archives[n - 1],
        )
    }
}

/// As long as all goes well, the archives are downloaded, verified and extracted
/// in order, and behind the last one the staging directory is checked.
pub proof fn law_installer_takes_archives_in_order(
    version: Seq<char>,
    archives: Seq<ArchiveView>,
    transfers: Seq<Transfer>,
    n: nat,
)
    requires
        n <= archives.len(),
        transfers.len() == archives.len(),
        runtime::total_size(archives) <= u64::MAX,
        forall|i: int|
            0 <= i < archives.len() ==> (#[trigger] archives[i]).extract == "zip"@
                && transfers[i].serves(archives[i]),
    ensures
        ({
            let start = installer_start(version, archives);
            start.run(smooth_archives(archives, transfers, n)) == (InstallerView {
                install: InstallView {
                    stage: if n < archives.len() {
                        install::StageView::Downloading
                    } else {
                        install::StageView::Finalizing
                    },
                    index: n,
                    completed: runtime::total_size(archives.take(n as int)),
                    ..start.install
                },
                download: None,
            })
        }),
    decreases n,
{
    let start = installer_start(version, archives);
    if n == 0 {
        assert(archives.take(0) =~= Seq::empty());
        let first = InstallerEventView::Install(InstallEventView::Prepared { cancelled: false });
        lemma_run_push(start, Seq::empty(), first);
        assert(Seq::empty().push(first) =~= smooth_archives(archives, transfers, 0));
    } else {
        let k = (n - 1) as nat;
        let before = smooth_archives(archives, transfers, k);
        law_installer_takes_archives_in_order(version, archives, transfers, k);
        lemma_start_wf(version, archives);
        law_installer_run_keeps_wf(start, before);
        assert(archives[k as int].extract == "zip"@);
        lemma_run_add(start, before, transfers[k as int].events(archives[k as int]));
        lemma_archive_runs(start.run(before), transfers[k as int]);
        runtime::lemma_total_size_of_front(archives, k as int);
    }
}

/// An install in which all goes well succeeds: with every archive downloaded,
/// verified and extracted, the staging directory moved into place, and the
/// marker written.
pub proof fn law_smooth_installer_succeeds(
    version: Seq<char>,
    archives: Seq<ArchiveView>,
    transfers: Seq<Transfer>,
    runtime_present: bool,
)
    requires
        transfers.len() == archives.len(),
        runtime::total_size(archives) <= u64::MAX,
        forall|i: int|
            0 <= i < archives.len() ==> (#[trigger] archives[i]).extract == "zip"@
                && transfers[i].serves(archives[i]),
    ensures
        ({
            let checked = smooth_archives(archives, transfers, archives.len()).push(
                InstallerEventView::Install(InstallEventView::Finalized),
            ).push(
                InstallerEventView::Install(InstallEventView::OldCleared { runtime_present }),
            );
            let ready = if runtime_present {
                checked.push(InstallerEventView::Install(InstallEventView::SetAside))
            } else {
                checked
            };
            installer_start(version, archives).run(
                ready.push(InstallerEventView::Install(InstallEventView::Activated)),
            ).step(InstallerEventView::Install(InstallEventView::Marked)).1
                == InstallerActionView::Install(InstallActionView::Complete)
        }),
{
    let start = installer_start(version, archives);
    law_installer_takes_archives_in_order(version, archives, transfers, archives.len());
    let events = smooth_archives(archives, transfers, archives.len());
    let finalized = InstallerEventView::Install(InstallEventView::Finalized);
    let cleared = InstallerEventView::Install(InstallEventView::OldCleared { runtime_present });
    let aside = InstallerEventView::Install(InstallEventView::SetAside);
    lemma_run_push(start, events, finalized);
    lemma_run_push(start, events.push(finalized), cleared);
    let checked = events.push(finalized).push(cleared);
    lemma_run_push(start, checked, aside);
    let ready = if runtime_present {
        checked.push(aside)
    } else {
        checked
    };
    lemma_run_push(
        start,
        ready,
        InstallerEventView::Install(InstallEventView::Activated),
    );
}

/// The bytes that are done: those of the extracted archives, and what stands in
/// the file of the one that is being downloaded.
pub open spec fn bytes_done(v: InstallerView) -> nat {
    v.install.completed + if v.install.stage is Extracting {
        v.archive().size_bytes
    } else {
        match v.download {
            Some(d) => d.downloaded,
            None => 0,
        }
    }
}

/// What was measured is what was written, and nothing is counted before a
/// response.
pub open spec fn counted(v: InstallerView) -> bool {
    v.download matches Some(d) ==> {
        &&& d.phase is Hashing ==> d.measured == d.downloaded
        &&& d.phase is Requesting ==> d.downloaded == 0
    }
}

/// One event never lessens the bytes that are done, as long as the install has
/// not ended; and what it reports are these bytes.
proof fn lemma_step_progress(v: InstallerView, event: InstallerEventView)
    requires
        v.wf(),
        counted(v),
        v.measures_truly(event),
        forall|i: int|
            0 <= i < v.install.archives.len() ==> (#[trigger] v.install.archives[i]).size_bytes > 0,
    ensures
        counted(v.step(event).0),
        v.step(event).0.install.total == v.install.total,
        v.install.stage is Ended ==> v.step(event).0.install.stage is Ended && !(v.step(
            event,
        ).1 is Write),
        !(v.step(event).0.install.stage is Ended) ==> bytes_done(v) <= bytes_done(v.step(event).0),
        v.step(event).1 matches InstallerActionView::Write { downloaded, total } ==> {
            &&& downloaded == bytes_done(v.step(event).0)
            &&& total == v.install.total
            &&& !(v.step(event).0.install.stage is Ended)
        },
{
    if v.install.stage is Downloading {
        assert(v.archive().size_bytes > 0);
    }
}

/// The progress of an install never goes back: over any row of events, with
/// files that have the size of what was written to them, the bytes that are
/// reported only grow, over all archives, and the total is that of all of them.
pub proof fn law_progress_never_goes_back(
    version: Seq<char>,
    archives: Seq<ArchiveView>,
    events: Seq<InstallerEventView>,
)
    requires
        runtime::total_size(archives) <= u64::MAX,
        forall|i: int| 0 <= i < archives.len() ==> (#[trigger] archives[i]).size_bytes > 0,
        installer_start(version, archives).run_measures_truly(events),
    ensures
        ({
            let reports = installer_start(version, archives).reports(events);
            &&& forall|i: int, j: int|
                0 <= i <= j < reports.len() ==> (#[trigger] reports[i]).0 <= (
                #[trigger] reports[j]).0
            &&& forall|i: int|
                0 <= i < reports.len() ==> (#[trigger] reports[i]).1 == runtime::total_size(
                    archives,
                )
        }),
{
    lemma_run_progress(version, archives, events);
}

/// The reports up to a point only grow, and do not exceed the bytes that are
/// done then.
proof fn lemma_run_progress(
    version: Seq<char>,
    archives: Seq<ArchiveView>,
    events: Seq<InstallerEventView>,
)
    requires
        runtime::total_size(archives) <= u64::MAX,
        forall|i: int| 0 <= i < archives.len() ==> (#[trigger] archives[i]).size_bytes > 0,
        installer_start(version, archives).run_measures_truly(events),
    ensures
        ({
            let start = installer_start(version, archives);
            let now = start.run(events);
            let reports = start.reports(events);
            &&& counted(now)
            &&& now.install.total == runtime::total_size(archives)
            &&& forall|i: int, j: int|
                0 <= i <= j < reports.len() ==> (#[trigger] reports[i]).0 <= (
                #[trigger] reports[j]).0
            &&& forall|i: int|
                0 <= i < reports.len() ==> (#[trigger] reports[i]).1 == runtime::total_size(
                    archives,
                )
            &&& !(now.install.stage is Ended) ==> forall|i: int|
                0 <= i < reports.len() ==> (#[trigger] reports[i]).0 <= bytes_done(now)
        }),
    decreases events.len(),
{
    let start = installer_start(version, archives);
    if events.len() > 0 {
        let init = events.drop_last();
        lemma_run_progress(version, archives, init);
        lemma_start_wf(version, archives);
        law_installer_run_keeps_wf(start, init);
        let before = start.run(init);
        lemma_step_progress(before, events.last());
        let earlier = start.reports(init);
        let reports = start.reports(events);
        let now = start.run(events);
        if let InstallerActionView::Write { downloaded, total } = before.step(events.last()).1 {
            assert(reports == earlier.push((downloaded, total)));
            assert forall|i: int| 0 <= i < reports.len() implies (#[trigger] reports[i]).0
                <= bytes_done(now) && reports[i].1 == runtime::total_size(archives) by {
                if i < earlier.len() {
                    assert(reports[i] == earlier[i]);
                }
            }
            assert forall|i: int, j: int| 0 <= i <= j < reports.len() implies (
            #[trigger] reports[i]).0 <= (#[trigger] reports[j]).0 by {
                if j < earlier.len() {
                    assert(reports[i] == earlier[i]);
                    assert(reports[j] == earlier[j]);
                }
            }
        } else {
            assert(reports == earlier);
        }
    } else {
        assert(start.reports(events) =~= Seq::empty());
    }
}

/// A download inside the install is started with what is pinned for the archive
/// at the index, and asks for what its partial file lacks.
pub proof fn law_installer_downloads_the_pinned_archive(v: InstallerView, part_len: Option<u64>)
    requires
        v.wf(),
        v.install.stage is Downloading,
        v.download is None,
    ensures
        ({
            let (next, action) = v.step(InstallerEventView::Part(part_len));
            let archive = v.install.archives[v.install.index as int];
            &&& next.install == v.install
            &&& next.download matches Some(d) && {
                &&& d.phase is Requesting
                &&& d.url == archive.url
                &&& d.expected_size == archive.size_bytes
                &&& d.expected_sha256 == archive.sha256
                &&& part_len is None ==> d.resume_from == 0
                &&& part_len matches Some(n) ==> d.resume_from == n
            }
            &&& part_len is None ==> action == InstallerActionView::Download(
                DownloadActionView::Request { range: None },
            )
            &&& part_len matches Some(n) ==> n > 0 ==> action == InstallerActionView::Download(
                DownloadActionView::Request {
                    range: Some("bytes="@ + text::digits(n as nat) + "-"@),
                },
            )
        }),
{
}

/// How a download shows in the install: its steps are passed on, a piece is
/// reported with the bytes of the archives before it and the total of all, a
/// failure ends the install with its own error, and success moves it on.
pub proof fn law_installer_follows_the_download(v: InstallerView, report: DownloadEventView)
    requires
        v.wf(),
        v.download is Some,
    ensures
        ({
            let (next, action) = v.step(InstallerEventView::Download(report));
            let (d, asked) = v.download->0.step(report);
            match asked {
                DownloadActionView::Complete => {
                    let (moved, step) = v.install.step(InstallEventView::Downloaded);
                    &&& next.install == moved
                    &&& next.download is None
                    &&& action == InstallerActionView::Install(step)
                },
                DownloadActionView::Fail { error, remove_part } => {
                    &&& next.install.stage is Ended
                    &&& next.download is None
                    &&& action == (InstallerActionView::Abandon { error, remove_part })
                },
                DownloadActionView::WriteChunk { downloaded, total } => {
                    &&& next.install == v.install
                    &&& next.download == Some(d)
                    &&& action == (InstallerActionView::Write {
                        downloaded: runtime::total_size(
                            v.install.archives.take(v.install.index as int),
                        ) + downloaded,
                        total: runtime::total_size(v.install.archives),
                    })
                },
                _ => {
                    &&& next.install == v.install
                    &&& next.download == Some(d)
                    &&& action == InstallerActionView::Download(asked)
                },
            }
        }),
{
}

/// Every other report is passed to the steps of the install.
pub proof fn law_installer_follows_the_install(v: InstallerView, report: InstallEventView)
    requires
        v.wf(),
        !(report is Downloaded),
    ensures
        ({
            let (next, action) = v.step(InstallerEventView::Install(report));
            let (moved, step) = v.install.step(report);
            &&& next.install == moved
            &&& action == InstallerActionView::Install(step)
            &&& moved.stage is Downloading && v.install.stage is Downloading ==> next.download
                == v.download
            &&& !(moved.stage is Downloading) ==> next.download is None
        }),
{
}

/// An install begins with nothing done, and the manifest as it is.
pub proof fn law_installer_begins_with_the_manifest(version: Seq<char>, archives: Seq<ArchiveView>)
    ensures
        ({
            let start = installer_start(version, archives);
            &&& start.install.version == version
            &&& start.install.archives == archives
            &&& start.install.stage is Preparing
            &&& start.install.index == 0
            &&& start.install.completed == 0
            &&& start.install.total == runtime::total_size(archives)
            &&& start.download is None
        }),
{
}

/// What an event and an action hold is what they say.
pub proof fn law_installer_says_what_it_holds(
    report: InstallEvent,
    progress: DownloadEvent,
    part_len: Option<u64>,
    step: InstallAction,
    transfer: DownloadAction,
    n: u64,
    k: u64,
    error: RuntimeError,
    remove_part: bool,
)
    ensures
        InstallerEvent::Install(report)@ == InstallerEventView::Install(report@),
        InstallerEvent::Part(part_len)@ == InstallerEventView::Part(part_len),
        InstallerEvent::Download(progress)@ == InstallerEventView::Download(progress@),
        InstallerAction::Install(step)@ == InstallerActionView::Install(step@),
        InstallerAction::Download(transfer)@ == InstallerActionView::Download(transfer@),
        (InstallerAction::Write { downloaded: n, total: k })@ == (InstallerActionView::Write {
            downloaded: n as nat,
            total: k as nat,
        }),
        (InstallerAction::Abandon { error, remove_part })@ == (InstallerActionView::Abandon {
            error: error@,
            remove_part,
        }),
        InstallerAction::Ignore@ is Ignore,
{
}

/// The report that a file was checked carries the digest of its bytes.
pub proof fn law_checked_file_is_hashed(data: Seq<u8>)
    ensures
        file_checked(data) == InstallerEventView::Download(
            DownloadEventView::Hashed(digest::hex(digest::sha256(data))),
        ),
{
}

/// A partial file is asked for once for each archive, and a download is heard of
/// only while there is one.
pub proof fn law_misplaced_download_is_ignored(
    v: InstallerView,
    part_len: Option<u64>,
    report: DownloadEventView,
)
    ensures
        !(v.install.stage is Downloading) || v.download is Some ==> v.step(
            InstallerEventView::Part(part_len),
        ) == (v, InstallerActionView::Ignore),
        v.download is None ==> v.step(InstallerEventView::Download(report)) == (
            v,
            InstallerActionView::Ignore,
        ),
{
}

} // verus!
