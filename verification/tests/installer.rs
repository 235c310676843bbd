use echo::download::{DownloadAction, DownloadEvent};
use echo::install::{InstallAction, InstallEvent};
use echo::installer::{Installer, InstallerAction, InstallerEvent};
use echo::runtime::{RuntimeArchive, RuntimeError, RuntimeManifest};

const ABC: &str = "BA7816BF8F01CFEA414140DE5DAE2223B00361A396177A9CB410FF61F20015AD";

fn archive(name: &str) -> RuntimeArchive {
    RuntimeArchive {
        name: name.to_string(),
        url: format!("https://example.org/{}", name),
        sha256: ABC.to_string(),
        size_bytes: 3,
        extract: "zip".to_string(),
    }
}

fn begin() -> Installer {
    let manifest = RuntimeManifest {
        version: "1.2".to_string(),
        install_bytes: 0,
        archives: vec![archive("a.zip"), archive("b.zip")],
    };
    let (mut installer, action) = Installer::begin(manifest, false).unwrap();
    assert!(matches!(action, InstallerAction::Install(InstallAction::Prepare)));
    let prepared = InstallerEvent::Install(InstallEvent::Prepared { cancelled: false });
    assert!(matches!(
        installer.advance(prepared),
        InstallerAction::Install(InstallAction::Download { size_bytes: 3, .. })
    ));
    installer
}

fn download(installer: &mut Installer, event: DownloadEvent) -> InstallerAction {
    let event = InstallerEvent::Download(event);
    assert!(installer.fits(&event));
    installer.advance(event)
}

fn response(length: u64) -> DownloadEvent {
    DownloadEvent::Response {
        status: 200,
        status_text: "200 OK".to_string(),
        content_length: Some(length),
    }
}

fn chunk(len: u64) -> DownloadEvent {
    DownloadEvent::Chunk { cancelled: false, chunk: Ok(len) }
}

fn receive(installer: &mut Installer) -> Vec<(u64, u64)> {
    assert!(matches!(
        installer.advance(InstallerEvent::Part(None)),
        InstallerAction::Download(DownloadAction::Request { range: None })
    ));
    assert!(matches!(
        download(installer, response(3)),
        InstallerAction::Download(DownloadAction::OpenPart { append: false })
    ));
    let mut reports = Vec::new();
    for len in [1, 2] {
        match download(installer, chunk(len)) {
            InstallerAction::Write { downloaded, total } => reports.push((downloaded, total)),
            other => panic!("{:?}", other),
        }
    }
    assert!(matches!(
        download(installer, DownloadEvent::StreamEnded),
        InstallerAction::Download(DownloadAction::Measure)
    ));
    assert!(matches!(
        download(installer, DownloadEvent::Measured(3)),
        InstallerAction::Download(DownloadAction::Hash)
    ));
    reports
}

#[test]
fn installed_component_needs_no_installer() {
    let manifest = RuntimeManifest {
        version: "1.2".to_string(),
        install_bytes: 0,
        archives: Vec::new(),
    };
    assert!(Installer::begin(manifest, true).is_none());
}

#[test]
fn verified_archives_are_extracted_in_order() {
    let mut installer = begin();
    let mut reports = Vec::new();
    for name in ["a.zip", "b.zip"] {
        reports.extend(receive(&mut installer));
        match installer.check_file(b"abc") {
            InstallerAction::Install(InstallAction::Extract { name: extracted, part }) => {
                assert_eq!(extracted, name);
                assert_eq!(part, format!("{}.part", name));
            }
            other => panic!("{:?}", other),
        }
        installer.advance(InstallerEvent::Install(InstallEvent::Extracted));
        installer.advance(InstallerEvent::Install(InstallEvent::Discarded { cancelled: false }));
    }
    assert_eq!(reports, vec![(1, 6), (3, 6), (4, 6), (6, 6)]);
    assert!(matches!(
        installer.advance(InstallerEvent::Install(InstallEvent::Finalized)),
        InstallerAction::Install(InstallAction::ClearOld)
    ));
    let cleared = InstallEvent::OldCleared { runtime_present: true };
    assert!(matches!(
        installer.advance(InstallerEvent::Install(cleared)),
        InstallerAction::Install(InstallAction::SetAside)
    ));
    assert!(matches!(
        installer.advance(InstallerEvent::Install(InstallEvent::SetAside)),
        InstallerAction::Install(InstallAction::Activate)
    ));
    match installer.advance(InstallerEvent::Install(InstallEvent::Activated)) {
        InstallerAction::Install(InstallAction::Mark { version }) => assert_eq!(version, "1.2"),
        other => panic!("{:?}", other),
    }
    assert!(matches!(
        installer.advance(InstallerEvent::Install(InstallEvent::Marked)),
        InstallerAction::Install(InstallAction::Complete)
    ));
}

#[test]
fn partial_archive_is_continued_and_extracted() {
    let mut installer = begin();
    match installer.advance(InstallerEvent::Part(Some(1))) {
        InstallerAction::Download(DownloadAction::Request { range }) => {
            assert_eq!(range, Some("bytes=1-".to_string()))
        }
        other => panic!("{:?}", other),
    }
    let rest = DownloadEvent::Response {
        status: 206,
        status_text: "206 Partial Content".to_string(),
        content_length: Some(2),
    };
    download(&mut installer, rest);
    match download(&mut installer, chunk(2)) {
        InstallerAction::Write { downloaded, total } => assert_eq!((downloaded, total), (3, 6)),
        other => panic!("{:?}", other),
    }
    download(&mut installer, DownloadEvent::StreamEnded);
    download(&mut installer, DownloadEvent::Measured(3));
    assert!(matches!(
        installer.check_file(b"abc"),
        InstallerAction::Install(InstallAction::Extract { .. })
    ));
}

#[test]
fn unverified_archive_is_never_extracted() {
    let mut installer = begin();
    receive(&mut installer);
    match installer.check_file(b"abd") {
        InstallerAction::Abandon { error, remove_part } => {
            assert!(matches!(error, RuntimeError::HashMismatch { .. }));
            assert!(remove_part);
        }
        other => panic!("{:?}", other),
    }
    assert!(matches!(
        installer.advance(InstallerEvent::Install(InstallEvent::Extracted)),
        InstallerAction::Install(InstallAction::Ignore)
    ));
}

#[test]
fn download_cannot_be_claimed() {
    let mut installer = begin();
    assert!(matches!(
        installer.advance(InstallerEvent::Install(InstallEvent::Downloaded)),
        InstallerAction::Ignore
    ));
    receive(&mut installer);
    assert!(matches!(
        installer.advance(InstallerEvent::Install(InstallEvent::Downloaded)),
        InstallerAction::Ignore
    ));
    assert!(matches!(installer.advance(InstallerEvent::Part(None)), InstallerAction::Ignore));
}

#[test]
fn cancelled_archive_keeps_its_part() {
    let mut installer = begin();
    installer.advance(InstallerEvent::Part(Some(1)));
    let partial = DownloadEvent::Response {
        status: 206,
        status_text: "206 Partial Content".to_string(),
        content_length: Some(2),
    };
    download(&mut installer, partial);
    let cancelled = DownloadEvent::Chunk { cancelled: true, chunk: Ok(1) };
    match download(&mut installer, cancelled) {
        InstallerAction::Abandon { error, remove_part } => {
            assert_eq!(error.message(), "Download cancelled");
            assert!(!remove_part);
        }
        other => panic!("{:?}", other),
    }
}

#[test]
fn unreadable_part_fails_the_install() {
    let mut installer = begin();
    let failed = InstallEvent::Failed(RuntimeError::Host("denied".to_string()));
    match installer.advance(InstallerEvent::Install(failed)) {
        InstallerAction::Install(InstallAction::Fail(error)) => {
            assert_eq!(error.message(), "denied")
        }
        other => panic!("{:?}", other),
    }
    assert!(matches!(
        installer.advance(InstallerEvent::Download(DownloadEvent::StreamEnded)),
        InstallerAction::Ignore
    ));
}

#[test]
fn oversized_numbers_are_told() {
    let mut installer = begin();
    installer.advance(InstallerEvent::Part(Some(5)));
    let huge = DownloadEvent::Response {
        status: 206,
        status_text: "206 Partial Content".to_string(),
        content_length: Some(u64::MAX),
    };
    assert!(!installer.fits(&InstallerEvent::Download(huge)));
    assert!(installer.fits(&InstallerEvent::Download(DownloadEvent::StreamEnded)));
}
