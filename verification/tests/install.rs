use echo::install::{part_file_name, InstallAction, InstallEvent, Installation};
use echo::runtime::{RuntimeArchive, RuntimeError, RuntimeManifest};

fn archive(name: &str, size_bytes: u64, extract: &str) -> RuntimeArchive {
    RuntimeArchive {
        name: name.to_string(),
        url: format!("https://example.org/{}", name),
        sha256: "00".to_string(),
        size_bytes,
        extract: extract.to_string(),
    }
}

fn manifest(extract: &str) -> RuntimeManifest {
    RuntimeManifest {
        version: "1.2".to_string(),
        install_bytes: 0,
        archives: vec![archive("a b.zip", 10, "zip"), archive("c.whl", 5, extract)],
    }
}

fn begin() -> Installation {
    let (i, action) = Installation::begin(manifest("zip"), false).unwrap();
    assert!(matches!(action, InstallAction::Prepare));
    i
}

fn past_archives() -> Installation {
    let mut i = begin();
    i.advance(InstallEvent::Prepared { cancelled: false });
    for _ in 0..2 {
        i.advance(InstallEvent::Downloaded);
        i.advance(InstallEvent::Extracted);
        i.advance(InstallEvent::Discarded { cancelled: false });
    }
    i
}

fn failure(action: InstallAction) -> String {
    match action {
        InstallAction::Fail(error) => error.message(),
        other => panic!("not a failure: {:?}", other),
    }
}

#[test]
fn installed_runtime_is_left_alone() {
    assert!(Installation::begin(manifest("zip"), true).is_none());
}

#[test]
fn smooth_install_goes_through_every_archive() {
    let mut i = begin();
    match i.advance(InstallEvent::Prepared { cancelled: false }) {
        InstallAction::Download { part, url, size_bytes, sha256 } => {
            assert_eq!(part, "a_b.zip.part");
            assert_eq!(url, "https://example.org/a b.zip");
            assert_eq!(size_bytes, 10);
            assert_eq!(sha256, "00");
        }
        other => panic!("{:?}", other),
    }
    assert_eq!(i.progress(4), (4, 15));
    match i.advance(InstallEvent::Downloaded) {
        InstallAction::Extract { part, name } => {
            assert_eq!(part, "a_b.zip.part");
            assert_eq!(name, "a b.zip");
        }
        other => panic!("{:?}", other),
    }
    match i.advance(InstallEvent::Extracted) {
        InstallAction::Discard { part } => assert_eq!(part, "a_b.zip.part"),
        other => panic!("{:?}", other),
    }
    match i.advance(InstallEvent::Discarded { cancelled: false }) {
        InstallAction::Download { part, .. } => assert_eq!(part, "c.whl.part"),
        other => panic!("{:?}", other),
    }
    assert_eq!(i.progress(5), (15, 15));
    i.advance(InstallEvent::Downloaded);
    i.advance(InstallEvent::Extracted);
    match i.advance(InstallEvent::Discarded { cancelled: false }) {
        InstallAction::Finalize { version } => assert_eq!(version, "1.2"),
        other => panic!("{:?}", other),
    }
    assert!(matches!(i.advance(InstallEvent::Finalized), InstallAction::ClearOld));
    assert!(matches!(
        i.advance(InstallEvent::OldCleared { runtime_present: true }),
        InstallAction::SetAside
    ));
    assert!(matches!(i.advance(InstallEvent::SetAside), InstallAction::Activate));
    match i.advance(InstallEvent::Activated) {
        InstallAction::Mark { version } => assert_eq!(version, "1.2"),
        other => panic!("{:?}", other),
    }
    assert!(matches!(i.advance(InstallEvent::Marked), InstallAction::Complete));
    assert!(matches!(i.advance(InstallEvent::Marked), InstallAction::Ignore));
}

#[test]
fn cancelled_install_stops_before_the_next_archive() {
    let mut i = begin();
    assert_eq!(
        failure(i.advance(InstallEvent::Prepared { cancelled: true })),
        "Download cancelled"
    );
    let mut i = begin();
    i.advance(InstallEvent::Prepared { cancelled: false });
    i.advance(InstallEvent::Downloaded);
    i.advance(InstallEvent::Extracted);
    assert_eq!(
        failure(i.advance(InstallEvent::Discarded { cancelled: true })),
        "Download cancelled"
    );
}

#[test]
fn cancellation_after_the_last_archive_is_too_late() {
    let mut i = begin();
    i.advance(InstallEvent::Prepared { cancelled: false });
    i.advance(InstallEvent::Downloaded);
    i.advance(InstallEvent::Extracted);
    i.advance(InstallEvent::Discarded { cancelled: false });
    i.advance(InstallEvent::Downloaded);
    i.advance(InstallEvent::Extracted);
    assert!(matches!(
        i.advance(InstallEvent::Discarded { cancelled: true }),
        InstallAction::Finalize { .. }
    ));
}

#[test]
fn other_archive_types_are_refused() {
    let (mut i, _) = Installation::begin(manifest("tar"), false).unwrap();
    i.advance(InstallEvent::Prepared { cancelled: false });
    i.advance(InstallEvent::Downloaded);
    i.advance(InstallEvent::Extracted);
    i.advance(InstallEvent::Discarded { cancelled: false });
    assert_eq!(
        failure(i.advance(InstallEvent::Downloaded)),
        "Unsupported archive type in runtime manifest: c.whl"
    );
}

#[test]
fn failed_activation_puts_the_old_runtime_back() {
    let mut i = past_archives();
    i.advance(InstallEvent::Finalized);
    i.advance(InstallEvent::OldCleared { runtime_present: true });
    i.advance(InstallEvent::SetAside);
    let failed = InstallEvent::ActivationFailed { cause: "locked".to_string(), old_present: true };
    assert!(matches!(i.advance(failed), InstallAction::RollBack));
    assert_eq!(
        failure(i.advance(InstallEvent::RolledBack)),
        "Failed to activate Qwen runtime (is the model still loaded? Unload it and retry): locked"
    );
}

#[test]
fn failed_first_activation_has_nothing_to_put_back() {
    let mut i = past_archives();
    i.advance(InstallEvent::Finalized);
    assert!(matches!(
        i.advance(InstallEvent::OldCleared { runtime_present: false }),
        InstallAction::Activate
    ));
    let failed = InstallEvent::ActivationFailed { cause: "x".to_string(), old_present: false };
    assert!(failure(i.advance(failed)).ends_with("retry): x"));
}

#[test]
fn failure_of_the_host_ends_the_install() {
    let mut i = begin();
    let failed = InstallEvent::Failed(RuntimeError::Host("disk full".to_string()));
    assert_eq!(failure(i.advance(failed)), "disk full");
}

#[test]
fn misplaced_event_is_ignored() {
    let mut i = begin();
    assert!(matches!(i.advance(InstallEvent::Marked), InstallAction::Ignore));
    assert!(matches!(
        i.advance(InstallEvent::Prepared { cancelled: false }),
        InstallAction::Download { .. }
    ));
}

#[test]
fn manifest_without_archives_is_finalized_at_once() {
    let empty = RuntimeManifest {
        version: "v".to_string(),
        install_bytes: 0,
        archives: Vec::new(),
    };
    let (mut i, _) = Installation::begin(empty, false).unwrap();
    assert!(matches!(
        i.advance(InstallEvent::Prepared { cancelled: true }),
        InstallAction::Finalize { .. }
    ));
}

#[test]
fn part_file_names_are_plain() {
    assert_eq!(part_file_name("torch-2.7_x/..\\é"), "torch-2.7_x_.._é.part");
}
