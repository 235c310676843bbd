use echo::runtime::{
    extract_entry, finalize_runtime_dir, install_failure, installed_version, progress_due,
    python_executable, rename_with_retry, required_files, sanitize_component, EntryAction,
    QwenRuntimeManager, RetryStep, RuntimeError, ZipEntry, CACHE_DIR, OLD_DIR, RUNTIME_DIR,
    SENTINEL_FILE, STAGING_DIR,
};

fn s(text: &str) -> String {
    text.to_string()
}

#[test]
fn every_error_has_its_message() {
    let cases = vec![
        (RuntimeError::AlreadyInstalling, "Qwen runtime install is already in progress"),
        (RuntimeError::Cancelled, "Download cancelled"),
        (
            RuntimeError::HttpStatus { url: s("u"), status: s("500 Internal Server Error") },
            "Failed to download u: HTTP 500 Internal Server Error",
        ),
        (
            RuntimeError::SizeMismatch { url: s("u"), expected: 10, reported: 11 },
            "Download size mismatch for u: expected 10 bytes, server reports 11",
        ),
        (
            RuntimeError::Incomplete { url: s("u"), expected: 10, actual: 9 },
            "Download incomplete for u: expected 10 bytes, got 9",
        ),
        (
            RuntimeError::HashMismatch { url: s("u") },
            "SHA256 mismatch for u: file is corrupt. Please retry.",
        ),
        (
            RuntimeError::UnsupportedArchive { name: s("n") },
            "Unsupported archive type in runtime manifest: n",
        ),
        (
            RuntimeError::MissingFile { rel: s("python.exe") },
            "Qwen runtime payload is incomplete: missing python.exe",
        ),
        (
            RuntimeError::UnsafePath { archive: s("a.zip"), name: s("../x") },
            "Unsafe path in archive a.zip: ../x",
        ),
        (
            RuntimeError::RenameFailed { from: s("a"), to: s("b"), cause: s("c") },
            "Failed to rename a → b: c",
        ),
        (
            RuntimeError::ActivationFailed { cause: s("c") },
            "Failed to activate Qwen runtime (is the model still loaded? Unload it and retry): c",
        ),
        (RuntimeError::WindowsOnly, "The bundled Qwen runtime is currently Windows-only"),
        (
            RuntimeError::NotInstalled,
            "Qwen runtime is not installed. Download it from the model settings.",
        ),
        (RuntimeError::Host(s("disk full")), "disk full"),
    ];
    for (error, message) in cases {
        assert_eq!(error.message(), message);
    }
    assert_eq!(
        install_failure(&RuntimeError::Cancelled),
        "Qwen runtime install failed: Download cancelled"
    );
}

#[test]
fn directories_of_the_component() {
    assert_eq!(RUNTIME_DIR, "qwen-runtime");
    assert_eq!(STAGING_DIR, "qwen-runtime.staging");
    assert_eq!(CACHE_DIR, "qwen-runtime.cache");
    assert_eq!(OLD_DIR, "qwen-runtime.old");
    assert_eq!(SENTINEL_FILE, ".installed");
}

#[test]
fn interpreter_is_windows_only() {
    assert!(matches!(python_executable(false, true), Err(RuntimeError::WindowsOnly)));
    assert!(matches!(python_executable(true, false), Err(RuntimeError::NotInstalled)));
    assert_eq!(python_executable(true, true).unwrap(), ("qwen-runtime", "python.exe"));
}

#[test]
fn version_is_read_without_blanks() {
    assert_eq!(installed_version(" 1.2.3\r\n"), "1.2.3");
}

#[test]
fn component_names_are_sanitized() {
    assert_eq!(sanitize_component("a b/c:d\\e*f"), "a_b_c_d_e_f");
    assert_eq!(sanitize_component("torch-2.7.1_cu128.whl"), "torch-2.7.1_cu128.whl");
    assert_eq!(sanitize_component("ёж№"), "ёж_");
}

#[test]
fn progress_is_throttled() {
    assert!(!progress_due(0));
    assert!(!progress_due(99));
    assert!(progress_due(100));
}

#[test]
fn entries_are_extracted_flat() {
    let entry = |enclosed: Option<&str>, is_dir: bool| ZipEntry {
        name: s("../x"),
        enclosed: enclosed.map(|p| p.to_string()),
        is_dir,
    };
    match extract_entry("a.zip", entry(Some("d/"), true)) {
        Ok(EntryAction::CreateDir(path)) => assert_eq!(path, "d/"),
        other => panic!("{:?}", other),
    }
    match extract_entry("a.zip", entry(Some("d/f"), false)) {
        Ok(EntryAction::WriteFile(path)) => assert_eq!(path, "d/f"),
        other => panic!("{:?}", other),
    }
    match extract_entry("a.zip", entry(None, false)) {
        Err(e) => assert_eq!(e.message(), "Unsafe path in archive a.zip: ../x"),
        other => panic!("{:?}", other),
    }
}

#[test]
fn complete_payload_is_configured() {
    let writes = finalize_runtime_dir(&vec![true; 5], "1.2").unwrap();
    assert_eq!(writes.len(), 2);
    assert_eq!(writes[0].path, "python312._pth");
    assert_eq!(writes[0].contents, "python312.zip\n.\nimport site\n");
    assert_eq!(writes[1].path, ".runtime-version");
    assert_eq!(writes[1].contents, "1.2");
}

#[test]
fn first_missing_file_is_reported() {
    let files = required_files();
    assert_eq!(
        files,
        vec![
            "python.exe",
            "python312.dll",
            "python312.zip",
            "qwen_asr/__init__.py",
            "torch/__init__.py"
        ]
    );
    for i in 0..files.len() {
        let present: Vec<bool> = (0..files.len()).map(|k| k < i).collect();
        let error = finalize_runtime_dir(&present, "1.2").unwrap_err();
        assert_eq!(
            error.message(),
            format!("Qwen runtime payload is incomplete: missing {}", files[i])
        );
    }
}

#[test]
fn rename_is_tried_sixteen_times() {
    assert_eq!(rename_with_retry(1, true), RetryStep::Done);
    assert_eq!(rename_with_retry(1, false), RetryStep::PauseThenRetry(500));
    assert_eq!(rename_with_retry(15, false), RetryStep::PauseThenRetry(500));
    assert_eq!(rename_with_retry(16, false), RetryStep::PauseThenFail(500));
}

#[test]
fn one_install_at_a_time() {
    let mut m = QwenRuntimeManager::new();
    assert!(m.claim_install().is_ok());
    assert!(matches!(m.claim_install(), Err(RuntimeError::AlreadyInstalling)));
    m.finish_install(Ok(())).1.unwrap();
    assert!(m.claim_install().is_ok());
}

#[test]
fn status_tells_what_is_under_way() {
    let mut m = QwenRuntimeManager::new();
    m.claim_install().unwrap();
    let status = m.status(false, None);
    assert!(!status.installed);
    assert!(status.installing);
    assert_eq!(status.version, None);
    assert_eq!((status.downloaded_bytes, status.total_bytes), (0, 0));
    m.finish_install(Ok(())).1.unwrap();
    let status = m.status(true, Some(s("1.2")));
    assert!(status.installed);
    assert!(!status.installing);
    assert_eq!(status.version, Some(s("1.2")));
}

#[test]
fn finished_install_is_announced() {
    let mut m = QwenRuntimeManager::new();
    m.claim_install().unwrap();
    let started = m.start_install();
    assert_eq!((started.state.as_str(), started.error), ("installing", None));
    let (event, outcome) = m.finish_install(Ok(()));
    assert_eq!((event.state.as_str(), event.error), ("installed", None));
    assert!(outcome.is_ok());
}

#[test]
fn failed_install_is_announced() {
    let mut m = QwenRuntimeManager::new();
    m.claim_install().unwrap();
    m.start_install();
    let (event, outcome) = m.finish_install(Err(RuntimeError::Host(s("disk full"))));
    assert_eq!((event.state.as_str(), event.error), ("failed", Some(s("disk full"))));
    assert_eq!(outcome.unwrap_err().message(), "disk full");
}

#[test]
fn cancelled_install_is_announced_as_such() {
    let mut m = QwenRuntimeManager::new();
    m.cancel_download();
    m.claim_install().unwrap();
    m.start_install();
    assert!(!m.is_cancelled());
    m.cancel_download();
    assert!(m.is_cancelled());
    let (event, outcome) = m.finish_install(Err(RuntimeError::Host(s("reset"))));
    assert_eq!((event.state.as_str(), event.error), ("cancelled", Some(s("Download cancelled"))));
    assert!(matches!(outcome, Err(RuntimeError::Cancelled)));
}
