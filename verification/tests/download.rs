use echo::download::{Download, DownloadAction, DownloadEvent};
use echo::runtime::RuntimeError;

const URL: &str = "https://example.org/a.zip";
const ABC: &str = "BA7816BF8F01CFEA414140DE5DAE2223B00361A396177A9CB410FF61F20015AD";

fn start(size: u64, part_len: Option<u64>) -> (Download, DownloadAction) {
    Download::start(URL.to_string(), size, ABC.to_string(), part_len)
}

fn response(status: u16, text: &str, length: Option<u64>) -> DownloadEvent {
    DownloadEvent::Response {
        status,
        status_text: text.to_string(),
        content_length: length,
    }
}

fn chunk(len: u64) -> DownloadEvent {
    DownloadEvent::Chunk { cancelled: false, chunk: Ok(len) }
}

fn failure(action: DownloadAction) -> (String, bool) {
    match action {
        DownloadAction::Fail { error, remove_part } => (error.message(), remove_part),
        other => panic!("not a failure: {:?}", other),
    }
}

#[test]
fn fresh_download_is_verified() {
    let (mut d, action) = start(3, None);
    assert!(matches!(action, DownloadAction::Request { range: None }));
    assert!(matches!(
        d.advance(response(200, "200 OK", Some(3))),
        DownloadAction::OpenPart { append: false }
    ));
    assert!(matches!(
        d.advance(chunk(2)),
        DownloadAction::WriteChunk { downloaded: 2, total: 3 }
    ));
    assert!(matches!(
        d.advance(chunk(1)),
        DownloadAction::WriteChunk { downloaded: 3, total: 3 }
    ));
    assert!(matches!(d.advance(DownloadEvent::StreamEnded), DownloadAction::Measure));
    assert!(matches!(d.advance(DownloadEvent::Measured(3)), DownloadAction::Hash));
    assert!(matches!(d.check_file(b"abc"), DownloadAction::Complete));
    assert!(matches!(d.advance(chunk(1)), DownloadAction::Ignore));
}

#[test]
fn partial_file_is_continued() {
    let (mut d, action) = start(10, Some(4));
    match action {
        DownloadAction::Request { range } => assert_eq!(range, Some("bytes=4-".to_string())),
        other => panic!("{:?}", other),
    }
    assert!(matches!(
        d.advance(response(206, "206 Partial Content", Some(6))),
        DownloadAction::OpenPart { append: true }
    ));
    assert!(matches!(
        d.advance(chunk(6)),
        DownloadAction::WriteChunk { downloaded: 10, total: 10 }
    ));
}

#[test]
fn empty_partial_file_asks_for_everything() {
    let (_, action) = start(10, Some(0));
    assert!(matches!(action, DownloadAction::Request { range: None }));
}

#[test]
fn ignored_range_starts_over_once() {
    let (mut d, _) = start(10, Some(4));
    assert!(matches!(d.advance(response(200, "200 OK", Some(10))), DownloadAction::Restart));
    assert!(matches!(
        d.advance(response(200, "200 OK", Some(10))),
        DownloadAction::OpenPart { append: false }
    ));
}

#[test]
fn refused_request_fails() {
    let (mut d, _) = start(10, Some(4));
    assert_eq!(
        failure(d.advance(response(404, "404 Not Found", None))),
        (format!("Failed to download {}: HTTP 404 Not Found", URL), false)
    );
}

#[test]
fn wrong_reported_size_fails() {
    let (mut d, _) = start(10, Some(4));
    assert_eq!(
        failure(d.advance(response(206, "206 Partial Content", Some(7)))),
        (
            format!("Download size mismatch for {}: expected 10 bytes, server reports 11", URL),
            false
        )
    );
}

#[test]
fn unreported_or_unpinned_size_is_taken() {
    let (mut d, _) = start(10, None);
    assert!(matches!(
        d.advance(response(200, "200 OK", None)),
        DownloadAction::OpenPart { append: false }
    ));
    let (mut d, _) = start(0, None);
    assert!(matches!(
        d.advance(response(200, "200 OK", Some(5))),
        DownloadAction::OpenPart { append: false }
    ));
}

#[test]
fn cancelled_download_keeps_the_partial_file() {
    let (mut d, _) = start(10, None);
    d.advance(response(200, "200 OK", Some(10)));
    assert_eq!(
        failure(d.advance(DownloadEvent::Chunk { cancelled: true, chunk: Ok(1) })),
        ("Download cancelled".to_string(), false)
    );
}

#[test]
fn broken_stream_keeps_the_partial_file() {
    let (mut d, _) = start(10, None);
    d.advance(response(200, "200 OK", Some(10)));
    let broken = DownloadEvent::Chunk { cancelled: false, chunk: Err("reset".to_string()) };
    assert_eq!(failure(d.advance(broken)), ("reset".to_string(), false));
}

#[test]
fn short_file_is_removed() {
    let (mut d, _) = start(10, None);
    d.advance(response(200, "200 OK", Some(10)));
    d.advance(DownloadEvent::StreamEnded);
    assert_eq!(
        failure(d.advance(DownloadEvent::Measured(9))),
        (format!("Download incomplete for {}: expected 10 bytes, got 9", URL), true)
    );
}

#[test]
fn corrupt_file_is_removed() {
    let (mut d, _) = start(3, None);
    d.advance(response(200, "200 OK", Some(3)));
    d.advance(DownloadEvent::StreamEnded);
    d.advance(DownloadEvent::Measured(3));
    assert_eq!(
        failure(d.check_file(b"abd")),
        (format!("SHA256 mismatch for {}: file is corrupt. Please retry.", URL), true)
    );
}

#[test]
fn failing_host_fails_the_download() {
    let (mut d, _) = start(3, None);
    match d.advance(DownloadEvent::HostFailed("disk full".to_string())) {
        DownloadAction::Fail { error: RuntimeError::Host(cause), remove_part: false } => {
            assert_eq!(cause, "disk full")
        }
        other => panic!("{:?}", other),
    }
}
