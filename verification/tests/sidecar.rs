use echo::sidecar::{
    read_response, read_text, shutdown_step, QwenSidecar, SidecarError, WaitEvent, WaitStep, REQUEST_TIMEOUT_SECS,
    SHUTDOWN_LINE, STDERR_TAIL_LINES,
};
use echo::transcription::{
    audio_bytes, temp_audio_name, JobAction, JobEvent, Transcription,
};
use serde_json::Value;

type Sidecar = QwenSidecar<u8>;

fn object(fields: &[(&str, Value)]) -> Value {
    let mut map = serde_json::Map::new();
    for (key, value) in fields {
        map.insert(key.to_string(), value.clone());
    }
    Value::Object(map)
}

fn text(s: &str) -> Value {
    Value::String(s.to_string())
}

fn parse(line: &str) -> Value {
    serde_json::from_str(line).unwrap()
}

fn message<T>(r: Result<T, SidecarError>) -> String {
    match r {
        Ok(_) => panic!("not an error"),
        Err(e) => e.message(),
    }
}

fn finished(step: WaitStep) -> Result<Value, String> {
    match step {
        WaitStep::Finish(result) => result.map_err(|e| e.message()),
        WaitStep::KillAndFinish(e) => Err(format!("killed: {}", e.message())),
        WaitStep::Wait => panic!("still waiting"),
    }
}

#[test]
fn load_request_carries_model_and_device() {
    let mut s = Sidecar::spawn();
    let (id, line) = s.load("C:\\models\\qwen \"x\"", "cuda", 1).unwrap();
    assert_eq!(id, 1);
    assert_eq!(
        parse(&line),
        object(&[
            ("id", Value::from(1u64)),
            ("op", text("load")),
            ("model_path", text("C:\\models\\qwen \"x\"")),
            ("device", text("cuda")),
        ])
    );
    assert!(!line.contains('\n'));
}

#[test]
fn transcribe_request_names_the_language() {
    let mut s = Sidecar::spawn();
    let (_, line) = s.transcribe("/tmp/a.f32", "ru", None, 1).unwrap();
    assert_eq!(
        parse(&line),
        object(&[
            ("id", Value::from(1u64)),
            ("op", text("transcribe")),
            ("audio_path", text("/tmp/a.f32")),
            ("language", text("Russian")),
            ("context", text("")),
        ])
    );
    let (id, line) = s.transcribe("/tmp/b.f32", "auto", Some("имена\nсобственные"), 2).unwrap();
    assert_eq!(id, 2);
    assert_eq!(parse(&line).get("context"), Some(&text("имена\nсобственные")));
    assert_eq!(parse(&line).get("language"), Some(&text("auto")));
    assert!(!line.contains('\n'));
}

#[test]
fn request_line_is_written_in_order_of_names() {
    let mut s = Sidecar::spawn();
    let (_, line) = s.load("m", "cpu", 1).unwrap();
    assert_eq!(line, "{\"device\":\"cpu\",\"id\":1,\"model_path\":\"m\",\"op\":\"load\"}");
}

#[test]
fn replies_reach_their_requests() {
    let mut s = Sidecar::spawn();
    s.load("m", "cpu", 10).unwrap();
    s.transcribe("a", "ru", None, 20).unwrap();
    let (waiter, reply) = s.receive_line("{\"id\":2,\"result\":{\"text\":\"да\"}}").unwrap();
    assert_eq!(waiter, 20);
    assert_eq!(reply.get("id").and_then(Value::as_u64), Some(2));
    let (waiter, _) = s.receive_line("{\"id\":1,\"result\":{}}").unwrap();
    assert_eq!(waiter, 10);
}

#[test]
fn reply_is_delivered_once() {
    let mut s = Sidecar::spawn();
    s.load("m", "cpu", 10).unwrap();
    assert!(s.receive_line("{\"id\":1,\"result\":{}}").is_some());
    assert!(s.receive_line("{\"id\":1,\"result\":{}}").is_none());
}

#[test]
fn noise_and_stale_replies_are_dropped() {
    let mut s = Sidecar::spawn();
    s.load("m", "cpu", 10).unwrap();
    for line in [
        "",
        "loading...",
        "[1]",
        "{\"result\":{}}",
        "{\"id\":\"1\"}",
        "{\"id\":-1}",
        "{\"id\":1.0}",
        "{\"id\":0}",
        "{\"id\":7,\"result\":{}}",
        "{\"id\":1",
    ] {
        assert!(s.receive_line(line).is_none(), "{}", line);
    }
    assert!(s.receive_line(" {\"id\":1} ").is_some());
}

#[test]
fn reply_is_handed_out_as_a_value() {
    let mut s = Sidecar::spawn();
    s.load("m", "cpu", 10).unwrap();
    assert!(s.receive(object(&[("id", Value::from(2u64))])).is_none());
    let reply = object(&[("id", Value::from(1u64)), ("error", text("x"))]);
    assert_eq!(s.receive(reply.clone()), Some((10, reply)));
}

#[test]
fn response_is_read() {
    let result = object(&[("text", text("да"))]);
    assert_eq!(read_response(&object(&[("result", result.clone())])).unwrap(), result);
    assert_eq!(
        message(read_response(&object(&[("error", text("CUDA")), ("result", result.clone())]))),
        "CUDA"
    );
    let odd = object(&[("error", Value::from(5u64)), ("result", result.clone())]);
    assert_eq!(read_response(&odd).unwrap(), result);
    assert_eq!(read_response(&object(&[("result", Value::Null)])).unwrap(), Value::Null);
    assert_eq!(message(read_response(&object(&[]))), "Qwen worker returned no result");
    assert_eq!(message(read_response(&text("x"))), "Qwen worker returned no result");
}

#[test]
fn recognized_text_is_read() {
    assert_eq!(read_text(&object(&[("text", text("да"))])).unwrap(), "да");
    assert_eq!(message(read_text(&object(&[]))), "Qwen worker returned no text field");
    assert_eq!(
        message(read_text(&object(&[("text", Value::Bool(true))]))),
        "Qwen worker returned no text field"
    );
}

#[test]
fn waiting_ends_with_the_reply() {
    let mut s = Sidecar::spawn();
    let reply = object(&[("result", text("ok"))]);
    assert_eq!(finished(s.wait(WaitEvent::Reply(reply))), Ok(text("ok")));
    let reply = object(&[("error", text("no"))]);
    assert_eq!(
        finished(s.wait(WaitEvent::Reply(reply))),
        Err("no".to_string())
    );
}

#[test]
fn waiting_ends_when_the_worker_is_gone() {
    let mut s = Sidecar::spawn();
    s.note_stderr("Traceback".to_string());
    s.note_stderr("OOM".to_string());
    let gone = Err("Qwen worker stopped: Traceback OOM".to_string());
    assert_eq!(finished(s.wait(WaitEvent::Disconnected)), gone);
    let dead = WaitEvent::Quiet { alive: false, elapsed_nanos: u128::MAX };
    assert_eq!(finished(s.wait(dead)), gone);
}

#[test]
fn waiting_ends_after_the_limit() {
    assert_eq!(REQUEST_TIMEOUT_SECS, 300);
    let mut s = Sidecar::spawn();
    s.load("m", "cpu", 1).unwrap();
    let at_limit = WaitEvent::Quiet { alive: true, elapsed_nanos: 300_000_000_000 };
    assert!(matches!(s.wait(at_limit), WaitStep::Wait));
    let over = WaitEvent::Quiet { alive: true, elapsed_nanos: 300_000_000_001 };
    assert_eq!(
        finished(s.wait(over)),
        Err("killed: Qwen worker timed out after 300s and was stopped. Reload the engine."
            .to_string())
    );
    assert!(s.receive_line("{\"id\":1}").is_none());
    assert_eq!(message(s.load("m", "cpu", 2)), "Qwen worker stdin is closed");
}

#[test]
fn failed_write_stops_the_worker() {
    let mut s = Sidecar::spawn();
    s.load("m", "cpu", 1).unwrap();
    assert_eq!(
        s.write_failed("broken pipe".to_string()).message(),
        "Failed to write to Qwen worker: broken pipe"
    );
    assert!(s.receive_line("{\"id\":1}").is_none());
}

#[test]
fn closed_output_abandons_the_waiters() {
    let mut s = Sidecar::spawn();
    s.load("m", "cpu", 1).unwrap();
    s.reader_ended();
    assert!(s.receive_line("{\"id\":1}").is_none());
    assert_eq!(s.transcribe("a", "ru", None, 2).unwrap().0, 2);
}

#[test]
fn shutdown_is_asked_once() {
    let mut s = Sidecar::spawn();
    assert_eq!(s.shutdown_and_kill(), Some(SHUTDOWN_LINE));
    assert_eq!(s.shutdown_and_kill(), None);
    assert_eq!(
        parse(SHUTDOWN_LINE),
        object(&[("id", Value::from(0u64)), ("op", text("shutdown"))])
    );
}

#[test]
fn error_tail_is_bounded() {
    let mut s = Sidecar::spawn();
    for n in 0..30 {
        s.note_stderr(format!("{}", n));
    }
    let kept: Vec<String> = (30 - STDERR_TAIL_LINES..30).map(|n| n.to_string()).collect();
    assert_eq!(s.stderr_summary(), kept.join(" "));
    s.note_stderr("ё".repeat(2000));
    let all = format!("{} {}", kept[1..].join(" "), "ё".repeat(2000));
    assert_eq!(s.stderr_summary(), all.chars().take(1600).collect::<String>());
}

#[test]
fn respawn_repeats_the_last_load() {
    let mut s = Sidecar::spawn();
    assert_eq!(message(s.respawn()), "Qwen worker died before any model was loaded");
    s.load("m1", "cpu", 1).unwrap();
    s.load("m2", "cuda", 2).unwrap();
    s.kill();
    assert_eq!(s.respawn().unwrap(), ("m2".to_string(), "cuda".to_string()));
}

#[test]
fn transcription_by_a_running_worker() {
    let s = Sidecar::spawn();
    let (mut job, action) = Transcription::begin(&s, true);
    assert!(matches!(action, JobAction::StoreAudio));
    match job.advance(JobEvent::Stored(Ok("/tmp/a".to_string()))) {
        JobAction::Ask { audio_path } => assert_eq!(audio_path, "/tmp/a"),
        _ => panic!("not asked"),
    }
    match job.advance(JobEvent::Answered(Ok(object(&[("text", text("привет"))])))) {
        JobAction::Finish { result, remove } => {
            assert_eq!(result.unwrap(), "привет");
            assert_eq!(remove, Some("/tmp/a".to_string()));
        }
        _ => panic!("not finished"),
    }
    assert!(matches!(job.advance(JobEvent::Respawned(Ok(()))), JobAction::Ignore));
}

#[test]
fn transcription_removes_the_file_after_a_failure() {
    let s = Sidecar::spawn();
    let (mut job, _) = Transcription::begin(&s, true);
    job.advance(JobEvent::Stored(Ok("/tmp/a".to_string())));
    match job.advance(JobEvent::Answered(Err(SidecarError::TimedOut(300)))) {
        JobAction::Finish { result, remove } => {
            assert!(matches!(result, Err(SidecarError::TimedOut(300))));
            assert_eq!(remove, Some("/tmp/a".to_string()));
        }
        _ => panic!("not finished"),
    }
}

#[test]
fn transcription_without_a_file_fails() {
    let s = Sidecar::spawn();
    let (mut job, _) = Transcription::begin(&s, true);
    match job.advance(JobEvent::Stored(Err("disk full".to_string()))) {
        JobAction::Finish { result, remove } => {
            assert_eq!(message(result), "disk full");
            assert_eq!(remove, None);
        }
        _ => panic!("not finished"),
    }
}

#[test]
fn dead_worker_is_respawned_once() {
    let mut s = Sidecar::spawn();
    s.load("m", "cuda", 1).unwrap();
    let (mut job, action) = Transcription::begin(&s, false);
    match action {
        JobAction::Respawn { model_path, device } => {
            assert_eq!((model_path.as_str(), device.as_str()), ("m", "cuda"))
        }
        _ => panic!("not respawned"),
    }
    assert!(matches!(job.advance(JobEvent::Respawned(Ok(()))), JobAction::StoreAudio));
    assert!(matches!(job.advance(JobEvent::Respawned(Ok(()))), JobAction::Ignore));
}

#[test]
fn worker_that_never_loaded_is_not_respawned() {
    let s = Sidecar::spawn();
    let (_, action) = Transcription::begin(&s, false);
    match action {
        JobAction::Finish { result, remove } => {
            assert_eq!(message(result), "Qwen worker died before any model was loaded");
            assert_eq!(remove, None);
        }
        _ => panic!("not finished"),
    }
}

#[test]
fn failed_respawn_fails_the_transcription() {
    let mut s = Sidecar::spawn();
    s.load("m", "cuda", 1).unwrap();
    let (mut job, _) = Transcription::begin(&s, false);
    let failed = JobEvent::Respawned(Err(SidecarError::Host("no python".to_string())));
    match job.advance(failed) {
        JobAction::Finish { result, .. } => assert_eq!(message(result), "no python"),
        _ => panic!("not finished"),
    }
}

#[test]
fn samples_are_written_little_endian() {
    let samples = [0.0f32, 1.0, -0.5, f32::MAX, f32::NAN];
    let bits: Vec<u32> = samples.iter().map(|s| s.to_bits()).collect();
    let expected: Vec<u8> = samples.iter().flat_map(|s| s.to_le_bytes()).collect();
    assert_eq!(audio_bytes(&bits), expected);
}

#[test]
fn audio_files_are_named_by_process_and_count() {
    assert_eq!(temp_audio_name(4242, 0), "echo-qwen-4242-0.f32");
    assert_eq!(temp_audio_name(1, 17), "echo-qwen-1-17.f32");
}

#[test]
fn worker_gets_two_seconds_to_stop() {
    assert!(!shutdown_step(0, false));
    assert!(!shutdown_step(1999, false));
    assert!(shutdown_step(2000, false));
    assert!(shutdown_step(0, true));
}
