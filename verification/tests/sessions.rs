use pty_mcp::buffer::view::BufferReadRequest;
use pty_mcp::error::{Failure, PtyError, PtyErrorCode};
use pty_mcp::json::JsonValue;
use pty_mcp::pty::runtime::{
    decode_escaped_input, PtyRuntime, PtySpawnRequest, RuntimeExitStatus, SignalRoute,
};
use pty_mcp::session::model::{
    ExitInfo, SessionId, SessionStatus, SessionSummary, SignalKind,
};
use pty_mcp::session::registry::{KillProgress, SessionRegistry, WaitProgress, CLEANUP_WAIT_SECS};
use pty_mcp::timestamp::Timestamp;

fn running(registry: &mut SessionRegistry) -> SessionId {
    let session = SessionSummary::placeholder("test".to_string(), "sh".to_string());
    let id = registry.create_starting(session).unwrap();
    registry.attach_runtime(&id, Some(7)).unwrap();
    id
}

fn exit(code: i32) -> ExitInfo {
    ExitInfo { exit_code: Some(code), exit_signal: None, finished_at: Some(Timestamp::now()) }
}

#[test]
fn session_starts_and_exits() {
    let mut registry = SessionRegistry::default();
    let id = running(&mut registry);
    assert!(id.as_str().starts_with("pty_"));
    assert_eq!(registry.status_of(&id), Some(SessionStatus::Running));
    assert_eq!(registry.get(&id).unwrap().pid, Some(7));
    registry.mark_exited(&id, exit(3)).unwrap();
    let over = registry.get(&id).unwrap();
    assert_eq!(over.status, SessionStatus::Exited);
    assert_eq!(over.exit_info.unwrap().exit_code, Some(3));
    match registry.wait_begin(&id).unwrap() {
        WaitProgress::Done(done) => {
            assert!(done.completed);
            assert_eq!(done.last_output_preview, None);
        }
        WaitProgress::Pending => unreachable!(),
    }
}

#[test]
fn killed_session_is_recorded_as_killed() {
    let mut registry = SessionRegistry::new(4, 10);
    let id = running(&mut registry);
    let run = match registry.kill_begin(&id, SignalKind::Sigint, false).unwrap() {
        KillProgress::Signal { signal, run } => {
            assert_eq!(signal, SignalKind::Sigint);
            run
        }
        _ => unreachable!(),
    };
    assert_eq!(registry.status_of(&id), Some(SessionStatus::Closing));
    match registry.kill_signalled(run, Ok(())).unwrap() {
        KillProgress::Done(done) => {
            assert_eq!(done.previous_status, SessionStatus::Running);
            assert_eq!(done.current_status, SessionStatus::Closing);
        }
        _ => unreachable!(),
    }
    registry.mark_exited(&id, exit(0)).unwrap();
    assert_eq!(registry.status_of(&id), Some(SessionStatus::Killed));
}

#[test]
fn stubborn_session_is_killed_and_taken_out() {
    let mut registry = SessionRegistry::new(4, 10);
    let id = running(&mut registry);
    let run = match registry.kill_begin(&id, SignalKind::Sigterm, true).unwrap() {
        KillProgress::Signal { run, .. } => run,
        _ => unreachable!(),
    };
    let run = match registry.kill_signalled(run, Ok(())).unwrap() {
        KillProgress::Wait { seconds, run } => {
            assert_eq!(seconds, CLEANUP_WAIT_SECS);
            run
        }
        _ => unreachable!(),
    };
    let run = match registry.kill_waited(run, Ok(None)).unwrap() {
        KillProgress::Signal { signal, run } => {
            assert_eq!(signal, SignalKind::Sigkill);
            run
        }
        _ => unreachable!(),
    };
    let run = match registry.kill_signalled(run, Ok(())).unwrap() {
        KillProgress::Wait { run, .. } => run,
        _ => unreachable!(),
    };
    match registry.kill_waited(run, Ok(Some(exit(0)))).unwrap() {
        KillProgress::Done(done) => assert!(done.cleanup),
        _ => unreachable!(),
    }
    assert!(registry.get(&id).is_none());
}

#[test]
fn output_is_read_and_previewed() {
    let mut registry = SessionRegistry::new(4, 10);
    let id = running(&mut registry);
    assert!(registry.has_room_for(&id, 4));
    registry.append_output(&id, b"hello\nworld").unwrap();
    let page = registry.read_output(&id, &BufferReadRequest::new(5)).unwrap();
    assert_eq!(page.lines[1].text, "world");
    assert_eq!(registry.get(&id).unwrap().buffer_stats.line_count, 2);
    let waited = registry.wait_finish(&id, Ok(None)).unwrap();
    assert!(!waited.completed);
    assert_eq!(waited.last_output_preview.as_deref(), Some("hello\nworld"));
    let mut bad = BufferReadRequest::new(5);
    bad.pattern = Some("[".to_string());
    assert!(registry.read_output(&id, &bad).unwrap_err().message.contains("invalid regex pattern"));
}

#[test]
fn writing_needs_a_running_program() {
    let mut registry = SessionRegistry::new(4, 10);
    let id = running(&mut registry);
    assert_eq!(registry.prepare_write(&id, "a\\n", false).unwrap(), "a\\n");
    assert_eq!(registry.prepare_write(&id, "a\\n", true).unwrap(), "a\n");
    let done = registry.finish_write(&id, Ok(2)).unwrap();
    assert_eq!(done.bytes_written, 2);
    assert!(done.accepted);
    assert!(registry.finish_write(&id, Err(Failure::new("closed".to_string()))).is_err());
    registry.mark_exited(&id, exit(0)).unwrap();
    assert!(registry.prepare_write(&id, "a", false).is_err());
    let none = SessionId::of("pty_none");
    assert!(registry.prepare_write(&none, "a", false).unwrap_err().message.contains("pty_none"));
    assert!(registry.remove(&none).is_none());
    assert!(registry.cleanup(&id).is_ok());
    assert!(registry.cleanup(&id).is_err());
}

#[test]
fn sessions_are_limited_and_listed_in_order() {
    let mut registry = SessionRegistry::new(2, 10);
    running(&mut registry);
    running(&mut registry);
    let third = SessionSummary::placeholder("test".to_string(), "sh".to_string());
    assert!(registry.create_starting(third).is_err());
    let list = registry.list();
    assert!(list[0].session_id.as_str() < list[1].session_id.as_str());
    assert_eq!(registry.shutdown_targets().len(), 2);
}

#[test]
fn escaped_input_is_decoded() {
    assert_eq!(decode_escaped_input("plain").unwrap(), "plain");
    assert_eq!(decode_escaped_input("a\\r\\n\\t\\\\").unwrap(), "a\r\n\t\\");
    assert_eq!(decode_escaped_input("\\x1b[A").unwrap(), "\u{1b}[A");
    assert!(decode_escaped_input("\\q").is_err());
    assert!(decode_escaped_input("\\x1").is_err());
    assert!(decode_escaped_input("end\\").is_err());
}

#[test]
fn spawn_requests_are_built() {
    let request = PtySpawnRequest::new("sh".to_string())
        .arg("-c".to_string())
        .args(vec!["true".to_string()])
        .cwd("/tmp".to_string())
        .env("A".to_string(), "1".to_string())
        .size(10, 20);
    assert_eq!(request.args, ["-c", "true"]);
    assert_eq!(request.cwd.as_deref(), Some("/tmp"));
    assert_eq!(request.env.get("A").unwrap(), "1");
    assert_eq!((request.rows, request.cols), (10, 20));
    let status = RuntimeExitStatus::from_exit(0xffff_ffff, Some("Killed".to_string()));
    assert_eq!(status.exit_info.exit_code, Some(-1));
}

#[test]
fn identifiers_are_random_and_parsed() {
    assert_ne!(SessionId::new(), SessionId::new());
    assert_eq!(SessionId::new().as_str().len(), 36);
    assert!(SessionId::parse(" ").is_err());
    assert!(SessionId::of("a").same_as(&SessionId::of("a")));
    assert!(Timestamp::now().seconds > 1_500_000_000);
}

#[test]
fn errors_are_coded() {
    assert_eq!(PtyErrorCode::InvalidRegex.as_str(), "INVALID_REGEX");
    let error = PtyError::new(PtyErrorCode::SessionNotFound, "gone".to_string());
    assert_eq!(error.display(), "SESSION_NOT_FOUND: gone");
    let body = error.with_details(JsonValue::Bool(true)).body();
    assert_eq!(body.len(), 3);
    assert_eq!(PtyError::not_implemented("x").message, "x is not implemented yet");
}

#[test]
fn signals_reach_processes_or_terminals() {
    let route = |pid, signal| PtyRuntime.signal_route(pid, signal);
    assert_eq!(
        route(Some(4), SignalKind::Sigint),
        SignalRoute::Process { pid: 4, signal: SignalKind::Sigint }
    );
    assert_eq!(route(Some(4), SignalKind::Sigkill), SignalRoute::Killer);
    assert_eq!(route(None, SignalKind::Sigterm), SignalRoute::Killer);
}

#[test]
fn doubled_backslashes_decode_back() {
    let text = "C:\\dir\\x41";
    assert_eq!(decode_escaped_input(&text.replace('\\', "\\\\")).unwrap(), text);
}
