use codewire::client::{format_error, select_auto_attach};
use codewire::node::{
    bridge_step, follow_chunk_response, input_sent_response, launch_response, logs_response,
    watch_history_update, watch_step, BridgeAction, BridgeEvent, RouteOutcome, WatchEvent,
};
use codewire::protocol::{Request, Response, SessionInfo};
use codewire::session::{LaunchEnv, SessionManager, SessionStatus};
use codewire::text::tail_lines;

fn manager_with_session(argv: &[&str]) -> (SessionManager, u32) {
    let mut m = SessionManager::new("/tmp/.codewire".to_string(), &vec![]);
    let command: Vec<String> = argv.iter().map(|s| s.to_string()).collect();
    let env = LaunchEnv {
        path_lookup: Some(true),
        absolute_exists: true,
        workdir_exists: true,
        workdir_is_dir: true,
    };
    let id = m.prepare_launch(&command, &env, "/tmp").unwrap();
    m.complete_launch(
        id,
        argv.join(" "),
        "/tmp".to_string(),
        format!("2024-01-01T00:00:{:02}+00:00", id),
        format!("/tmp/.codewire/sessions/{}/output.log", id),
        Some(4000 + id),
    );
    (m, id)
}

#[test]
fn route_list_sessions() {
    let (mut m, _) = manager_with_session(&["bash", "-c", "sleep 60"]);
    match m.route(Request::ListSessions) {
        RouteOutcome::Respond(Response::SessionList { sessions }) => {
            assert_eq!(sessions.len(), 1);
            assert_eq!(sessions[0].id, 1);
            assert_eq!(sessions[0].status, "running");
            assert!(!sessions[0].attached);
        }
        _ => panic!("expected a session list"),
    }
}

#[test]
fn route_attach_greets_then_bridges() {
    let (mut m, id) = manager_with_session(&["bash", "-c", "cat"]);
    match m.route(Request::Attach { id, include_history: true, history_lines: None }) {
        RouteOutcome::Bridge { id: bid, greeting } => {
            assert_eq!(bid, id);
            assert!(matches!(greeting, Response::Attached { id: g } if g == id));
        }
        _ => panic!("expected the attach bridge"),
    }
    assert!(m.list()[0].attached);
}

#[test]
fn route_attach_unknown_session_is_an_error_response() {
    let mut m = SessionManager::new("/tmp/.codewire".to_string(), &vec![]);
    match m.route(Request::Attach { id: 9999, include_history: true, history_lines: None }) {
        RouteOutcome::Respond(Response::Error { message }) => {
            assert!(message.contains("not found"), "got: {}", message);
        }
        _ => panic!("expected an error response"),
    }
}

#[test]
fn route_kill_responds_and_signals() {
    let (mut m, id) = manager_with_session(&["bash", "-c", "sleep 60"]);
    match m.route(Request::Kill { id }) {
        RouteOutcome::RespondAndSignal { response, pids, killed } => {
            assert!(matches!(response, Response::Killed { id: k } if k == id));
            assert_eq!(pids, vec![4001]);
            assert_eq!(killed, vec![id]);
        }
        _ => panic!("expected a kill response"),
    }
}

#[test]
fn route_send_input_offers_to_the_queue() {
    let (mut m, id) = manager_with_session(&["bash", "-c", "cat"]);
    let data = b"CROSS_SESSION_TEST\n".to_vec();
    match m.route(Request::SendInput { id, data: data.clone() }) {
        RouteOutcome::OfferInput { id: oid, data: d } => {
            assert_eq!(oid, id);
            // The queue accepts; the response reports exactly the bytes sent.
            let mut q = codewire::fanout::InputQueue::new(256);
            let accepted = q.try_enqueue(d);
            let resp = input_sent_response(oid, data.len(), accepted);
            match resp {
                Response::InputSent { id: rid, bytes } => {
                    assert_eq!(rid, id);
                    assert_eq!(bytes, 19);
                }
                _ => panic!("expected InputSent"),
            }
            assert_eq!(q.dequeue(), Some(data));
        }
        _ => panic!("expected an input offer"),
    }
}

#[test]
fn full_input_queue_reports_busy() {
    let resp = input_sent_response(1, 3, false);
    match resp {
        Response::Error { message } => assert_eq!(message, "sending input to session"),
        _ => panic!("expected the busy error"),
    }
}

#[test]
fn route_resize_is_acknowledged_outside_attach() {
    let (mut m, _) = manager_with_session(&["bash"]);
    assert!(matches!(
        m.route(Request::Resize { cols: 120, rows: 40 }),
        RouteOutcome::Respond(Response::Resized)
    ));
}

#[test]
fn route_logs_serves_the_log_file() {
    let (mut m, id) = manager_with_session(&["bash", "-c", "echo LOG_TEST_OUTPUT_12345"]);
    match m.route(Request::Logs { id, follow: false, tail: None }) {
        RouteOutcome::ServeLogs { path, follow, tail } => {
            assert_eq!(path, "/tmp/.codewire/sessions/1/output.log");
            assert!(!follow);
            assert!(tail.is_none());
        }
        _ => panic!("expected a log serve"),
    }
}

#[test]
fn logs_snapshot_is_done_unless_following() {
    let content = "LOG_TEST_OUTPUT_12345\n";
    match logs_response(content, false, None) {
        Response::LogData { data, done } => {
            assert!(data.contains("LOG_TEST_OUTPUT_12345"));
            assert!(done, "a non-follow snapshot is final");
        }
        _ => panic!("expected LogData"),
    }
    match logs_response(content, true, None) {
        Response::LogData { done, .. } => assert!(!done),
        _ => panic!("expected LogData"),
    }
}

#[test]
fn logs_tail_keeps_the_last_lines() {
    match logs_response("one\ntwo\nthree\n", false, Some(2)) {
        Response::LogData { data, done } => {
            assert_eq!(data, "two\nthree");
            assert!(done);
        }
        _ => panic!("expected LogData"),
    }
}

#[test]
fn tail_lines_matches_line_splitting() {
    assert_eq!(tail_lines("a\r\nb\nc", 5), "a\nb\nc");
    assert_eq!(tail_lines("a\nb\nc\n", 2), "b\nc");
    assert_eq!(tail_lines("a\nb", 0), "");
    assert_eq!(tail_lines("", 3), "");
    assert_eq!(tail_lines("\n", 3), "");
    assert_eq!(tail_lines("solo", 1), "solo");
}

#[test]
fn bridge_forwards_output_and_input() {
    let s = bridge_step(1, BridgeEvent::Output(b"hello".to_vec()));
    assert!(!s.done);
    assert!(matches!(s.action, BridgeAction::SendData(ref b) if b == b"hello"));
    let s = bridge_step(1, BridgeEvent::ClientData(b"INPUT_TEST_LINE\n".to_vec()));
    assert!(!s.done);
    assert!(matches!(s.action, BridgeAction::OfferInput(ref b) if b == b"INPUT_TEST_LINE\n"));
}

#[test]
fn bridge_detach_request_acknowledges_and_ends() {
    let s = bridge_step(1, BridgeEvent::ClientControl(Request::Detach));
    assert!(s.done);
    assert!(matches!(s.action, BridgeAction::SendResponse(Response::Detached)));
}

#[test]
fn bridge_resize_passes_through_without_ending() {
    let s = bridge_step(3, BridgeEvent::ClientControl(Request::Resize { cols: 100, rows: 30 }));
    assert!(!s.done);
    assert!(matches!(
        s.action,
        BridgeAction::Resize { id: 3, cols: 100, rows: 30 }
    ));
}

#[test]
fn bridge_tolerates_lag_and_ignores_stray_controls() {
    let s = bridge_step(1, BridgeEvent::OutputLagged(17));
    assert!(!s.done);
    assert!(matches!(s.action, BridgeAction::Ignore));
    let s = bridge_step(1, BridgeEvent::ClientControl(Request::ListSessions));
    assert!(!s.done);
    assert!(matches!(s.action, BridgeAction::Ignore));
}

#[test]
fn bridge_ends_when_the_session_ends() {
    let s = bridge_step(1, BridgeEvent::StatusChanged(SessionStatus::Killed));
    assert!(s.done);
    match s.action {
        BridgeAction::SendResponse(Response::Error { message }) => {
            assert_eq!(message, "session killed");
        }
        _ => panic!("expected the session-ended notice"),
    }
    let s = bridge_step(1, BridgeEvent::StatusChanged(SessionStatus::Running));
    assert!(!s.done);
    let s = bridge_step(1, BridgeEvent::ClientClosed);
    assert!(s.done);
}

#[test]
fn watch_streams_output_and_ends_on_terminal_status() {
    let (resp, done) = watch_step(2, WatchEvent::Output(b"WATCH_1\n".to_vec()));
    assert!(!done);
    match resp.unwrap() {
        Response::WatchUpdate { id, status, output, done } => {
            assert_eq!(id, 2);
            assert_eq!(status, "running");
            assert_eq!(output.as_deref(), Some("WATCH_1\n"));
            assert!(!done);
        }
        _ => panic!("expected a watch update"),
    }
    let (resp, done) = watch_step(2, WatchEvent::StatusChanged(SessionStatus::Completed(0)));
    assert!(done);
    match resp.unwrap() {
        Response::WatchUpdate { status, output, done, .. } => {
            assert_eq!(status, "completed (0)");
            assert!(output.is_none());
            assert!(done, "watch should complete when session ends");
        }
        _ => panic!("expected a watch update"),
    }
}

#[test]
fn watch_history_is_tailed_and_skipped_when_empty() {
    match watch_history_update(1, "h1\nh2\nh3\n", Some(2)) {
        Some(Response::WatchUpdate { output, done, .. }) => {
            assert_eq!(output.as_deref(), Some("h2\nh3"));
            assert!(!done);
        }
        _ => panic!("expected a history update"),
    }
    assert!(watch_history_update(1, "", None).is_none());
}

#[test]
fn lossy_decoding_replaces_invalid_bytes() {
    match follow_chunk_response(&vec![0xff, b'o', b'k']) {
        Response::LogData { data, done } => {
            assert_eq!(data, "\u{FFFD}ok");
            assert!(!done);
        }
        _ => panic!("expected LogData"),
    }
}

#[test]
fn launch_responses_carry_id_or_message() {
    match launch_response(&Ok(5)) {
        Response::Launched { id } => assert_eq!(id, 5),
        _ => panic!("expected Launched"),
    }
    match launch_response(&Err(codewire::session::LaunchError::EmptyCommand)) {
        Response::Error { message } => assert_eq!(message, "command must not be empty"),
        _ => panic!("expected Error"),
    }
}

fn info(id: u32, created_at: &str, status: &str, attached: bool) -> SessionInfo {
    SessionInfo {
        id,
        prompt: "bash".to_string(),
        working_dir: "/tmp".to_string(),
        created_at: created_at.to_string(),
        status: status.to_string(),
        attached,
        pid: Some(100),
        output_size_bytes: None,
        last_output_snippet: None,
    }
}

#[test]
fn auto_attach_picks_the_oldest_running_unattached() {
    let sessions = vec![
        info(1, "2024-01-01T00:00:01+00:00", "running", false),
        info(2, "2024-01-01T00:00:02+00:00", "running", false),
        info(3, "2024-01-01T00:00:03+00:00", "running", false),
    ];
    assert_eq!(select_auto_attach(&sessions), Some(1));
}

#[test]
fn auto_attach_skips_attached_sessions() {
    let sessions = vec![
        info(1, "2024-01-01T00:00:01+00:00", "running", true),
        info(2, "2024-01-01T00:00:02+00:00", "running", false),
    ];
    assert_eq!(select_auto_attach(&sessions), Some(2));
}

#[test]
fn auto_attach_skips_completed_sessions() {
    let sessions = vec![
        info(1, "2024-01-01T00:00:01+00:00", "completed (0)", false),
        info(2, "2024-01-01T00:00:02+00:00", "running", false),
    ];
    assert_eq!(select_auto_attach(&sessions), Some(2));
}

#[test]
fn auto_attach_with_no_candidates() {
    assert_eq!(select_auto_attach(&vec![]), None);
    let sessions = vec![info(1, "2024-01-01T00:00:01+00:00", "running", true)];
    assert_eq!(select_auto_attach(&sessions), None);
}

#[test]
fn error_hints_match_the_failure() {
    assert_eq!(
        format_error("session 3 not found"),
        "session 3 not found\n\nUse 'cw list' to see active sessions"
    );
    assert_eq!(
        format_error("session 3 is not running"),
        "session 3 is not running\n\nUse 'cw status <id>' to check session status"
    );
    assert_eq!(format_error("broken pipe"), "broken pipe");
}
