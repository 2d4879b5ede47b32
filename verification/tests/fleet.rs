use codewire::config::validate_node_name;
use codewire::fleet::{accumulate_discovery, find_daemon, fleet_subject, format_uptime, parse_fleet_target};
use codewire::protocol::{DaemonInfo, FleetRequest, FleetResponse};
use codewire::session::SessionManager;

#[test]
fn test_validate_daemon_name_valid() {
    assert!(validate_node_name("my-daemon").is_ok());
    assert!(validate_node_name("daemon_1").is_ok());
    assert!(validate_node_name("gpu-box").is_ok());
    assert!(validate_node_name("a").is_ok());
}

#[test]
fn test_validate_daemon_name_invalid() {
    assert!(validate_node_name("").is_err());
    assert!(validate_node_name("my.daemon").is_err());
    assert!(validate_node_name("my daemon").is_err());
    assert!(validate_node_name("my*daemon").is_err());
    assert!(validate_node_name("my>daemon").is_err());
}

#[test]
fn test_parse_fleet_target_valid() {
    let (daemon, id) = parse_fleet_target("gpu-box:42").unwrap();
    assert_eq!(daemon, "gpu-box");
    assert_eq!(id, 42);
}

#[test]
fn test_parse_fleet_target_invalid() {
    assert!(parse_fleet_target("no-colon").is_err());
    assert!(parse_fleet_target("daemon:abc").is_err());
}

#[test]
fn fleet_subjects_follow_the_grammar() {
    assert_eq!(fleet_subject(&FleetRequest::Discover, "gpu-box"), "cw.fleet.discover");
    assert_eq!(fleet_subject(&FleetRequest::ListSessions, "gpu-box"), "cw.gpu-box.list");
    assert_eq!(
        fleet_subject(
            &FleetRequest::Launch { command: vec![], working_dir: String::new() },
            "gpu-box"
        ),
        "cw.gpu-box.launch"
    );
    assert_eq!(fleet_subject(&FleetRequest::Kill { id: 1 }, "n1"), "cw.n1.kill");
    assert_eq!(fleet_subject(&FleetRequest::GetStatus { id: 1 }, "n1"), "cw.n1.status");
    assert_eq!(
        fleet_subject(&FleetRequest::SendInput { id: 1, data: vec![] }, "n1"),
        "cw.n1.send"
    );
}

#[test]
fn format_uptime_ranges() {
    assert_eq!(format_uptime(45), "45s");
    assert_eq!(format_uptime(90), "1m");
    assert_eq!(format_uptime(7200), "2h");
    assert_eq!(format_uptime(200000), "2d");
}

#[test]
fn fleet_discover_reports_node_info() {
    let mut m = SessionManager::new("/tmp/cw-test".to_string(), &vec![]);
    let out = m.fleet_route(
        "alpha",
        &Some("wss://alpha.example/ws".to_string()),
        12,
        FleetRequest::Discover,
    );
    match out {
        codewire::fleet::FleetOutcome::Reply(FleetResponse::DaemonInfo(d)) => {
            assert_eq!(d.name, "alpha");
            assert_eq!(d.external_url.as_deref(), Some("wss://alpha.example/ws"));
            assert_eq!(d.uptime_secs, 12);
            assert!(d.sessions.is_empty());
        }
        _ => panic!("expected DaemonInfo reply"),
    }
}

#[test]
fn fleet_kill_unknown_session_reports_error() {
    let mut m = SessionManager::new("/tmp/cw-test".to_string(), &vec![]);
    let out = m.fleet_route("alpha", &None, 0, FleetRequest::Kill { id: 99999 });
    match out {
        codewire::fleet::FleetOutcome::Reply(FleetResponse::Error { daemon, message }) => {
            assert_eq!(daemon, "alpha");
            assert!(message.contains("not found"), "got: {}", message);
        }
        _ => panic!("expected Error reply"),
    }
}

#[test]
fn fleet_send_input_offers_to_the_queue() {
    let mut m = SessionManager::new("/tmp/cw-test".to_string(), &vec![]);
    let command = vec!["bash".to_string(), "-c".to_string(), "cat".to_string()];
    let env = codewire::session::LaunchEnv {
        path_lookup: Some(true),
        absolute_exists: true,
        workdir_exists: true,
        workdir_is_dir: true,
    };
    let id = m.prepare_launch(&command, &env, "/tmp").unwrap();
    m.complete_launch(
        id,
        "bash -c cat".to_string(),
        "/tmp".to_string(),
        "2024-01-01T00:00:01+00:00".to_string(),
        "/tmp/cw-test/sessions/1/output.log".to_string(),
        Some(77),
    );
    let out = m.fleet_route(
        "alpha",
        &None,
        0,
        FleetRequest::SendInput { id, data: b"hello\n".to_vec() },
    );
    match out {
        codewire::fleet::FleetOutcome::OfferInput { id: oid, data } => {
            assert_eq!(oid, id);
            assert_eq!(data, b"hello\n");
        }
        _ => panic!("expected an input offer"),
    }
}

#[test]
fn discovery_accumulates_only_node_infos() {
    let mut acc: Vec<DaemonInfo> = Vec::new();
    accumulate_discovery(
        &mut acc,
        FleetResponse::DaemonInfo(DaemonInfo {
            name: "alpha".to_string(),
            external_url: None,
            sessions: vec![],
            uptime_secs: 1,
        }),
    );
    accumulate_discovery(
        &mut acc,
        FleetResponse::Error { daemon: "beta".to_string(), message: "x".to_string() },
    );
    assert_eq!(acc.len(), 1);
    assert_eq!(acc[0].name, "alpha");
    assert_eq!(find_daemon(&acc, "alpha"), Some(0));
    assert_eq!(find_daemon(&acc, "gamma"), None);
}
