use codewire::session::{
    apply_status, LaunchEnv, LaunchError, SessionError, SessionManager, SessionStatus,
};

fn plain_env() -> LaunchEnv {
    LaunchEnv {
        path_lookup: Some(true),
        absolute_exists: true,
        workdir_exists: true,
        workdir_is_dir: true,
    }
}

fn launch(m: &mut SessionManager, argv: &[&str]) -> u32 {
    let command: Vec<String> = argv.iter().map(|s| s.to_string()).collect();
    let id = m.prepare_launch(&command, &plain_env(), "/tmp").unwrap();
    m.complete_launch(
        id,
        argv.join(" "),
        "/tmp".to_string(),
        format!("2024-01-01T00:00:{:02}+00:00", id),
        format!("/tmp/.codewire/sessions/{}/output.log", id),
        Some(1000 + id),
    );
    id
}

#[test]
fn launch_list_and_kill() {
    let mut m = SessionManager::new("/tmp/.codewire".to_string(), &vec![]);
    let id = launch(&mut m, &["bash", "-c", "sleep 60"]);
    assert_eq!(id, 1);

    let list = m.list();
    assert_eq!(list.len(), 1);
    assert_eq!(list[0].id, 1);
    assert_eq!(list[0].status, "running");
    assert!(!list[0].attached);
    assert_eq!(list[0].prompt, "bash -c sleep 60");
    assert_eq!(list[0].working_dir, "/tmp");

    let pid = m.kill(1).unwrap();
    assert_eq!(pid, Some(1001));
    let list = m.list();
    assert_eq!(list[0].status, "killed");
    assert_ne!(list[0].status, "running");
}

#[test]
fn ids_are_monotonic() {
    let mut m = SessionManager::new("/tmp/.codewire".to_string(), &vec![]);
    let a = launch(&mut m, &["bash", "-c", "sleep 30"]);
    let b = launch(&mut m, &["bash", "-c", "sleep 30"]);
    let c = launch(&mut m, &["bash", "-c", "sleep 30"]);
    assert_eq!((a, b, c), (1, 2, 3));
}

#[test]
fn restart_restores_next_id_above_persisted_ids() {
    let m = SessionManager::new("/tmp/.codewire".to_string(), &vec![3, 7, 2]);
    let mut m = m;
    let id = launch(&mut m, &["echo", "hi"]);
    assert_eq!(id, 8);
}

#[test]
fn corrupt_snapshot_starts_empty_with_id_one() {
    // A snapshot that failed to parse is backed up and treated as empty.
    let mut m = SessionManager::new("/tmp/.codewire".to_string(), &vec![]);
    assert!(m.list().is_empty());
    assert_eq!(launch(&mut m, &["echo", "test"]), 1);
}

#[test]
fn rejected_launches_leave_the_counter_untouched() {
    let mut m = SessionManager::new("/tmp/.codewire".to_string(), &vec![]);
    let command = vec!["bash".to_string()];
    let env = LaunchEnv { workdir_exists: false, ..plain_env() };
    match m.prepare_launch(&command, &env, "/nope") {
        Err(LaunchError::WorkdirMissing(w)) => assert_eq!(w, "/nope"),
        other => panic!("expected WorkdirMissing, got {:?}", other.is_ok()),
    }
    // Validation precedes allocation: the rejected request used no id.
    assert_eq!(launch(&mut m, &["bash"]), 1);
}

#[test]
fn launch_validation_errors() {
    let mut m = SessionManager::new("/tmp/.codewire".to_string(), &vec![]);
    let env = plain_env();

    let r = m.prepare_launch(&vec![], &env, "/tmp");
    assert!(matches!(r, Err(LaunchError::EmptyCommand)));
    assert_eq!(
        LaunchError::EmptyCommand.message(),
        "command must not be empty"
    );

    let not_on_path = LaunchEnv { path_lookup: Some(false), ..plain_env() };
    let r = m.prepare_launch(&vec!["frobnicate".to_string()], &not_on_path, "/tmp");
    match r {
        Err(e @ LaunchError::CommandNotFound(_)) => {
            assert_eq!(e.message(), "Command 'frobnicate' not found in PATH");
        }
        _ => panic!("expected CommandNotFound"),
    }

    let missing_abs = LaunchEnv { absolute_exists: false, ..plain_env() };
    let r = m.prepare_launch(&vec!["/no/such/bin".to_string()], &missing_abs, "/tmp");
    match r {
        Err(e @ LaunchError::CommandMissing(_)) => {
            assert_eq!(e.message(), "Command '/no/such/bin' does not exist");
        }
        _ => panic!("expected CommandMissing"),
    }

    let not_dir = LaunchEnv { workdir_is_dir: false, ..plain_env() };
    let r = m.prepare_launch(&vec!["bash".to_string()], &not_dir, "/etc/passwd");
    match r {
        Err(e @ LaunchError::WorkdirNotDir(_)) => {
            assert_eq!(
                e.message(),
                "Working directory '/etc/passwd' is not a directory"
            );
        }
        _ => panic!("expected WorkdirNotDir"),
    }
}

#[test]
fn attach_detach_accounting() {
    let mut m = SessionManager::new("/tmp/.codewire".to_string(), &vec![]);
    let id = launch(&mut m, &["bash", "-c", "sleep 30"]);
    assert!(!m.list()[0].attached);
    m.attach(id).unwrap();
    assert!(m.list()[0].attached);
    m.attach(id).unwrap();
    m.detach(id).unwrap();
    assert!(m.list()[0].attached, "one of two clients is still attached");
    m.detach(id).unwrap();
    assert!(!m.list()[0].attached, "the count is back at its pre-attach value");
}

#[test]
fn attach_errors_name_the_session() {
    let mut m = SessionManager::new("/tmp/.codewire".to_string(), &vec![]);
    assert_eq!(m.attach(9999), Err(SessionError::NotFound(9999)));
    assert_eq!(
        SessionError::NotFound(9999).message(),
        "session 9999 not found"
    );
    let id = launch(&mut m, &["bash"]);
    m.kill(id).unwrap();
    assert_eq!(m.attach(id), Err(SessionError::NotRunning(id)));
    assert_eq!(
        SessionError::NotRunning(1).message(),
        "session 1 is not running"
    );
}

#[test]
fn detach_after_session_end_is_a_successful_no_op() {
    // The documented choice: a session that ended but is still in the
    // registry detaches with success; only an unknown id is NotFound.
    let mut m = SessionManager::new("/tmp/.codewire".to_string(), &vec![]);
    let id = launch(&mut m, &["bash", "-c", "exit 0"]);
    m.kill(id).unwrap();
    assert_eq!(m.detach(id), Ok(()));
    assert_eq!(m.detach(9999), Err(SessionError::NotFound(9999)));
}

#[test]
fn status_stickiness_survives_later_writes() {
    let mut m = SessionManager::new("/tmp/.codewire".to_string(), &vec![]);
    let id = launch(&mut m, &["bash", "-c", "sleep 60"]);
    m.kill(id).unwrap();
    // The waiter fires afterwards and reports a completion; the latch
    // keeps the terminal state that got there first.
    let changed = m.refresh_statuses(&vec![(id, SessionStatus::Completed(0))]);
    assert!(!changed);
    assert_eq!(m.list()[0].status, "killed");
    // And at the latch level directly:
    assert_eq!(
        apply_status(SessionStatus::Completed(7), SessionStatus::Killed),
        SessionStatus::Completed(7)
    );
    assert_eq!(
        apply_status(SessionStatus::Running, SessionStatus::Completed(0)),
        SessionStatus::Completed(0)
    );
}

#[test]
fn refresh_statuses_reports_changes_for_persistence() {
    let mut m = SessionManager::new("/tmp/.codewire".to_string(), &vec![]);
    let id = launch(&mut m, &["bash", "-c", "exit 3"]);
    let changed = m.refresh_statuses(&vec![(id, SessionStatus::Completed(3))]);
    assert!(changed);
    assert_eq!(m.list()[0].status, "completed (3)");
    let changed = m.refresh_statuses(&vec![(id, SessionStatus::Completed(3))]);
    assert!(!changed, "an unchanged status signals no snapshot");
}

#[test]
fn kill_all_kills_exactly_the_running_sessions() {
    let mut m = SessionManager::new("/tmp/.codewire".to_string(), &vec![]);
    let a = launch(&mut m, &["bash", "-c", "sleep 60"]);
    let b = launch(&mut m, &["bash", "-c", "exit 0"]);
    let c = launch(&mut m, &["bash", "-c", "sleep 60"]);
    m.refresh_statuses(&vec![(b, SessionStatus::Completed(0))]);
    let (count, pids, killed) = m.kill_all();
    assert_eq!(count, 2);
    assert_eq!(pids, vec![1000 + a, 1000 + c]);
    assert_eq!(killed, vec![a, c], "the latched sessions are named for the watches");
    let list = m.list();
    assert_eq!(list[0].status, "killed");
    assert_eq!(list[1].status, "completed (0)", "an ended session is untouched");
    assert_eq!(list[2].status, "killed");
}

#[test]
fn log_path_is_under_the_data_directory() {
    let mut m = SessionManager::new("/data/cw".to_string(), &vec![]);
    let id = launch(&mut m, &["bash"]);
    assert_eq!(m.log_path(id).unwrap(), "/data/cw/sessions/1/output.log");
    assert!(m.log_path(2).is_err());
}

#[test]
fn send_input_counts_the_bytes() {
    let mut m = SessionManager::new("/tmp/.codewire".to_string(), &vec![]);
    let id = launch(&mut m, &["bash", "-c", "cat"]);
    let data = b"CROSS_SESSION_TEST\n".to_vec();
    assert_eq!(m.send_input(id, &data), Ok(19));
    assert_eq!(m.send_input(42, &data), Err(SessionError::NotFound(42)));
}

#[test]
fn get_status_carries_log_size_and_snippet() {
    let mut m = SessionManager::new("/tmp/.codewire".to_string(), &vec![]);
    let id = launch(&mut m, &["bash", "-c", "echo STATUS_TEST && sleep 2"]);
    let (info, size) = m
        .get_status(id, 12, Some("STATUS_TEST".to_string()))
        .unwrap();
    assert_eq!(size, 12);
    assert_eq!(info.output_size_bytes, Some(12));
    assert_eq!(info.last_output_snippet.as_deref(), Some("STATUS_TEST"));
    assert_eq!(info.pid, Some(1001));
    assert_eq!(info.status, "running");
    assert!(m.get_status(9, 0, None).is_err());
}

#[test]
fn metas_snapshot_every_session() {
    let mut m = SessionManager::new("/tmp/.codewire".to_string(), &vec![]);
    launch(&mut m, &["bash", "-c", "sleep 1"]);
    launch(&mut m, &["echo", "hi"]);
    let metas = m.metas();
    assert_eq!(metas.len(), 2);
    assert_eq!(metas[0].id, 1);
    assert_eq!(metas[1].id, 2);
    assert_eq!(metas[1].prompt, "echo hi");
    assert_eq!(metas[0].status, SessionStatus::Running);
}

#[test]
fn resize_validates_the_session() {
    let mut m = SessionManager::new("/tmp/.codewire".to_string(), &vec![]);
    let id = launch(&mut m, &["bash"]);
    assert_eq!(m.resize(id, 120, 40), Ok((120, 40)));
    assert_eq!(m.resize(7, 120, 40), Err(SessionError::NotFound(7)));
}
