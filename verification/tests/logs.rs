use auto_recovery::desktop::{
    app_server_response, desktop_handoff_is_exclusive, initialize_request, is_alone,
    is_beside_desktop, line_ends_turn, thread_request, turn_request, DesktopResume, Reply,
    ResumeStep, RunningProcess, SessionLog, TurnCountdown,
};
use auto_recovery::discovery::{
    choose_process, describe_session, find_active_sessions, inspect_session_meta, lock_session_id,
    LockFinding, LogFinding,
};
use auto_recovery::errors::RecoveryError;
use auto_recovery::json::parse_json;
use auto_recovery::moment::{current_moment, Moment};
use auto_recovery::rollout::{
    check_rollout_for_errors, check_rollout_for_errors_at, classify_error,
    rollout_has_active_turn, session_error, tail_offset, TurnUnknown, ERROR_WINDOW, TURN_WINDOW,
};
use auto_recovery::sessions::{ActiveCodexSession, SessionErrorKind};

const NOW: Moment = Moment { secs: 1_790_000_000, nanos: 5 };

#[test]
fn detects_another_turn_before_desktop_handoff() {
    let started = "{\"type\":\"event_msg\",\"payload\":{\"type\":\"task_started\"}}\n";
    assert!(rollout_has_active_turn(started.as_bytes().to_vec()).unwrap());
    let ended = "{\"type\":\"event_msg\",\"payload\":{\"type\":\"task_started\"}}\n{\"type\":\"event_msg\",\"payload\":{\"type\":\"task_complete\"}}\n";
    assert!(!rollout_has_active_turn(ended.as_bytes().to_vec()).unwrap());
}

#[test]
fn test_check_rollout_for_errors_lifecycle() {
    let mut content = String::new();

    // A task_complete with a capacity error.
    content.push_str("{\"type\":\"event_msg\",\"payload\":{\"type\":\"task_started\",\"turn_id\":\"turn-1\"}}\n");
    content.push_str("{\"type\":\"event_msg\",\"payload\":{\"type\":\"task_complete\",\"turn_id\":\"turn-1\",\"error\":{\"message\":\"Selected model is at capacity. Please try a different model.\",\"codex_error_info\":\"server_overloaded\"}}}\n");
    let detected = check_rollout_for_errors(content.as_bytes(), "sess-1");
    assert!(detected.is_some());
    let err = detected.unwrap();
    assert_eq!(err.kind, SessionErrorKind::ServerOverloaded);
    assert_eq!(err.turn_id.as_deref(), Some("turn-1"));
    assert_eq!(err.session_id, "sess-1");
    assert_eq!(
        err.message,
        "Selected model is at capacity. Please try a different model."
    );
    assert!(err.detected_at.is_valid());

    // A new turn starts: the session is working.
    content.push_str("{\"type\":\"event_msg\",\"payload\":{\"type\":\"task_started\",\"turn_id\":\"turn-2\"}}\n");
    content.push_str("{\"type\":\"event_msg\",\"payload\":{\"type\":\"item_completed\",\"turn_id\":\"turn-2\"}}\n");
    let detected = check_rollout_for_errors(content.as_bytes(), "sess-1");
    assert!(
        detected.is_none(),
        "When a new turn is in progress, check_rollout_for_errors must return None"
    );

    // The turn completes successfully: the session is healthy.
    content.push_str("{\"type\":\"event_msg\",\"payload\":{\"type\":\"task_complete\",\"turn_id\":\"turn-2\",\"last_agent_message\":\"Done!\",\"error\":null}}\n");
    let detected = check_rollout_for_errors(content.as_bytes(), "sess-1");
    assert!(
        detected.is_none(),
        "When latest task completed successfully, check_rollout_for_errors must return None"
    );

    // Another turn hits the usage limit.
    content.push_str("{\"type\":\"event_msg\",\"payload\":{\"type\":\"task_started\",\"turn_id\":\"turn-3\"}}\n");
    content.push_str("{\"type\":\"event_msg\",\"payload\":{\"type\":\"task_complete\",\"turn_id\":\"turn-3\",\"error\":{\"message\":\"You've hit your usage limit\",\"codex_error_info\":\"usage_limit_exceeded\"}}}\n");
    let detected = check_rollout_for_errors(content.as_bytes(), "sess-1");
    assert!(detected.is_some());
    let err = detected.unwrap();
    assert_eq!(err.kind, SessionErrorKind::UsageLimitExceeded);
    assert_eq!(err.turn_id.as_deref(), Some("turn-3"));
}

#[test]
fn errors_are_classified_by_code_and_message() {
    let limit = Some(SessionErrorKind::UsageLimitExceeded);
    let overloaded = Some(SessionErrorKind::ServerOverloaded);
    assert_eq!(classify_error(Some("usage_limit_exceeded"), ""), limit);
    assert_eq!(classify_error(Some("server_overloaded"), "usage limit"), overloaded);
    assert_eq!(classify_error(Some("other"), "You've hit your usage limit."), limit);
    assert_eq!(classify_error(None, "Selected model is at capacity."), overloaded);
    assert_eq!(classify_error(None, "usage limit; Selected model is at capacity"), limit);
    assert_eq!(classify_error(None, "network down"), None);
    assert_eq!(classify_error(Some("other"), ""), None);
}

#[test]
fn payload_of_a_failed_turn_is_read() {
    let payload = parse_json("{\"error\":{\"codex_error_info\":\"server_overloaded\"}}").unwrap();
    let error = session_error(&payload, "s", NOW).unwrap();
    assert_eq!(error.kind, SessionErrorKind::ServerOverloaded);
    assert_eq!(error.turn_id, None);
    assert_eq!(error.message, "");
    assert_eq!(error.detected_at, NOW);
    for healthy in ["{}", "{\"error\":null}", "{\"error\":{\"message\":\"other\"}}", "[]"] {
        let payload = parse_json(healthy).unwrap();
        assert!(session_error(&payload, "s", NOW).is_none());
    }
}

#[test]
fn broken_lines_are_passed_over() {
    let failed = "  {\"payload\":{\"type\":\"task_complete\",\"error\":{\"message\":\"usage limit\"}}}  ";
    let mut log = Vec::new();
    // The window can begin within a line, and within a character.
    log.extend_from_slice(b"\xbd\"task_started\"}}\n");
    log.extend_from_slice(failed.as_bytes());
    log.extend_from_slice(b"\r\n\n   \n{\"type\":\"task_started\"\n");
    log.extend_from_slice(b"{\"note\":\"task_complete\"}\n");
    let error = check_rollout_for_errors_at(&log, "s", NOW).unwrap();
    assert_eq!(error.kind, SessionErrorKind::UsageLimitExceeded);
    assert_eq!(error.message, "usage limit");

    assert!(check_rollout_for_errors_at(b"", "s", NOW).is_none());
    assert!(check_rollout_for_errors_at(b"nothing", "s", NOW).is_none());
}

#[test]
fn running_turn_is_unknown_without_an_event() {
    assert_eq!(rollout_has_active_turn(vec![]), Err(TurnUnknown::NoEvent));
    assert_eq!(rollout_has_active_turn(b"{\"payload\":{}}".to_vec()), Err(TurnUnknown::NoEvent));
    assert_eq!(rollout_has_active_turn(vec![0xff, 0xfe]), Err(TurnUnknown::NoText));
    let log = "{\"payload\":{\"type\":\"task_complete\"}}\n{\"payload\":\"task_started\"}\n\"task_started\"";
    assert_eq!(rollout_has_active_turn(log.as_bytes().to_vec()), Ok(false));
}

/// What a log tells of an error, without the time at which it was read.
fn told(log: &str, now: Moment) -> Option<(SessionErrorKind, Option<String>, String)> {
    let error = check_rollout_for_errors_at(log.as_bytes(), "s", now)?;
    assert_eq!((error.session_id.as_str(), error.detected_at), ("s", now));
    Some((error.kind, error.turn_id, error.message))
}

#[test]
fn what_is_added_to_a_log_decides() {
    let started = "{\"payload\":{\"type\":\"task_started\"}}\n";
    let healthy = "{\"payload\":{\"type\":\"task_complete\",\"error\":null}}\n";
    let failed = "{\"payload\":{\"type\":\"task_complete\",\"turn_id\":\"t\",\"error\":{\"message\":\"usage limit\"}}}\n";
    let other = "{\"payload\":{\"type\":\"item\",\"text\":\"\u{44f}\"}}\nno json\n\n";
    let later = Moment { secs: NOW.secs + 60, nanos: 0 };
    let error =
        Some((SessionErrorKind::UsageLimitExceeded, Some("t".to_string()), "usage limit".to_string()));
    for log in ["", started, healthy, failed] {
        let before = told(log, NOW);
        // Lines of no turn change nothing, however many; the newest event decides.
        assert_eq!(told(&format!("{log}{other}{other}"), later), before);
        assert_eq!(told(&format!("{log}{other}{failed}{other}"), later), error);
        assert_eq!(told(&format!("{log}{failed}{started}{other}"), NOW), None);
        assert_eq!(told(&format!("{log}{failed}{other}{healthy}"), NOW), None);
    }
    assert_eq!(told(failed, NOW), error);
}

#[test]
fn running_turn_is_in_no_error() {
    let failed = "{\"payload\":{\"type\":\"task_complete\",\"error\":{\"message\":\"usage limit\"}}}";
    let started = "{\"payload\":{\"type\":\"task_started\"}}";
    for log in [format!("{failed}\n{started}\n"), format!("{failed}\r\n  {started}  \r\nrest")] {
        assert_eq!(rollout_has_active_turn(log.clone().into_bytes()), Ok(true));
        assert_eq!(told(&log, NOW), None);
    }
    // Without the blank before it, a line can tell of more than with it.
    let log = format!("{started}\n\u{a0}{failed}\n");
    assert_eq!(rollout_has_active_turn(log.clone().into_bytes()), Ok(true));
    assert!(told(&log, NOW).is_some());
}

/// What the end of a file of these bytes tells of an error.
fn told_by_file(file: &[u8], now: Moment) -> Option<(SessionErrorKind, Option<String>, String)> {
    let start = tail_offset(file.len() as u64, ERROR_WINDOW) as usize;
    let error = check_rollout_for_errors_at(&file[start..], "s", now)?;
    Some((error.kind, error.turn_id, error.message))
}

#[test]
fn long_log_is_read_from_within_a_character() {
    let failed = "{\"payload\":{\"type\":\"task_complete\",\"turn_id\":\"t\",\"error\":{\"message\":\"usage limit\"}}}\n";
    let healthy = "{\"payload\":{\"type\":\"task_complete\"}}\n";
    let started = "{\"payload\":{\"type\":\"task_started\"}}\n";
    let later = Moment { secs: NOW.secs + 60, nanos: 0 };
    // Characters of three bytes, so that the window begins at each place within one.
    for blanks in 0..3 {
        let head = format!("{}{}\n", " ".repeat(blanks), "\u{20ac}".repeat(40_000));
        let file = format!("{started}{head}{failed}").into_bytes();
        let before = told_by_file(&file, NOW);
        assert_eq!(before.as_ref().map(|(_, turn, _)| turn.as_deref()), Some(Some("t")));
        // Lines of no turn, among them some that are no text, change nothing.
        let mut grown = file.clone();
        grown.extend_from_slice(b"\xff\xfe no text\n\xe2\x82\n{\"payload\":{}}\n");
        assert_eq!(told_by_file(&grown, later), before);
        let mut ended = grown.clone();
        ended.extend_from_slice(healthy.as_bytes());
        assert_eq!(told_by_file(&ended, later), None);
        grown.extend_from_slice(started.as_bytes());
        assert_eq!(told_by_file(&grown, later), None);
        // A running turn: what the longer end tells holds for the shorter one.
        let running = format!("{failed}{started}{head}").into_bytes();
        assert_eq!(rollout_has_active_turn(running.clone()), Ok(true));
        assert_eq!(told_by_file(&running, NOW), None);
    }
}

#[test]
fn session_without_a_log_that_can_be_read_is_in_no_error() {
    let log = |tail: Option<Vec<u8>>| LogFinding { path: "/log".to_string(), head: None, tail };
    for log in [None, Some(log(None)), Some(log(Some(vec![])))] {
        let found = describe_session(finding("s.lock", Some(5), None, log), &vec![], NOW).unwrap();
        assert!(found.last_error.is_none());
    }
}

#[test]
fn tail_of_a_file_is_bounded() {
    assert_eq!(tail_offset(0, ERROR_WINDOW), 0);
    assert_eq!(tail_offset(65_536, ERROR_WINDOW), 0);
    assert_eq!(tail_offset(65_537, ERROR_WINDOW), 1);
    assert_eq!(tail_offset(2_000_000, TURN_WINDOW), 2_000_000 - 1_048_576);
}

// ---------------------------------------------------------------------------
// Discovery
// ---------------------------------------------------------------------------

#[test]
fn locks_bear_the_ids_of_sessions() {
    assert_eq!(lock_session_id("abc.lock").as_deref(), Some("abc"));
    assert_eq!(lock_session_id("abc.lock.lock").as_deref(), Some("abc"));
    assert_eq!(lock_session_id("a.lock.b.lock").as_deref(), Some("a.lock.b"));
    assert_eq!(lock_session_id("abc"), None);
    assert_eq!(lock_session_id(".abc.lock"), None);
    assert_eq!(lock_session_id(".lock"), None);
    assert_eq!(lock_session_id("lock"), None);
}

#[test]
fn process_in_a_terminal_goes_first() {
    assert_eq!(choose_process(Some(7), Some(8)), Some((7, false)));
    assert_eq!(choose_process(None, Some(8)), Some((8, true)));
    assert_eq!(choose_process(None, None), None);
    assert_eq!(choose_process(Some(0), Some(8)), None);
}

fn lines(list: &[&str]) -> Vec<Option<String>> {
    list.iter().map(|line| Some(line.to_string())).collect()
}

#[test]
fn head_of_a_log_tells_parent_and_directory() {
    let meta = inspect_session_meta(&lines(&[
        "not json",
        "{\"payload\":{\"parent_thread_id\":\"\",\"cwd\":\"\"}}",
        "{\"payload\":{\"cwd\":\"/first\"}}",
        "{\"payload\":{\"cwd\":\"/second\",\"parent_thread_id\":\"parent\"}}",
    ]));
    assert_eq!(meta.parent_thread_id.as_deref(), Some("parent"));
    assert_eq!(meta.cwd.as_deref(), Some("/first"));

    let meta = inspect_session_meta(&lines(&["{\"payload\":{\"thread_settings\":{\"cwd\":\"/t\"}}}"]));
    assert_eq!(meta.cwd.as_deref(), Some("/t"));
    let meta = inspect_session_meta(&lines(&[
        "{\"payload\":{\"state\":{\"environments\":{\"environments\":{\"local\":{\"cwd\":\"/deep\"}}}}}}",
    ]));
    assert_eq!(meta.cwd.as_deref(), Some("/deep"));
    assert_eq!(meta.parent_thread_id, None);
    // A directory that is there, but no text, hides the other places.
    let meta = inspect_session_meta(&lines(&[
        "{\"payload\":{\"cwd\":5,\"thread_settings\":{\"cwd\":\"/t\"}}}",
    ]));
    assert_eq!(meta.cwd, None);
}

#[test]
fn only_the_head_of_a_log_is_searched() {
    let mut head: Vec<Option<String>> = vec![None; 49];
    head.push(Some("{\"payload\":{\"cwd\":\"/fifty\"}}".to_string()));
    head.push(Some("{\"payload\":{\"parent_thread_id\":\"late\"}}".to_string()));
    let meta = inspect_session_meta(&head);
    assert_eq!(meta.cwd.as_deref(), Some("/fifty"));
    assert_eq!(meta.parent_thread_id, None);
}

fn finding(name: &str, cli: Option<u32>, desktop: Option<u32>, log: Option<LogFinding>) -> LockFinding {
    LockFinding {
        lock_name: name.to_string(),
        cli_pid: cli,
        desktop_pid: desktop,
        log,
        process_cwd: Some("/proc/cwd".to_string()),
    }
}

#[test]
fn sessions_are_put_together_from_their_locks() {
    let failed = b"{\"payload\":{\"type\":\"task_complete\",\"turn_id\":\"t\",\"error\":{\"message\":\"usage limit\"}}}";
    let log = LogFinding {
        path: "/logs/a.jsonl".to_string(),
        head: Some(lines(&["{\"payload\":{\"cwd\":\"/work\"}}"])),
        tail: Some(failed.to_vec()),
    };
    let session =
        describe_session(finding("a.lock", Some(42), None, Some(log)), &vec![41, 42], NOW).unwrap();
    assert_eq!(session.session_id, "a");
    assert_eq!(session.pid, 42);
    assert_eq!(session.cwd.as_deref(), Some("/work"));
    assert_eq!(session.rollout_path.as_deref(), Some("/logs/a.jsonl"));
    assert!(session.is_managed);
    assert!(!session.is_desktop);
    let error = session.last_error.unwrap();
    assert_eq!(error.turn_id.as_deref(), Some("t"));
    assert_eq!(error.session_id, "a");
    assert_eq!(error.detected_at, NOW);

    let session = describe_session(finding("b.lock", None, Some(9), None), &vec![], NOW).unwrap();
    assert_eq!(session.cwd.as_deref(), Some("/proc/cwd"));
    assert!(session.is_desktop);
    assert!(!session.is_managed);
    assert!(session.last_error.is_none());
    assert_eq!(session.rollout_path, None);
}

#[test]
fn helpers_and_ended_sessions_are_left_out() {
    let helper = LogFinding {
        path: "/logs/h.jsonl".to_string(),
        head: Some(lines(&["{\"payload\":{\"parent_thread_id\":\"p\"}}"])),
        tail: None,
    };
    let unread = LogFinding { path: "/logs/u.jsonl".to_string(), head: None, tail: None };
    let found = find_active_sessions(
        vec![
            finding("h.lock", Some(1), None, Some(helper)),
            finding("u.lock", Some(2), None, Some(unread)),
            finding("gone.lock", None, None, None),
            finding("readme", Some(3), None, None),
            finding("d.lock", None, Some(4), None),
        ],
        &vec![2],
    );
    let ids: Vec<&str> = found.iter().map(|s| s.session_id.as_str()).collect();
    assert_eq!(ids, vec!["u", "d"]);
    assert!(found[0].is_managed);
    assert!(found[0].last_error.is_none());
}

#[test]
fn clock_gives_a_date_of_the_calendar() {
    let now = current_moment();
    assert!(now.is_valid());
    assert!(now.secs > 1_600_000_000);
    assert!(!Moment { secs: i64::MAX, nanos: 0 }.is_valid());
    assert!(!Moment { secs: 0, nanos: 1_000_000_000 }.is_valid());
    assert!(Moment { secs: 59, nanos: 1_000_000_000 }.is_valid());
    assert!(Moment { secs: -1, nanos: 1_500_000_000 }.is_valid());
    assert!(!Moment { secs: 59, nanos: 2_000_000_000 }.is_valid());
}

// ---------------------------------------------------------------------------
// The desktop app
// ---------------------------------------------------------------------------

fn other(id: &str, is_desktop: bool, path: Option<&str>, tail: Option<&[u8]>) -> SessionLog {
    SessionLog {
        session: ActiveCodexSession {
            session_id: id.to_string(),
            pid: 5,
            cwd: None,
            rollout_path: path.map(|p| p.to_string()),
            last_error: None,
            is_managed: false,
            is_desktop,
        },
        tail: tail.map(|t| t.to_vec()).ok_or("no such file".to_string()),
    }
}

const STARTED: &[u8] = b"{\"payload\":{\"type\":\"task_started\"}}\n";
const ENDED: &[u8] = b"{\"payload\":{\"type\":\"task_complete\"}}\n";

#[test]
fn desktop_app_is_closed_only_where_nothing_is_lost() {
    let check = |others: Vec<SessionLog>| {
        desktop_handoff_is_exclusive("me", others).map_err(|error| error.message())
    };
    assert_eq!(check(vec![]), Ok(()));
    assert_eq!(check(vec![other("me", false, None, None)]), Ok(()));
    assert_eq!(check(vec![other("x", true, Some("/x"), Some(ENDED))]), Ok(()));
    assert_eq!(
        check(vec![other("x", false, Some("/x"), Some(ENDED))]),
        Err("Another CLI session is open; deferring desktop account handoff".to_string())
    );
    assert_eq!(
        check(vec![other("x", true, None, None)]),
        Err("Desktop session history is unavailable".to_string())
    );
    assert_eq!(
        check(vec![other("x", true, Some("/x"), None)]),
        Err("no such file".to_string())
    );
    assert_eq!(
        check(vec![other("x", true, Some("/x"), Some(&[0xff]))]),
        Err("stream did not contain valid UTF-8".to_string())
    );
    assert_eq!(
        check(vec![other("x", true, Some("/x"), Some(b""))]),
        Err("Cannot determine whether another Codex turn is active".to_string())
    );
    assert_eq!(
        check(vec![other("x", true, Some("/x"), Some(STARTED))]),
        Err("Another desktop turn is active; deferring account handoff".to_string())
    );
    // The first obstacle is the reason.
    assert_eq!(
        check(vec![
            other("me", true, Some("/m"), Some(STARTED)),
            other("x", true, Some("/x"), Some(STARTED)),
            other("y", false, None, None),
        ]),
        Err("Another desktop turn is active; deferring account handoff".to_string())
    );
}

#[test]
fn processes_beside_a_session_are_told_apart() {
    let process = |pid: u32, is_desktop_root: bool| RunningProcess { pid, is_desktop_root };
    assert!(is_alone(&vec![process(7, false)], 7));
    assert!(!is_alone(&vec![process(8, false)], 7));
    assert!(!is_alone(&vec![process(7, false), process(8, true)], 7));
    assert!(is_beside_desktop(&vec![process(7, false), process(8, true)], 7));
    assert!(is_beside_desktop(&vec![process(8, true), process(7, false)], 7));
    assert!(!is_beside_desktop(&vec![process(7, true), process(8, false)], 7));
    assert!(!is_beside_desktop(&vec![process(9, true), process(8, true)], 7));
    assert!(!is_beside_desktop(&vec![process(7, false)], 7));
}

#[test]
fn requests_are_lines_of_json() {
    assert_eq!(
        initialize_request(),
        "{\"id\":1,\"method\":\"initialize\",\"params\":{\"clientInfo\":{\"name\":\"codex-switcher\",\"version\":\"0.2.20\"}}}\n"
    );
    assert_eq!(
        thread_request(12, "a\"b"),
        "{\"id\":12,\"method\":\"thread/resume\",\"params\":{\"threadId\":\"a\\\"b\"}}\n"
    );
    let line = turn_request(13, "s", "say \"hi\"\n\u{1}\\ \u{fc}");
    assert_eq!(
        line,
        "{\"id\":13,\"method\":\"turn/start\",\"params\":{\"input\":[{\"text\":\"say \\\"hi\\\"\\n\\u0001\\\\ \u{fc}\",\"type\":\"text\"}],\"threadId\":\"s\"}}\n"
    );
    let read: serde_json::Value = serde_json::from_str(&line).unwrap();
    assert_eq!(read["params"]["input"][0]["text"], "say \"hi\"\n\u{1}\\ \u{fc}");
    assert_eq!(read["params"]["input"][0]["type"], "text");
    assert_eq!(read["id"], 13);
}

#[test]
fn replies_are_matched_to_requests() {
    assert!(matches!(app_server_response("oops", 2), Reply::Unreadable));
    assert!(matches!(app_server_response("{\"method\":\"x\"}", 2), Reply::Unrelated));
    assert!(matches!(app_server_response("{\"id\":3,\"result\":{}}", 2), Reply::Unrelated));
    assert!(matches!(app_server_response("{\"id\":\"2\",\"result\":{}}", 2), Reply::Unrelated));
    assert!(matches!(app_server_response("{\"id\":2,\"result\":null}", 2), Reply::Done));
    assert!(matches!(app_server_response("{\"id\":2}", 2), Reply::Incomplete));
    match app_server_response("{\"id\":2,\"error\":{\"code\": -1, \"list\": [1, 2]}}", 2) {
        Reply::Failed(error) => assert_eq!(error, "{\"code\":-1,\"list\":[1,2]}"),
        _ => panic!("the request failed"),
    }
}

#[test]
fn ends_of_turns_are_counted() {
    assert!(line_ends_turn("{\"method\":\"turn/completed\",\"params\":{}}"));
    assert!(!line_ends_turn("{\"method\":\"turn/started\"}"));
    assert!(!line_ends_turn("{}"));
    assert!(!line_ends_turn("turn/completed"));
}

#[test]
fn server_is_needed_until_its_turns_have_ended() {
    let ended = "{\"method\":\"turn/completed\"}";
    let mut countdown = TurnCountdown::new(2);
    assert!(!countdown.is_over());
    for line in [ended, "{\"method\":\"turn/started\"}", "no json", "{\"id\":1}"] {
        countdown.heard(line);
        assert!(!countdown.is_over());
    }
    countdown.heard(ended);
    assert!(countdown.is_over());
    countdown.heard(ended);
    assert_eq!(countdown.left, 0);
    assert!(TurnCountdown::new(0).is_over());
}

fn desktop_session(id: &str) -> ActiveCodexSession {
    other(id, true, None, None).session
}

#[test]
fn desktop_sessions_are_resumed_in_turn() {
    let sessions = vec![desktop_session("a"), desktop_session("b"), desktop_session("c")];
    let first = match DesktopResume::begin(sessions, " go on ".to_string()) {
        ResumeStep::Thread(stage) => stage,
        ResumeStep::Finished(_) => panic!("there are sessions"),
    };
    let (id, line) = first.request();
    assert_eq!(id, 2);
    assert_eq!(line, thread_request(2, "a"));
    let turn = first.resumed().looked_up(false);
    assert_eq!(turn.phrase, "go on");
    let (id, line) = turn.request();
    assert_eq!(id, 3);
    assert_eq!(line, turn_request(3, "a", "go on"));
    let second = match turn.started() {
        ResumeStep::Thread(stage) => stage,
        ResumeStep::Finished(_) => panic!("there are more sessions"),
    };
    assert_eq!(second.request().0, 4);
    let third = match second.refused() {
        ResumeStep::Thread(stage) => stage,
        ResumeStep::Finished(_) => panic!("there is one more session"),
    };
    let turn = third.resumed().looked_up(true);
    assert_eq!(turn.phrase, "/goal resume");
    assert_eq!(turn.request().0, 7);
    match turn.refused() {
        ResumeStep::Finished(Ok(started)) => assert_eq!(started, vec!["a".to_string()]),
        _ => panic!("one session was started"),
    }
}

#[test]
fn resuming_no_session_is_an_error() {
    match DesktopResume::begin(vec![], "x".to_string()) {
        ResumeStep::Finished(Err(RecoveryError::NothingStarted)) => {},
        _ => panic!("nothing was started"),
    }
    let stage = match DesktopResume::begin(vec![desktop_session("a")], "x".to_string()) {
        ResumeStep::Thread(stage) => stage,
        ResumeStep::Finished(_) => panic!("there is a session"),
    };
    match stage.refused() {
        ResumeStep::Finished(Err(error)) => assert_eq!(
            error.message(),
            "Codex could not start a continuation in any desktop session"
        ),
        _ => panic!("nothing was started"),
    }
}
