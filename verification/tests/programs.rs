use auto_recovery::accounts::AutoSwitchStrategy;
use auto_recovery::commands::{
    cmdline_names_session, escape_shell_arg, find_cli_holder, find_desktop_holder,
    find_pid_for_session, find_process_of_session, is_desktop_app_server_command, is_desktop_root_process,
    is_macos_desktop_root_command, is_supported_cli_command, macos_resume_command, parse_pids,
    process_cwd, LockHolder, PidStep, ProcessEntry,
};
use auto_recovery::platform::Platform;
use auto_recovery::search::{
    codex_candidates, find_codex_binary, locate_rollout_file, sort_names, sort_versions, Place,
    SearchStep,
};
use auto_recovery::settings::{
    is_session_goal_active, is_session_goal_active_in_db, launch_codex_session, normalize_phrase,
    other_goal_database, resolve_session_resume_phrase, save_auto_recovery_settings, AppSettings,
    GoalFinding, GOAL_STATUS_QUERY,
};
use auto_recovery::terminal::{
    last_window, launch_session_in_terminal, queue_failure, restart_file_name,
    send_codex_queue_resume, send_desktop_notification, terminal_candidates, terminate_process,
    window_of_process, Launch, Terminal, RUNNER_SCRIPT,
};
use auto_recovery::text::{decimal, decode_lossy, lines, parse_u32, precedes, white_space, words};
use auto_recovery::versions::older;

#[test]
fn desktop_app_server_is_not_a_recoverable_cli_session() {
    assert!(!is_supported_cli_command(
        "/Applications/ChatGPT.app/Contents/Resources/codex app-server --analytics-default-enabled"
    ));
    assert!(!is_supported_cli_command("/usr/local/bin/codex app-server"));
    assert!(is_supported_cli_command("/usr/local/bin/codex resume session-id"));
}

#[test]
fn recognizes_only_the_macos_desktop_app_server() {
    assert!(is_desktop_app_server_command(
        "/Applications/ChatGPT.app/Contents/Resources/codex app-server --analytics-default-enabled"
    ));
    assert!(!is_desktop_app_server_command("/usr/local/bin/codex app-server"));
    assert!(!is_desktop_app_server_command(
        "/Applications/ChatGPT.app/Contents/MacOS/ChatGPT"
    ));
    assert!(is_macos_desktop_root_command(
        "/Users/test/Applications With Spaces/ChatGPT.app/Contents/MacOS/ChatGPT"
    ));
    assert!(!is_macos_desktop_root_command("/usr/local/bin/codex resume thread"));
}

#[test]
fn macos_resume_command_quotes_every_dynamic_argument() {
    let command = macos_resume_command(
        "/tmp/Codex Bin/codex",
        "/tmp/my work; touch /tmp/injected",
        "thread' id",
        "continue $(touch /tmp/injected) 'now'",
        "/tmp/restart file",
    );
    assert!(command.contains("cd '/tmp/my work; touch /tmp/injected'"));
    assert!(command.contains("'/tmp/Codex Bin/codex' resume 'thread'\\'' id'"));
    assert!(command.contains("'continue $(touch /tmp/injected) '\\''now'\\'''"));
    assert!(command.contains("[ -f '/tmp/restart file' ]"));
    assert_eq!(
        command,
        "cd '/tmp/my work; touch /tmp/injected' && while true; do '/tmp/Codex Bin/codex' resume 'thread'\\'' id' 'continue $(touch /tmp/injected) '\\''now'\\'''; if [ -f '/tmp/restart file' ]; then rm -f '/tmp/restart file'; sleep 1; continue; fi; break; done; exit"
    );
}

#[test]
fn arguments_are_quoted_for_the_shell() {
    assert_eq!(escape_shell_arg(""), "''");
    assert_eq!(escape_shell_arg("plain"), "'plain'");
    assert_eq!(escape_shell_arg("it's"), "'it'\\''s'");
    assert_eq!(escape_shell_arg("''"), "''\\'''\\'''");
}

#[test]
fn other_commands_are_no_sessions() {
    assert!(is_supported_cli_command("  CODEX  "));
    assert!(!is_supported_cli_command("   "));
    assert!(!is_supported_cli_command("vim notes"));
    assert!(!is_supported_cli_command("/opt/codex-switcher/codex-switcher"));
    assert!(!is_supported_cli_command("codex exec-server"));
    assert!(!is_supported_cli_command("/Applications/Codex.app/Contents/MacOS/Codex"));
    assert!(is_macos_desktop_root_command("/Applications/Codex.app/Contents/MacOS/Codex\n"));
    assert!(!is_macos_desktop_root_command("open /Applications/Codex.app/Contents/MacOS/Codex"));
    assert!(is_desktop_app_server_command("/X/CODEX.APP/Contents/Resources/codex app-server"));
}

#[test]
fn process_of_a_session_is_found_by_its_command_line() {
    let entry = |name: &str, cmdline: Option<&[u8]>| ProcessEntry {
        name: name.to_string(),
        cmdline: cmdline.map(|c| c.to_vec()),
    };
    let entries = vec![
        entry("self", Some(b"codex\0resume\0abc\0")),
        entry("10", None),
        entry("11", Some(b"codex\0resume\0other\0")),
        entry("12", Some(b"codex-switcher\0abc\0")),
        entry("13", Some(b"codex\0resume\0abc\0")),
        entry("14", Some(b"codex\0resume\0abc\0")),
    ];
    assert_eq!(find_process_of_session(&entries, "abc"), Some(13));
    assert_eq!(find_process_of_session(&entries, "xyz"), None);
    // The arguments are parted by spaces only once the session is found in them.
    assert!(cmdline_names_session("codex\0resume\0abc", "resume\0abc"));
    assert!(!cmdline_names_session("codex\0resume\0abc", "resume abc"));
    // A command line that is no text is read as far as it is one.
    let broken = vec![entry("+15", Some(b"\xff codex abc"))];
    assert_eq!(find_process_of_session(&broken, "abc"), Some(15));
}

#[test]
fn running_processes_go_before_the_holders_of_a_lock() {
    let entry = |name: &str, cmdline: &[u8]| ProcessEntry {
        name: name.to_string(),
        cmdline: Some(cmdline.to_vec()),
    };
    let entries = vec![entry("12", b"vim\0abc\0"), entry("13", b"codex\0resume\0abc\0")];
    assert!(matches!(find_pid_for_session(&entries, "abc"), PidStep::Found(13)));
    assert!(matches!(find_pid_for_session(&entries, "xyz"), PidStep::ListHolders));
    assert!(matches!(find_pid_for_session(&vec![], "abc"), PidStep::ListHolders));
}

#[test]
fn desktop_app_is_no_session_in_a_terminal() {
    let app = "/Applications/ChatGPT.app/Contents/MacOS/ChatGPT --codex";
    assert!(is_macos_desktop_root_command(app));
    assert!(!is_supported_cli_command(app));
    let app = "/Users/me/Codex.app/Contents/MacOS/Codex";
    assert!(is_macos_desktop_root_command(app));
    assert!(!is_supported_cli_command(app));
}

#[test]
fn holders_of_a_lock_are_told_apart() {
    assert_eq!(parse_pids(b"12\n  34 \r\nx\n-5\n+6\n99999999999\n\n7"), vec![12, 34, 6, 7]);
    assert_eq!(parse_pids(b""), Vec::<u32>::new());
    let server = b"/Applications/ChatGPT.app/Contents/Resources/codex app-server\n";
    let holders = vec![
        LockHolder { pid: 1, command: None },
        LockHolder { pid: 2, command: Some(server.to_vec()) },
        LockHolder { pid: 3, command: Some(b"/usr/bin/codex resume x\n".to_vec()) },
    ];
    assert_eq!(find_cli_holder(&holders), Some(3));
    assert_eq!(find_desktop_holder(&holders), Some(2));
    let app: &[u8] = b"/Applications/ChatGPT.app/Contents/MacOS/ChatGPT\n";
    assert!(is_desktop_root_process(Some(app)));
    assert!(!is_desktop_root_process(Some(server)));
    assert!(!is_desktop_root_process(None));
    assert_eq!(find_cli_holder(&vec![]), None);
    assert_eq!(find_desktop_holder(&vec![]), None);
}

#[test]
fn working_directory_is_read_from_open_files() {
    assert_eq!(process_cwd(b"p12\nfcwd\nn/home/me\nftxt\nn/bin/x\n").as_deref(), Some("/home/me"));
    assert_eq!(process_cwd(b"p12\nftxt\nn/bin/x\n"), None);
    assert_eq!(process_cwd(b"fcwd\ntDIR\nn/home\n"), None);
    assert_eq!(process_cwd(b"fcwd\nfcwd\nn\n").as_deref(), Some(""));
}

// ---------------------------------------------------------------------------
// Settings
// ---------------------------------------------------------------------------

#[test]
fn test_resolve_session_resume_phrase_fallback() {
    assert_eq!(
        resolve_session_resume_phrase("non_existent_thread_xyz", "продолжи", false),
        "продолжи"
    );
    assert_eq!(resolve_session_resume_phrase("non_existent_thread_xyz", "   ", false), "continue");
    assert_eq!(resolve_session_resume_phrase("", "продолжи", false), "продолжи");
}

#[test]
fn goal_is_resumed_where_there_is_one() {
    assert_eq!(resolve_session_resume_phrase("thread", "go on", true), "/goal resume");
    assert_eq!(resolve_session_resume_phrase("", "go on", true), "go on");
    assert_eq!(normalize_phrase("\u{3000} go on\n"), "go on");
    for phrase in ["", " x ", "\u{a0}", "a b"] {
        let kept = normalize_phrase(phrase);
        assert_eq!(normalize_phrase(&kept), kept);
        assert!(!kept.is_empty());
    }
}

#[test]
fn test_goal_resume_phrase_detection_in_db() {
    let conn = rusqlite::Connection::open_in_memory().unwrap();
    conn.execute(
        "CREATE TABLE thread_goals (
            thread_id TEXT PRIMARY KEY NOT NULL,
            goal_id TEXT NOT NULL,
            objective TEXT NOT NULL,
            status TEXT NOT NULL
        );",
        [],
    )
    .unwrap();
    conn.execute(
        "INSERT INTO thread_goals (thread_id, goal_id, objective, status) VALUES
            ('thread_active', 'g1', 'obj1', 'active'),
            ('thread_paused', 'g2', 'obj2', 'paused'),
            ('thread_usage_limited', 'g3', 'obj3', 'usage_limited'),
            ('thread_blocked', 'g4', 'obj4', 'blocked'),
            ('thread_complete', 'g5', 'obj5', 'complete');",
        [],
    )
    .unwrap();
    let is_active = |thread: &str| {
        let status: Option<String> =
            conn.query_row(GOAL_STATUS_QUERY, [thread], |row| row.get(0)).ok();
        is_session_goal_active_in_db(status.as_deref())
    };
    assert!(is_active("thread_active"));
    assert!(is_active("thread_paused"));
    assert!(is_active("thread_usage_limited"));
    assert!(is_active("thread_blocked"));
    assert!(!is_active("thread_complete"));
    assert!(!is_active("thread_non_existent"));
}

#[test]
fn goal_is_unfinished_in_five_statuses_alone() {
    for status in ["active", "paused", "usage_limited", "blocked", "budget_limited"] {
        assert!(is_session_goal_active_in_db(Some(status)));
        assert!(is_session_goal_active(None, &vec![GoalFinding {
            file_name: "goals_2.sqlite".to_string(),
            status: Some(status.to_string()),
        }]));
    }
    for status in ["complete", "cancelled", "", "Active", " active", "unknown"] {
        assert!(!is_session_goal_active_in_db(Some(status)));
        assert!(!is_session_goal_active(Some(status), &vec![]));
    }
    assert!(!is_session_goal_active_in_db(None));
}

#[test]
fn every_file_of_goals_counts() {
    let goal = |name: &str, status: Option<&str>| GoalFinding {
        file_name: name.to_string(),
        status: status.map(|s| s.to_string()),
    };
    assert!(is_session_goal_active(Some("paused"), &vec![]));
    assert!(!is_session_goal_active(None, &vec![]));
    assert!(is_session_goal_active(
        Some("complete"),
        &vec![goal("goals_1.sqlite", Some("active")), goal("goals_2.sqlite", Some("active"))]
    ));
    assert!(!is_session_goal_active(
        Some("complete"),
        &vec![goal("goals_1.sqlite", Some("active")), goal("logs.sqlite", Some("active"))]
    ));
    assert!(other_goal_database("goals_2.sqlite"));
    assert!(!other_goal_database("goals_1.sqlite"));
    assert!(!other_goal_database("goals_2.sqlite-wal"));
    assert!(!other_goal_database("my_goals_2.sqlite"));
}

#[test]
fn launch_takes_the_prompt_or_the_phrase() {
    let launch = |id: Option<&str>, prompt: Option<&str>, goal: bool| {
        launch_codex_session(id.map(|s| s.to_string()), prompt.map(|s| s.to_string()), " go ", goal)
    };
    let pair = |id: &str, phrase: &str| (id.to_string(), phrase.to_string());
    assert_eq!(launch(Some("s"), Some(" as is "), true), pair("s", " as is "));
    assert_eq!(launch(Some("s"), None, true), pair("s", "/goal resume"));
    assert_eq!(launch(Some("s"), None, false), pair("s", "go"));
    assert_eq!(launch(None, None, true), pair("", "go"));
}

#[test]
fn saved_settings_are_put_in_order() {
    let before = AppSettings {
        auto_retry_capacity_enabled: true,
        auto_retry_capacity_max_attempts: 1,
        auto_retry_capacity_initial_delay_sec: 2,
        auto_retry_capacity_escalate_to_switch: true,
        auto_switch_limit_enabled: true,
        auto_switch_strategy: AutoSwitchStrategy::RoundRobin,
        auto_redeem_reset_credits: true,
        continue_phrase: "x".to_string(),
        reset_credit_warning_days: 9,
        preferred_terminal: Some("kitty".to_string()),
    };
    let saved = save_auto_recovery_settings(
        before,
        false,
        5,
        6,
        false,
        false,
        AutoSwitchStrategy::ResetsFirst,
        false,
        "  \t".to_string(),
        0,
        None,
    );
    assert!(!saved.auto_retry_capacity_enabled);
    assert_eq!(saved.auto_retry_capacity_max_attempts, 5);
    assert_eq!(saved.auto_retry_capacity_initial_delay_sec, 6);
    assert!(!saved.auto_retry_capacity_escalate_to_switch);
    assert!(!saved.auto_switch_limit_enabled);
    assert_eq!(saved.auto_switch_strategy, AutoSwitchStrategy::ResetsFirst);
    assert!(!saved.auto_redeem_reset_credits);
    assert_eq!(saved.continue_phrase, "continue");
    assert_eq!(saved.reset_credit_warning_days, 1);
    assert_eq!(saved.preferred_terminal, None);
    let again = save_auto_recovery_settings(
        saved.clone(),
        true,
        5,
        6,
        true,
        true,
        AutoSwitchStrategy::SmartBalanced,
        true,
        " go on ".to_string(),
        4,
        Some("ghostty".to_string()),
    );
    assert_eq!(again.continue_phrase, "go on");
    assert_eq!(again.reset_credit_warning_days, 4);
    assert_eq!(again.preferred_terminal.as_deref(), Some("ghostty"));
}

// ---------------------------------------------------------------------------
// Programs
// ---------------------------------------------------------------------------

fn launch(cwd: Option<&str>, home: Option<&str>) -> Launch {
    Launch {
        session_id: "s1".to_string(),
        phrase: "it's on".to_string(),
        cwd: cwd.map(|c| c.to_string()),
        home: home.map(|h| h.to_string()),
        codex_bin: "/bin/codex".to_string(),
        restart_file: "/tmp/restart".to_string(),
    }
}

fn terminal(path: &str, name: &str) -> Option<Terminal> {
    Some(Terminal { path: path.to_string(), name: name.to_string() })
}

#[test]
fn terminals_of_linux_run_the_script() {
    let runner =
        ["sh", "-c", RUNNER_SCRIPT, "sh", "/bin/codex", "s1", "it's on", "/tmp/restart", "/work"];
    let plan = |name: &str| {
        let found = terminal(&format!("/usr/bin/{name}"), name);
        launch_session_in_terminal(&launch(Some("/work"), Some("/home")), Platform::Linux, found)
            .unwrap()
    };
    let check = |name: &str, options: &[&str], dir: Option<&str>| {
        let command = plan(name);
        assert_eq!(command.program, format!("/usr/bin/{name}"));
        let mut wanted: Vec<&str> = options.to_vec();
        wanted.extend_from_slice(&runner);
        assert_eq!(command.args, wanted);
        assert_eq!(command.dir.as_deref(), dir);
    };
    check("ghostty", &["--working-directory=/work", "-e"], None);
    check("kitty", &["--directory", "/work"], None);
    check("alacritty", &["--working-directory", "/work", "-e"], None);
    check("gnome-terminal", &["--working-directory=/work", "--"], None);
    check("x-terminal-emulator", &["-e"], Some("/work"));
    assert!(launch_session_in_terminal(&launch(None, None), Platform::Linux, None).is_none());
    assert!(launch_session_in_terminal(&launch(None, None), Platform::Unix, None).is_none());
}

#[test]
fn session_without_a_directory_is_launched_at_home() {
    let found = terminal("/bin/kitty", "kitty");
    let command =
        launch_session_in_terminal(&launch(None, Some("/home")), Platform::Linux, found).unwrap();
    assert_eq!(&command.args[..2], &["--directory".to_string(), "/home".to_string()]);
    assert_eq!(command.args.last().unwrap(), "");
    let found = terminal("/bin/kitty", "kitty");
    let command = launch_session_in_terminal(&launch(None, None), Platform::Linux, found).unwrap();
    assert_eq!(command.args[1], ".");
}

#[test]
fn runner_script_resumes_until_no_restart_is_wanted() {
    assert!(RUNNER_SCRIPT.starts_with("\nCODEX_BIN=\"$1\"\nSESSION_ID=\"$2\"\n"));
    assert!(RUNNER_SCRIPT.contains("\"$CODEX_BIN\" resume -C \"$SESSION_CWD\" \"$SESSION_ID\" \"$CURRENT_PHRASE\"\n"));
    assert!(RUNNER_SCRIPT.contains("CURRENT_PHRASE=$(cat \"$RESTART_FILE\" 2>/dev/null)\n"));
    assert!(RUNNER_SCRIPT.contains("printf \"\\033[1;32m [Codex Switcher] Account switched. Resuming in-place...\\033[0m\\n\"\n"));
    assert!(RUNNER_SCRIPT.ends_with("    break\ndone\nexec $SHELL\n"));
}

#[test]
fn terminals_of_other_systems_are_opened_by_a_program() {
    let command =
        launch_session_in_terminal(&launch(Some("/w"), None), Platform::MacOs, None).unwrap();
    assert_eq!(command.program, "osascript");
    assert_eq!(command.args[0], "-e");
    assert_eq!(
        command.args[1],
        "on run argv\n  tell application \"Terminal\" to do script (item 1 of argv)\nend run"
    );
    assert_eq!(command.args[2], "--");
    assert_eq!(
        command.args[3],
        macos_resume_command("/bin/codex", "/w", "s1", "it's on", "/tmp/restart")
    );
    let command =
        launch_session_in_terminal(&launch(Some("C:\\w"), None), Platform::Windows, None).unwrap();
    assert_eq!(command.program, "cmd.exe");
    assert_eq!(
        command.args,
        vec!["/c", "start", "cmd.exe", "/k", "'/bin/codex' resume 's1' 'it'\\''s on'"]
    );
    assert_eq!(command.dir.as_deref(), Some("C:\\w"));
}

#[test]
fn preferred_terminal_is_looked_for_first() {
    assert_eq!(
        terminal_candidates(Some("wezterm")),
        vec!["wezterm", "ghostty", "alacritty", "kitty", "gnome-terminal", "x-terminal-emulator"]
    );
    assert_eq!(terminal_candidates(None).len(), 5);
}

#[test]
fn sessions_are_queued_ended_and_announced_by_commands() {
    let queue = send_codex_queue_resume("/bin/codex", "s1", "go on");
    assert_eq!(queue.program, "/bin/codex");
    assert_eq!(queue.args, vec!["queue", "--thread", "s1", "--message", "go on"]);

    assert_eq!(queue_failure(b"no thread\n"), "codex queue failed: no thread\n");

    assert!(terminate_process(0, Platform::Linux).is_empty());
    let unix = terminate_process(4711, Platform::MacOs);
    assert_eq!(unix.len(), 2);
    assert_eq!(unix[0].program, "kill");
    assert_eq!(unix[0].args, vec!["-TERM", "4711"]);
    assert_eq!(unix[1].args, vec!["-KILL", "4711"]);
    let windows = terminate_process(20, Platform::Windows);
    assert_eq!(windows.len(), 1);
    assert_eq!(windows[0].program, "taskkill");
    assert_eq!(windows[0].args, vec!["/PID", "20", "/F"]);

    let linux = send_desktop_notification("T", "B", Platform::Linux).unwrap();
    assert_eq!(linux.program, "notify-send");
    assert_eq!(linux.args, vec!["-a", "Codex Switcher", "-i", "dialog-information", "T", "B"]);
    let mac = send_desktop_notification("a \"t\"", "b", Platform::MacOs).unwrap();
    assert_eq!(mac.program, "osascript");
    assert_eq!(
        mac.args,
        vec!["-e", "display notification \"b\" with title \"a \\\"t\\\"\""]
    );
    assert!(send_desktop_notification("t", "b", Platform::Windows).is_none());
    assert_eq!(restart_file_name("abc"), "codex-switcher-restart-abc");
}

#[test]
fn windows_are_found_by_their_process() {
    let listing = b"0x01 0 12 host a\n0x02  0\t34 host b c\n0x03 0\n0x04 0 34 host\n";
    assert_eq!(window_of_process(listing, 34).as_deref(), Some("0x02"));
    assert_eq!(window_of_process(listing, 3), None);
    assert_eq!(last_window(b"11\n 22 \n").as_deref(), Some("22"));
    assert_eq!(last_window(b"11\n  \n"), None);
    assert_eq!(last_window(b""), None);
}

// ---------------------------------------------------------------------------
// Searches
// ---------------------------------------------------------------------------

fn names(list: &[&str]) -> Vec<String> {
    list.iter().map(|name| name.to_string()).collect()
}

#[test]
fn numbers_are_read_back_from_their_digits() {
    for n in [0, 7, 10, 99, 100, 4_294_967_295] {
        assert_eq!(parse_u32(&decimal(n as u64)), Some(n));
    }
    assert_eq!(decimal(1_234_567_890_123), "1234567890123");
    for text in ["", "+", "-1", "1 ", "4294967296", "1a", "++1"] {
        assert_eq!(parse_u32(text), None);
    }
    assert_eq!(parse_u32("+007"), Some(7));
}

#[test]
fn texts_are_ordered_by_their_characters() {
    assert!(precedes("", "a"));
    assert!(precedes("a", "ab"));
    assert!(precedes("Z", "a"));
    assert!(precedes("2026-09-30", "2026-10-01"));
    assert!(!precedes("a", "a"));
    assert!(!precedes("b", "abc"));
}

#[test]
fn texts_are_parted_into_lines_and_words() {
    let text = "a\r\n\n b\tc \rd\r";
    assert_eq!(lines(text), text.lines().collect::<Vec<&str>>());
    assert_eq!(words(text), text.split_whitespace().collect::<Vec<&str>>());
    assert_eq!(lines(""), Vec::<String>::new());
    assert_eq!(lines("\n"), vec![""]);
    for c in (0..0x3100u32).filter_map(char::from_u32) {
        assert_eq!(white_space(c), c.is_whitespace());
    }
}

#[test]
fn bytes_that_are_no_text_are_mended() {
    // Bytes that begin, continue and break characters, with line feeds among them.
    let bytes: [u8; 12] =
        [b'\n', b'a', b'\r', 0x80, 0xbf, 0xc3, 0xe2, 0x82, 0xac, 0xf0, 0x9f, 0xff];
    for a in bytes {
        for b in bytes {
            for c in bytes {
                for d in bytes {
                    let text = [a, b, c, d];
                    assert_eq!(decode_lossy(&text), String::from_utf8_lossy(&text));
                }
            }
        }
    }
    assert_eq!(decode_lossy(b""), "");
    assert_eq!(decode_lossy(b"\n\n"), "\n\n");
    assert_eq!(decode_lossy(b"\xbd\n\xe2\x82\xac\xf0\x9f\n"), "\u{fffd}\n\u{20ac}\u{fffd}\n");
}

#[test]
fn names_are_sorted_by_their_characters() {
    assert_eq!(
        sort_names(names(&["v9", "v24", "v22", "", "v24.1", "v24", "\u{fc}", "Z"])),
        names(&["", "Z", "v22", "v24", "v24", "v24.1", "v9", "\u{fc}"])
    );
}

#[test]
fn tool_is_looked_for_with_the_newest_version_first() {
    let places = codex_candidates(Some("/home/me"), names(&["v20.1", "v24.0", "v22.3"]));
    assert_eq!(
        places,
        vec![
            "/home/me/.nvm/versions/node/v24.0/bin/codex",
            "/home/me/.nvm/versions/node/v22.3/bin/codex",
            "/home/me/.nvm/versions/node/v20.1/bin/codex",
            "/home/me/.local/bin/codex",
            "/home/me/.npm-global/bin/codex",
            "/usr/local/bin/codex",
            "/usr/bin/codex",
            "/opt/homebrew/bin/codex",
        ]
    );
    assert_eq!(codex_candidates(None, names(&["v1"])).len(), 3);
    let none = vec![false; 8];
    let mut two = none.clone();
    two[3] = true;
    two[5] = true;
    assert_eq!(find_codex_binary(None, &places, &two), "/home/me/.local/bin/codex");
    assert_eq!(find_codex_binary(None, &places, &none), "codex");
    assert_eq!(find_codex_binary(Some("/x/codex".to_string()), &places, &two), "/x/codex");
}

#[test]
fn newest_version_is_the_one_with_the_greatest_numbers() {
    let places = codex_candidates(Some("/h"), names(&["v9.11.2", "v24.1.0", "v22.19.0"]));
    assert_eq!(places[0], "/h/.nvm/versions/node/v24.1.0/bin/codex");
    assert_eq!(places[1], "/h/.nvm/versions/node/v22.19.0/bin/codex");
    assert_eq!(places[2], "/h/.nvm/versions/node/v9.11.2/bin/codex");
    assert_eq!(
        sort_versions(names(&["v10.0.0", "v9.99.9", "system", "v9.100.0", "v10", "10.0.1"])),
        names(&["system", "v9.99.9", "v9.100.0", "v10", "v10.0.0", "10.0.1"])
    );
    assert!(older("v9.11.2", "v24.1.0"));
    assert!(!older("v24.1.0", "v9.11.2"));
    assert!(older("v1.2", "v1.2.0"));
    // Names of the same numbers are ordered as texts.
    assert!(older("v18.0.0", "v18.0.0-nightly"));
    assert!(older("v018.0.0", "v18.0.0"));
    assert!(!older("v18.0.0", "v18.0.0"));
    // Numbers of any length.
    assert!(older("v99999999999999999999998", "v99999999999999999999999"));
    assert!(older("v99999999999999999999999", "v100000000000000000000000"));
}

/// Runs a search over directories, given by their paths; the others cannot be read.
fn search(session: &str, tree: &[(&str, &[&str])]) -> (Option<String>, Vec<String>) {
    let mut visited = Vec::new();
    let mut step = locate_rollout_file(session);
    loop {
        let stage = match step {
            SearchStep::Finished(found) => {
                let path = found.map(|(day, name)| {
                    assert!(matches!(day, Place::Day(_, _, _)));
                    format!("{}/{}", day.path().join("/"), name)
                });
                return (path, visited);
            },
            SearchStep::List(stage) => stage,
        };
        let path = stage.place.path().join("/");
        let listed = tree.iter().find(|(dir, _)| *dir == path).map(|(_, held)| names(held));
        visited.push(path);
        step = stage.listed(listed);
    }
}

#[test]
fn newest_days_are_searched_first() {
    let tree: &[(&str, &[&str])] = &[
        ("", &["2025", "2026"]),
        ("2025", &["12"]),
        ("2025/12", &["31"]),
        ("2025/12/31", &["rollout-abc.jsonl"]),
        ("2026", &["01", "02"]),
        ("2026/01", &["05", "09"]),
        ("2026/01/09", &["rollout-x.jsonl", "rollout-abc.jsonl", "old-abc.jsonl"]),
        ("2026/01/05", &["rollout-abc.jsonl"]),
        ("2026/02", &["03"]),
    ];
    let (found, visited) = search("abc", tree);
    assert_eq!(found.as_deref(), Some("2026/01/09/rollout-abc.jsonl"));
    // A day that cannot be read is passed over.
    assert_eq!(visited, vec!["", "2026", "2026/02", "2026/02/03", "2026/01", "2026/01/09"]);
    assert_eq!(search("zzz", tree).0, None);
    assert_eq!(search("zzz", tree).1.len(), 10);
    assert_eq!(search("abc", &[]).0, None);
}

#[test]
fn no_later_day_holds_a_log_of_the_session() {
    // The names are ordered as texts, in whatever order they are listed.
    let tree: &[(&str, &[&str])] = &[
        ("", &["2026", "2024", "2025"]),
        ("2026", &["02", "11"]),
        ("2026/11", &["9", "10"]),
        ("2026/11/10", &["rollout-abc.jsonl"]),
        ("2026/11/9", &["rollout-other.jsonl"]),
        ("2026/02", &["28", "01"]),
        ("2026/02/28", &["rollout-abc.jsonl", "rollout-xyz.jsonl"]),
        ("2026/02/01", &["rollout-xyz.jsonl"]),
        ("2025", &["12"]),
        ("2025/12", &["31"]),
        ("2025/12/31", &["rollout-abc.jsonl", "rollout-old.jsonl"]),
        ("2024", &[]),
    ];
    assert_eq!(search("abc", tree).0.as_deref(), Some("2026/11/10/rollout-abc.jsonl"));
    assert_eq!(search("xyz", tree).0.as_deref(), Some("2026/02/28/rollout-xyz.jsonl"));
    assert_eq!(search("old", tree).0.as_deref(), Some("2025/12/31/rollout-old.jsonl"));
    assert_eq!(search("none", tree).0, None);
}

#[test]
fn month_that_cannot_be_read_ends_the_search() {
    let tree: &[(&str, &[&str])] = &[
        ("", &["2026"]),
        ("2026", &["01", "02"]),
        ("2026/01", &["05"]),
        ("2026/01/05", &["rollout-abc.jsonl"]),
    ];
    let (found, visited) = search("abc", tree);
    assert_eq!(found, None);
    assert_eq!(visited, vec!["", "2026", "2026/02"]);
}
