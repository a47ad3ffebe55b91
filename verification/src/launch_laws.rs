//! What a session is told, where its tool is found, and the programs that are run for it.

use crate::accounts::AutoSwitchStrategy;
use crate::commands;
use crate::platform::Platform;
use crate::search;
use crate::settings;
use crate::settings::{AppSettings, GoalFinding};
use crate::terminal;
use crate::terminal::{CommandLine, Launch, Terminal};
use crate::text;
use crate::versions;
use vstd::prelude::*;

verus! {

// ---------------------------------------------------------------------------
// What a session is told
// ---------------------------------------------------------------------------

/// What the user said, without the white space around it; `continue` where nothing is left of it.
pub open spec fn said(phrase: Seq<char>) -> Seq<char> {
    if text::trimmed(phrase).len() > 0 {
        text::trimmed(phrase)
    } else {
        "continue"@
    }
}

/// A session with an id and an unfinished goal is told to resume its goal; every other one is told
/// what the user said.
pub proof fn goal_goes_before_the_phrase(
    session_id: &str,
    phrase: &str,
    goal_active: bool,
    told: String,
    kept: String,
)
    requires
        call_ensures(
            settings::resolve_session_resume_phrase,
            (session_id, phrase, goal_active),
            told,
        ),
        call_ensures(settings::normalize_phrase, (phrase,), kept),
    ensures
        kept@ == said(phrase@),
        goal_active && session_id@.len() > 0 ==> told@ == "/goal resume"@,
        !goal_active || session_id@.len() == 0 ==> told@ == said(phrase@),
{
}

/// A session is launched with the prompt as it is, where there is one; without one, with what it is
/// told to continue. A new session has an empty id.
pub proof fn prompt_goes_before_all(
    session_id: Option<String>,
    prompt: Option<String>,
    phrase: &str,
    goal_active: bool,
    r: (String, String),
)
    requires
        call_ensures(
            settings::launch_codex_session,
            (session_id, prompt, phrase, goal_active),
            r,
        ),
    ensures
        session_id matches Some(id) ==> r.0@ == id@,
        session_id is None ==> r.0@.len() == 0,
        prompt matches Some(words) ==> r.1@ == words@,
        prompt is None && goal_active && r.0@.len() > 0 ==> r.1@ == "/goal resume"@,
        prompt is None && !(goal_active && r.0@.len() > 0) ==> r.1@ == said(phrase@),
{
}

/// A goal of one of the five statuses is unfinished.
pub open spec fn is_unfinished(status: Seq<char>) -> bool {
    ||| status == "active"@
    ||| status == "paused"@
    ||| status == "usage_limited"@
    ||| status == "blocked"@
    ||| status == "budget_limited"@
}

/// What was found in a file tells of an unfinished goal: the file is one of goals, but not the
/// primary one, and the status in it is that of an unfinished goal.
pub open spec fn is_found_unfinished(finding: GoalFinding) -> bool {
    &&& text::starts_with_text(finding.file_name@, "goals_"@)
    &&& text::ends_with_text(finding.file_name@, ".sqlite"@)
    &&& finding.file_name@ != "goals_1.sqlite"@
    &&& finding.status matches Some(status) && is_unfinished(status@)
}

/// A session has an unfinished goal if one of the files of goals says so: the primary one, or one
/// whose name begins with `goals_` and ends with `.sqlite`. The primary one counts once.
pub proof fn any_file_can_tell_of_an_unfinished_goal(
    primary: Option<&str>,
    others: &Vec<GoalFinding>,
    in_primary: bool,
    r: bool,
)
    requires
        call_ensures(settings::is_session_goal_active_in_db, (primary,), in_primary),
        call_ensures(settings::is_session_goal_active, (primary, others), r),
    ensures
        in_primary <==> (primary matches Some(status) && is_unfinished(status@)),
        in_primary ==> r,
        r && !in_primary ==> exists|i: int|
            0 <= i < others@.len() && #[trigger] is_found_unfinished(others@[i]),
        forall|i: int|
            0 <= i < others@.len() && #[trigger] is_found_unfinished(others@[i]) ==> r,
{
    assert forall|i: int| 0 <= i < others@.len() implies #[trigger] is_found_unfinished(others@[i])
        == others@[i].tells_of_unfinished_goal() by {}
    assert(r == (in_primary || settings::any_unfinished(others@)));
    assert forall|i: int|
        0 <= i < others@.len() && #[trigger] is_found_unfinished(others@[i]) implies r by {
        assert(others@[i].tells_of_unfinished_goal());
    }
    if r && !in_primary {
        let i = choose|i: int|
            0 <= i < others@.len() && (#[trigger] others@[i]).tells_of_unfinished_goal();
        assert(is_found_unfinished(others@[i]));
    }
}

/// The settings are kept as they were chosen, but for the phrase, which is kept without the white
/// space around it, and the days of warning, which are at least one.
pub proof fn settings_are_kept_as_chosen(
    before: AppSettings,
    retry: bool,
    attempts: u32,
    delay: u32,
    escalate: bool,
    switch: bool,
    strategy: AutoSwitchStrategy,
    redeem: bool,
    phrase: String,
    days: u32,
    preferred: Option<String>,
    r: AppSettings,
)
    requires
        call_ensures(
            settings::save_auto_recovery_settings,
            (
                before,
                retry,
                attempts,
                delay,
                escalate,
                switch,
                strategy,
                redeem,
                phrase,
                days,
                preferred,
            ),
            r,
        ),
    ensures
        r.auto_retry_capacity_enabled == retry,
        r.auto_retry_capacity_max_attempts == attempts,
        r.auto_retry_capacity_initial_delay_sec == delay,
        r.auto_retry_capacity_escalate_to_switch == escalate,
        r.auto_switch_limit_enabled == switch,
        r.auto_switch_strategy == strategy,
        r.auto_redeem_reset_credits == redeem,
        r.continue_phrase@ == said(phrase@),
        days > 0 ==> r.reset_credit_warning_days == days,
        days == 0 ==> r.reset_credit_warning_days == 1,
        r.preferred_terminal == preferred,
{
}

// ---------------------------------------------------------------------------
// Where the tool is
// ---------------------------------------------------------------------------

/// The tool is where the search path leads; else in the first of the places where there is a file;
/// else it is left to its name.
pub proof fn tool_is_found_in_the_first_place(
    on_path: Option<String>,
    places: &Vec<String>,
    is_file: &Vec<bool>,
    r: String,
    i: int,
)
    requires
        places@.len() == is_file@.len(),
        call_ensures(search::find_codex_binary, (on_path, places, is_file), r),
        0 <= i <= places@.len(),
        forall|j: int| 0 <= j < i ==> !is_file@[j],
        i < places@.len() ==> is_file@[i],
    ensures
        on_path matches Some(path) ==> r@ == path@,
        on_path is None && i < places@.len() ==> r@ == places@[i]@,
        on_path is None && i == places@.len() ==> r@ == "codex"@,
{
    lemma_first_marked(is_file@, 0, i);
}

proof fn lemma_first_marked(marks: Seq<bool>, from: int, i: int)
    requires
        0 <= from <= i <= marks.len(),
        forall|j: int| from <= j < i ==> !marks[j],
        i < marks.len() ==> marks[i],
    ensures
        i < marks.len() ==> search::first_marked(marks, from) == Some(i),
        i == marks.len() ==> search::first_marked(marks, from) is None,
    decreases i - from,
{
    if from < i {
        lemma_first_marked(marks, from + 1, i);
    }
}

/// The path is that of the tool of one of the versions of Node in the home directory.
pub open spec fn is_tool_of_a_version(
    path: Seq<char>,
    home: Seq<char>,
    installed: Seq<Seq<char>>,
) -> bool {
    exists|version: Seq<char>| #[trigger]
        installed.contains(version) && path == home + "/.nvm/versions/node/"@ + version
            + "/bin/codex"@
}

/// The tool is looked for with each version of Node that is installed in the home directory, then
/// in two other places of it, then in three places outside of it.
pub proof fn tool_is_looked_for_in_every_place(
    home: Option<&str>,
    installed: Vec<String>,
    r: Vec<String>,
)
    requires
        call_ensures(search::codex_candidates, (home, installed), r),
    ensures
        ({
            let n = r@.len() as int;
            let count = installed@.len() as int;
            &&& n == if home is Some {
                count + 5
            } else {
                3
            }
            &&& r@[n - 3]@ == "/usr/local/bin/codex"@
            &&& r@[n - 2]@ == "/usr/bin/codex"@
            &&& r@[n - 1]@ == "/opt/homebrew/bin/codex"@
            &&& home matches Some(dir) ==> {
                &&& r@[count]@ == dir@ + "/.local/bin/codex"@
                &&& r@[count + 1]@ == dir@ + "/.npm-global/bin/codex"@
                &&& forall|k: int|
                    0 <= k < count ==> is_tool_of_a_version(
                        (#[trigger] r@[k])@,
                        dir@,
                        text::texts(installed@),
                    )
            }
        }),
{
    let names = text::texts(installed@);
    let all = text::texts(r@);
    assert(all.len() == r@.len());
    assert(forall|k: int| 0 <= k < r@.len() ==> #[trigger] all[k] == r@[k]@);
    if let Some(dir) = home {
        let sorted = search::oldest_version_first(names);
        lemma_sorted(names);
        lemma_nodes(dir@, sorted);
        let count = installed@.len() as int;
        let nodes = search::node_candidates(dir@, sorted);
        assert(nodes.len() == count);
        assert(all == search::home_candidates(dir@, names) + search::system_candidates());
        assert(all[count] == dir@ + "/.local/bin/codex"@);
        assert(all[count + 1] == dir@ + "/.npm-global/bin/codex"@);
        assert(all[count + 2] == "/usr/local/bin/codex"@);
        assert(all[count + 3] == "/usr/bin/codex"@);
        assert(all[count + 4] == "/opt/homebrew/bin/codex"@);
        assert forall|k: int| 0 <= k < count implies is_tool_of_a_version(
            (#[trigger] r@[k])@,
            dir@,
            names,
        ) by {
            assert(all[k] == nodes[k]);
            let name = sorted[count - 1 - k];
            assert(sorted.contains(name));
            assert(names.contains(name));
        }
    } else {
        assert(all == search::system_candidates());
        assert(all[0] == "/usr/local/bin/codex"@);
        assert(all[1] == "/usr/bin/codex"@);
        assert(all[2] == "/opt/homebrew/bin/codex"@);
    }
}

/// The tool of a newer version of Node is looked for before that of an older one.
pub proof fn tool_of_the_newest_version_is_looked_for_first(
    home: &str,
    installed: Vec<String>,
    r: Vec<String>,
    a: &str,
    b: &str,
    a_is_older: bool,
)
    requires
        call_ensures(search::codex_candidates, (Some(home), installed), r),
        call_ensures(versions::older, (a, b), a_is_older),
        a_is_older,
        text::texts(installed@).contains(a@),
        text::texts(installed@).contains(b@),
    ensures
        exists|i: int, j: int|
            0 <= i < j < installed@.len() && (#[trigger] r@[i])@ == home@
                + "/.nvm/versions/node/"@ + b@ + "/bin/codex"@ && (#[trigger] r@[j])@ == home@
                + "/.nvm/versions/node/"@ + a@ + "/bin/codex"@,
{
    let names = text::texts(installed@);
    let all = text::texts(r@);
    let places = search::home_candidates(home@, names);
    assert(all.len() == r@.len());
    assert(forall|k: int| 0 <= k < r@.len() ==> #[trigger] all[k] == r@[k]@);
    lemma_sorted(names);
    lemma_nodes(home@, search::oldest_version_first(names));
    search::newest_node_goes_first(home@, names, a@, b@);
    let (i, j) = choose|i: int, j: int|
        0 <= i < j < names.len() && #[trigger] places[i] == search::node_path(home@, b@)
            && #[trigger] places[j] == search::node_path(home@, a@);
    assert(all == places + search::system_candidates());
    assert(all[i] == places[i] && all[j] == places[j]);
    assert(r@[i]@ == all[i] && r@[j]@ == all[j]);
}

proof fn lemma_sorted(names: Seq<Seq<char>>)
    ensures
        search::oldest_version_first(names).len() == names.len(),
        forall|name: Seq<char>| #[trigger]
            search::oldest_version_first(names).contains(name) ==> names.contains(name),
{
    search::oldest_versions_come_first(names);
}

proof fn lemma_nodes(home: Seq<char>, versions: Seq<Seq<char>>)
    ensures
        search::node_candidates(home, versions).len() == versions.len(),
        forall|k: int|
            0 <= k < versions.len() ==> #[trigger] search::node_candidates(home, versions)[k]
                == home + "/.nvm/versions/node/"@ + versions[versions.len() - 1 - k]
                + "/bin/codex"@,
    decreases versions.len(),
{
    if versions.len() > 0 {
        lemma_nodes(home, versions.drop_last());
    }
}

// ---------------------------------------------------------------------------
// Programs
// ---------------------------------------------------------------------------

/// A command line is this program with these arguments, in this directory.
pub open spec fn runs(
    command: CommandLine,
    program: Seq<char>,
    args: Seq<Seq<char>>,
    dir: Option<Seq<char>>,
) -> bool {
    &&& command.program@ == program
    &&& text::texts(command.args@) == args
    &&& text::opt_text(command.dir) == dir
}

/// A phrase is queued for the session of an id by the tool.
pub proof fn phrase_is_queued_by_the_tool(
    codex_bin: &str,
    session_id: &str,
    phrase: &str,
    r: CommandLine,
)
    requires
        call_ensures(terminal::send_codex_queue_resume, (codex_bin, session_id, phrase), r),
    ensures
        runs(
            r,
            codex_bin@,
            seq!["queue"@, "--thread"@, session_id@, "--message"@, phrase@],
            None,
        ),
{
    assert(r@.args == text::texts(r.args@));
}

/// A process is ended by its id: on Windows at once, elsewhere it is asked to end and then made to.
/// Nothing is run for the id zero.
pub proof fn process_is_ended_by_its_id(pid: u32, platform: Platform, r: Vec<CommandLine>)
    requires
        call_ensures(terminal::terminate_process, (pid, platform), r),
    ensures
        pid == 0 ==> r@.len() == 0,
        pid > 0 && platform == Platform::Windows ==> r@.len() == 1 && runs(
            r@[0],
            "taskkill"@,
            seq!["/PID"@, text::decimal_of(pid as nat), "/F"@],
            None,
        ),
        pid > 0 && platform != Platform::Windows ==> r@.len() == 2 && runs(
            r@[0],
            "kill"@,
            seq!["-TERM"@, text::decimal_of(pid as nat)],
            None,
        ) && runs(r@[1], "kill"@, seq!["-KILL"@, text::decimal_of(pid as nat)], None),
{
    let views = terminal::command_views(r@);
    assert(views.len() == r@.len());
    if r@.len() > 0 {
        assert(views[0] == r@[0]@);
    }
    if r@.len() > 1 {
        assert(views[1] == r@[1]@);
    }
}

/// A notice is shown on Linux and on macOS, with its title and its text.
pub proof fn notice_is_shown(
    title: &str,
    body: &str,
    platform: Platform,
    r: Option<CommandLine>,
)
    requires
        call_ensures(terminal::send_desktop_notification, (title, body, platform), r),
    ensures
        r is Some <==> platform == Platform::Linux || platform == Platform::MacOs,
        platform == Platform::Linux ==> runs(
            r->0,
            "notify-send"@,
            seq!["-a"@, "Codex Switcher"@, "-i"@, "dialog-information"@, title@, body@],
            None,
        ),
        platform == Platform::MacOs ==> runs(
            r->0,
            "osascript"@,
            seq![
                "-e"@,
                "display notification \""@ + text::replaced(body@, '"', "\\\""@)
                    + "\" with title \""@ + text::replaced(title@, '"', "\\\""@) + "\""@,
            ],
            None,
        ),
{
    if let Some(command) = r {
        assert(terminal::opt_command(r) == Some(command@));
    }
}

/// The file by which a session is told to start anew bears its id, and terminals are looked for in
/// turn, that of the user first.
pub proof fn restart_file_and_terminals(
    session_id: &str,
    preferred: Option<&str>,
    file: String,
    list: Vec<String>,
)
    requires
        call_ensures(terminal::restart_file_name, (session_id,), file),
        call_ensures(terminal::terminal_candidates, (preferred,), list),
    ensures
        file@ == "codex-switcher-restart-"@ + session_id@,
        ({
            let common = seq![
                "ghostty"@,
                "alacritty"@,
                "kitty"@,
                "gnome-terminal"@,
                "x-terminal-emulator"@,
            ];
            text::texts(list@) == match preferred {
                Some(name) => seq![name@] + common,
                None => common,
            }
        }),
{
    let common = seq![
        "ghostty"@,
        "alacritty"@,
        "kitty"@,
        "gnome-terminal"@,
        "x-terminal-emulator"@,
    ];
    assert(Seq::<Seq<char>>::empty() + common =~= common);
}

/// The directory that a session is launched in: its own, else that of the user, else the current
/// one.
pub open spec fn opened_in(launch: Launch) -> Seq<char> {
    match (launch.cwd, launch.home) {
        (Some(dir), _) => dir@,
        (None, Some(dir)) => dir@,
        (None, None) => "."@,
    }
}

/// On Linux, the terminal that was found runs the session by the script, which is handed the tool,
/// the session, the phrase, the restart file and the directory of the session. The terminal is told
/// the directory in its own way, or opened in it.
pub proof fn terminal_runs_the_session(
    launch: &Launch,
    found: Terminal,
    r: Option<CommandLine>,
    none: Option<CommandLine>,
)
    requires
        call_ensures(
            terminal::launch_session_in_terminal,
            (launch, Platform::Linux, Some(found)),
            r,
        ),
        call_ensures(
            terminal::launch_session_in_terminal,
            (launch, Platform::Linux, None::<Terminal>),
            none,
        ),
    ensures
        none is None,
        r matches Some(command) && {
            let dir = opened_in(*launch);
            let runner = seq![
                "sh"@,
                "-c"@,
                terminal::RUNNER_SCRIPT@,
                "sh"@,
                launch.codex_bin@,
                launch.session_id@,
                launch.phrase@,
                launch.restart_file@,
                match launch.cwd {
                    Some(own) => own@,
                    None => Seq::empty(),
                },
            ];
            let ghostty = text::contains_text(found.name@, "ghostty"@);
            let kitty = text::contains_text(found.name@, "kitty"@);
            let alacritty = text::contains_text(found.name@, "alacritty"@);
            let gnome = text::contains_text(found.name@, "gnome-terminal"@);
            if ghostty {
                runs(
                    command,
                    found.path@,
                    seq!["--working-directory="@ + dir, "-e"@] + runner,
                    None,
                )
            } else if kitty {
                runs(command, found.path@, seq!["--directory"@, dir] + runner, None)
            } else if alacritty {
                runs(
                    command,
                    found.path@,
                    seq!["--working-directory"@, dir, "-e"@] + runner,
                    None,
                )
            } else if gnome {
                runs(
                    command,
                    found.path@,
                    seq!["--working-directory="@ + dir, "--"@] + runner,
                    None,
                )
            } else {
                runs(command, found.path@, seq!["-e"@] + runner, Some(dir))
            }
        },
{
    if let Some(command) = r {
        assert(terminal::opt_command(r) == Some(command@));
    }
}

/// On macOS and on Windows the terminal of the system is opened by a program, which is handed a
/// command in which each word is quoted. Elsewhere none is.
pub proof fn terminal_of_the_system_is_opened(
    launch: &Launch,
    terminal: Option<Terminal>,
    platform: Platform,
    r: Option<CommandLine>,
)
    requires
        call_ensures(terminal::launch_session_in_terminal, (launch, platform, terminal), r),
    ensures
        platform == Platform::Unix ==> r is None,
        platform == Platform::MacOs ==> (r matches Some(command) && {
            let restart = commands::shell_quoted(launch.restart_file@);
            runs(
                command,
                "osascript"@,
                seq![
                    "-e"@,
                    "on run argv\n  tell application \"Terminal\" to do script (item 1 of argv)\nend run"@,
                    "--"@,
                    "cd "@ + commands::shell_quoted(opened_in(*launch)) + " && while true; do "@
                        + commands::shell_quoted(launch.codex_bin@) + " resume "@
                        + commands::shell_quoted(launch.session_id@) + " "@
                        + commands::shell_quoted(launch.phrase@) + "; if [ -f "@ + restart
                        + " ]; then rm -f "@ + restart
                        + "; sleep 1; continue; fi; break; done; exit"@,
                ],
                None,
            )
        }),
        platform == Platform::Windows ==> (r matches Some(command) && runs(
            command,
            "cmd.exe"@,
            seq![
                "/c"@,
                "start"@,
                "cmd.exe"@,
                "/k"@,
                commands::shell_quoted(launch.codex_bin@) + " resume "@ + commands::shell_quoted(
                    launch.session_id@,
                ) + " "@ + commands::shell_quoted(launch.phrase@),
            ],
            Some(opened_in(*launch)),
        )),
{
    if let Some(command) = r {
        assert(terminal::opt_command(r) == Some(command@));
    }
}

/// The window of a process is the first word of the first line of a listing whose third word is the
/// id of the process.
pub proof fn window_is_found_by_its_process(
    listing: &[u8],
    pid: u32,
    r: Option<String>,
    last: Option<String>,
    i: int,
)
    requires
        call_ensures(terminal::window_of_process, (listing, pid), r),
        call_ensures(terminal::last_window, (listing,), last),
        ({
            let lines = text::lines_of(text::lossy_text(listing@));
            &&& 0 <= i <= lines.len()
            &&& forall|j: int| 0 <= j < i ==> !is_window_of(#[trigger] lines[j], pid)
            &&& i < lines.len() ==> is_window_of(lines[i], pid)
        }),
    ensures
        ({
            let lines = text::lines_of(text::lossy_text(listing@));
            &&& i == lines.len() ==> r is None
            &&& i < lines.len() ==> (r matches Some(window) && window@ == text::words_of(
                lines[i],
            )[0])
            &&& last is Some <==> lines.len() > 0 && text::trimmed(lines[lines.len() - 1]).len()
                > 0
            &&& last matches Some(window) ==> window@ == text::trimmed(lines[lines.len() - 1])
        }),
{
    lemma_window(text::lines_of(text::lossy_text(listing@)), pid, 0, i);
}

/// The third word of the line is the id of the process.
pub open spec fn is_window_of(line: Seq<char>, pid: u32) -> bool {
    text::words_of(line).len() >= 3 && text::words_of(line)[2] == text::decimal_of(pid as nat)
}

proof fn lemma_window(lines: Seq<Seq<char>>, pid: u32, from: int, i: int)
    requires
        0 <= from <= i <= lines.len(),
        forall|j: int| from <= j < i ==> !is_window_of(#[trigger] lines[j], pid),
        i < lines.len() ==> is_window_of(lines[i], pid),
    ensures
        i == lines.len() ==> terminal::window_in(lines, pid, from) is None,
        i < lines.len() ==> terminal::window_in(lines, pid, from) == Some(
            text::words_of(lines[i])[0],
        ),
    decreases i - from,
{
    if from < i {
        assert(!is_window_of(lines[from], pid));
        lemma_window(lines, pid, from + 1, i);
    }
}

/// A phrase that could not be queued is reported with what the tool wrote about it; what was
/// launched is kept an eye on only on Linux, where it is the terminal itself; and a file is one of
/// another generation of goals by its name.
pub proof fn programs_are_reported_on(
    stderr: &[u8],
    failure: String,
    platform: Platform,
    is_terminal: bool,
    file_name: &str,
    of_goals: bool,
)
    requires
        call_ensures(terminal::queue_failure, (stderr,), failure),
        call_ensures(terminal::is_terminal_process, (platform,), is_terminal),
        call_ensures(settings::other_goal_database, (file_name,), of_goals),
    ensures
        failure@ == "codex queue failed: "@ + text::lossy_text(stderr@),
        is_terminal <==> platform == Platform::Linux,
        of_goals <==> text::starts_with_text(file_name@, "goals_"@) && text::ends_with_text(
            file_name@,
            ".sqlite"@,
        ) && file_name@ != "goals_1.sqlite"@,
{
}

/// The script of a terminal resumes the session, in its directory where that is there. As long as
/// there is a restart file when the session ends, it takes the phrase out of it, removes it, and
/// resumes the session again. The process of a session has 300 milliseconds to end.
pub proof fn script_goes_on_while_there_is_a_restart_file()
    ensures
        terminal::RUNNER_SCRIPT@ == "
CODEX_BIN=\"$1\"
SESSION_ID=\"$2\"
CURRENT_PHRASE=\"$3\"
RESTART_FILE=\"$4\"
SESSION_CWD=\"$5\"

while true; do
    if [ -n \"$SESSION_CWD\" ] && [ -d \"$SESSION_CWD\" ]; then
        \"$CODEX_BIN\" resume -C \"$SESSION_CWD\" \"$SESSION_ID\" \"$CURRENT_PHRASE\"
    else
        \"$CODEX_BIN\" resume \"$SESSION_ID\" \"$CURRENT_PHRASE\"
    fi
    if [ -f \"$RESTART_FILE\" ]; then
        if [ -s \"$RESTART_FILE\" ]; then
            CURRENT_PHRASE=$(cat \"$RESTART_FILE\" 2>/dev/null)
        else
            CURRENT_PHRASE=\"continue\"
        fi
        rm -f \"$RESTART_FILE\"
        printf \"\\n\\033[1;36m========================================================\\033[0m\\n\"
        printf \"\\033[1;32m [Codex Switcher] Account switched. Resuming in-place...\\033[0m\\n\"
        printf \"\\033[1;36m========================================================\\033[0m\\n\\n\"
        sleep 1
        continue
    fi
    break
done
exec $SHELL
"@,
        terminal::GRACE_MILLIS == 300,
{
}

} // verus!
