//! The programs that are run: terminals with sessions in them, and what ends, announces and raises
//! them.

use crate::commands;
use crate::json;
use crate::platform::Platform;
use crate::text;
use vstd::prelude::*;

verus! {

/// A program that is run, and in which directory, where that matters.
#[derive(Debug)]
pub struct CommandLine {
    pub program: String,
    pub args: Vec<String>,
    pub dir: Option<String>,
}

/// What a `CommandLine` says.
#[verifier::ext_equal]
pub struct CommandView {
    pub program: Seq<char>,
    pub args: Seq<Seq<char>>,
    pub dir: Option<Seq<char>>,
}

impl View for CommandLine {
    type V = CommandView;

    open spec fn view(&self) -> CommandView {
        CommandView {
            program: self.program@,
            args: text::texts(self.args@),
            dir: text::opt_text(self.dir),
        }
    }
}

/// What an optional command line says.
pub open spec fn opt_command(command: Option<CommandLine>) -> Option<CommandView> {
    match command {
        Some(c) => Some(c@),
        None => None,
    }
}

/// Appends a copy of a text.
fn put(args: &mut Vec<String>, arg: &str)
    ensures
        text::texts(final(args)@) == text::texts(old(args)@).push(arg@),
{
    args.push(arg.to_owned());
    assert(text::texts(args@) =~= text::texts(old(args)@).push(arg@));
}

/// No arguments.
fn no_args() -> (r: Vec<String>)
    ensures
        text::texts(r@) == Seq::<Seq<char>>::empty(),
{
    let r: Vec<String> = Vec::new();
    assert(text::texts(r@) =~= Seq::<Seq<char>>::empty());
    r
}

// ---------------------------------------------------------------------------
// Queueing, ending, announcing
// ---------------------------------------------------------------------------

/// The command that queues a phrase for a running session.
pub open spec fn queue_command(
    codex_bin: Seq<char>,
    session_id: Seq<char>,
    phrase: Seq<char>,
) -> CommandView {
    CommandView {
        program: codex_bin,
        args: seq!["queue"@, "--thread"@, session_id, "--message"@, phrase],
        dir: None,
    }
}

/// The command that queues a phrase for a running session.
pub fn send_codex_queue_resume(codex_bin: &str, session_id: &str, phrase: &str) -> (r: CommandLine)
    ensures
        r@ == queue_command(codex_bin@, session_id@, phrase@),
{
    let mut args = no_args();
    put(&mut args, "queue");
    put(&mut args, "--thread");
    put(&mut args, session_id);
    put(&mut args, "--message");
    put(&mut args, phrase);
    assert(text::texts(args@) =~= seq![
        "queue"@,
        "--thread"@,
        session_id@,
        "--message"@,
        phrase@,
    ]);
    CommandLine { program: codex_bin.to_owned(), args, dir: None }
}

/// What is said of a phrase that could not be queued, with what the tool wrote about it.
pub fn queue_failure(stderr: &[u8]) -> (r: String)
    ensures
        r@ == "codex queue failed: "@ + text::lossy_text(stderr@),
{
    let mut r = "codex queue failed: ".to_owned();
    r.append(text::decode_lossy(stderr).as_str());
    r
}

/// The milliseconds between the two commands that end a process.
pub const GRACE_MILLIS: u64 = 300;

/// The command that sends a signal to a process.
pub open spec fn kill_command(signal: Seq<char>, pid: u32) -> CommandView {
    CommandView {
        program: "kill"@,
        args: seq![signal, text::decimal_of(pid as nat)],
        dir: None,
    }
}

/// The commands that end a process, in turn: it is asked to end, then made to. No process has the
/// id zero.
pub open spec fn termination_of(pid: u32, platform: Platform) -> Seq<CommandView> {
    if pid == 0 {
        Seq::empty()
    } else if platform == Platform::Windows {
        seq![
            CommandView {
                program: "taskkill"@,
                args: seq!["/PID"@, text::decimal_of(pid as nat), "/F"@],
                dir: None,
            },
        ]
    } else {
        seq![kill_command("-TERM"@, pid), kill_command("-KILL"@, pid)]
    }
}

/// What the commands say.
pub open spec fn command_views(list: Seq<CommandLine>) -> Seq<CommandView> {
    list.map_values(|c: CommandLine| c@)
}

/// The command that sends a signal to a process.
fn kill_line(signal: &str, pid: u32) -> (r: CommandLine)
    ensures
        r@ == kill_command(signal@, pid),
{
    let mut args = no_args();
    put(&mut args, signal);
    put(&mut args, text::decimal(pid as u64).as_str());
    assert(text::texts(args@) =~= seq![signal@, text::decimal_of(pid as nat)]);
    CommandLine { program: "kill".to_owned(), args, dir: None }
}

/// The commands that end a process, in turn, with a while between them.
pub fn terminate_process(pid: u32, platform: Platform) -> (r: Vec<CommandLine>)
    ensures
        command_views(r@) == termination_of(pid, platform),
{
    let mut r: Vec<CommandLine> = Vec::new();
    if pid == 0 {
        assert(command_views(r@) =~= Seq::empty());
        return r;
    }
    if platform == Platform::Windows {
        let mut args = no_args();
        put(&mut args, "/PID");
        put(&mut args, text::decimal(pid as u64).as_str());
        put(&mut args, "/F");
        assert(text::texts(args@) =~= seq!["/PID"@, text::decimal_of(pid as nat), "/F"@]);
        r.push(CommandLine { program: "taskkill".to_owned(), args, dir: None });
        assert(command_views(r@) =~= termination_of(pid, platform));
        return r;
    }
    r.push(kill_line("-TERM", pid));
    r.push(kill_line("-KILL", pid));
    assert(command_views(r@) =~= termination_of(pid, platform));
    r
}

/// The command that shows a notice to the user, where the platform has one.
pub open spec fn notice_command(
    title: Seq<char>,
    body: Seq<char>,
    platform: Platform,
) -> Option<CommandView> {
    match platform {
        Platform::Linux => Some(
            CommandView {
                program: "notify-send"@,
                args: seq![
                    "-a"@,
                    "Codex Switcher"@,
                    "-i"@,
                    "dialog-information"@,
                    title,
                    body,
                ],
                dir: None,
            },
        ),
        Platform::MacOs => Some(
            CommandView {
                program: "osascript"@,
                args: seq![
                    "-e"@,
                    "display notification \""@ + text::replaced(body, '"', "\\\""@)
                        + "\" with title \""@ + text::replaced(title, '"', "\\\""@) + "\""@,
                ],
                dir: None,
            },
        ),
        _ => None,
    }
}

/// The command that shows a notice to the user, where the platform has one.
pub fn send_desktop_notification(title: &str, body: &str, platform: Platform) -> (r: Option<
    CommandLine,
>)
    ensures
        opt_command(r) == notice_command(title@, body@, platform),
{
    match platform {
        Platform::Linux => {
            let mut args = no_args();
            put(&mut args, "-a");
            put(&mut args, "Codex Switcher");
            put(&mut args, "-i");
            put(&mut args, "dialog-information");
            put(&mut args, title);
            put(&mut args, body);
            assert(text::texts(args@) =~= seq![
                "-a"@,
                "Codex Switcher"@,
                "-i"@,
                "dialog-information"@,
                title@,
                body@,
            ]);
            Some(CommandLine { program: "notify-send".to_owned(), args, dir: None })
        },
        Platform::MacOs => {
            let mut script = "display notification \"".to_owned();
            script.append(text::replace_char(body, '"', "\\\"").as_str());
            script.append("\" with title \"");
            script.append(text::replace_char(title, '"', "\\\"").as_str());
            script.append("\"");
            let mut args = no_args();
            put(&mut args, "-e");
            put(&mut args, script.as_str());
            assert(text::texts(args@) =~= seq!["-e"@, script@]);
            Some(CommandLine { program: "osascript".to_owned(), args, dir: None })
        },
        _ => None,
    }
}

// ---------------------------------------------------------------------------
// Launching a session in a terminal
// ---------------------------------------------------------------------------

/// The name of the file by which a session that runs in a terminal is told to start anew.
pub open spec fn restart_name(session_id: Seq<char>) -> Seq<char> {
    "codex-switcher-restart-"@ + session_id
}

/// The name of the file by which a session that runs in a terminal is told to start anew.
pub fn restart_file_name(session_id: &str) -> (r: String)
    ensures
        r@ == restart_name(session_id@),
{
    let mut r = "codex-switcher-restart-".to_owned();
    r.append(session_id);
    r
}

/// The terminals that are looked for, in turn.
pub open spec fn terminals(preferred: Option<Seq<char>>) -> Seq<Seq<char>> {
    (match preferred {
        Some(name) => seq![name],
        None => Seq::empty(),
    }) + seq![
        "ghostty"@,
        "alacritty"@,
        "kitty"@,
        "gnome-terminal"@,
        "x-terminal-emulator"@,
    ]
}

/// The terminals that are looked for, in turn.
pub fn terminal_candidates(preferred: Option<&str>) -> (r: Vec<String>)
    ensures
        text::texts(r@) == terminals(json::opt_str(preferred)),
{
    let mut r = no_args();
    if let Some(name) = preferred {
        put(&mut r, name);
    }
    put(&mut r, "ghostty");
    put(&mut r, "alacritty");
    put(&mut r, "kitty");
    put(&mut r, "gnome-terminal");
    put(&mut r, "x-terminal-emulator");
    assert(text::texts(r@) =~= terminals(json::opt_str(preferred)));
    r
}

/// The script that runs a session in a terminal of Linux: it resumes the session, and again with
/// the phrase in the restart file as long as one is found when the session ends.
pub const RUNNER_SCRIPT: &'static str = "
CODEX_BIN=\"$1\"
SESSION_ID=\"$2\"
CURRENT_PHRASE=\"$3\"
RESTART_FILE=\"$4\"
SESSION_CWD=\"$5\"

while true; do
    if [ -n \"$SESSION_CWD\" ] && [ -d \"$SESSION_CWD\" ]; then
        \"$CODEX_BIN\" resume -C \"$SESSION_CWD\" \"$SESSION_ID\" \"$CURRENT_PHRASE\"
    else
        \"$CODEX_BIN\" resume \"$SESSION_ID\" \"$CURRENT_PHRASE\"
    fi
    if [ -f \"$RESTART_FILE\" ]; then
        if [ -s \"$RESTART_FILE\" ]; then
            CURRENT_PHRASE=$(cat \"$RESTART_FILE\" 2>/dev/null)
        else
            CURRENT_PHRASE=\"continue\"
        fi
        rm -f \"$RESTART_FILE\"
        printf \"\\n\\033[1;36m========================================================\\033[0m\\n\"
        printf \"\\033[1;32m [Codex Switcher] Account switched. Resuming in-place...\\033[0m\\n\"
        printf \"\\033[1;36m========================================================\\033[0m\\n\\n\"
        sleep 1
        continue
    fi
    break
done
exec $SHELL
";

/// The script that hands a command to the terminal of macOS as it is.
pub const TERMINAL_SCRIPT: &'static str =
    "on run argv\n  tell application \"Terminal\" to do script (item 1 of argv)\nend run";

/// A session that is launched.
pub struct Launch {
    pub session_id: String,
    pub phrase: String,
    /// The directory of the session, where it is known.
    pub cwd: Option<String>,
    pub home: Option<String>,
    pub codex_bin: String,
    /// The path of the restart file.
    pub restart_file: String,
}

/// A terminal that was found: its path and its name.
pub struct Terminal {
    pub path: String,
    pub name: String,
}

impl Launch {
    /// The directory that the terminal is opened in.
    pub open spec fn directory(self) -> Seq<char> {
        match self.cwd {
            Some(dir) => dir@,
            None => match self.home {
                Some(dir) => dir@,
                None => "."@,
            },
        }
    }

    /// The arguments by which a terminal of Linux runs the session.
    pub open spec fn runner(self) -> Seq<Seq<char>> {
        seq![
            "sh"@,
            "-c"@,
            RUNNER_SCRIPT@,
            "sh"@,
            self.codex_bin@,
            self.session_id@,
            self.phrase@,
            self.restart_file@,
            match self.cwd {
                Some(dir) => dir@,
                None => Seq::empty(),
            },
        ]
    }

    /// The arguments before those, and whether the terminal is told the directory by them.
    pub open spec fn options(self, terminal: Seq<char>) -> (Seq<Seq<char>>, bool) {
        let dir = self.directory();
        if text::contains_text(terminal, "ghostty"@) {
            (seq!["--working-directory="@ + dir, "-e"@], true)
        } else if text::contains_text(terminal, "kitty"@) {
            (seq!["--directory"@, dir], true)
        } else if text::contains_text(terminal, "alacritty"@) {
            (seq!["--working-directory"@, dir, "-e"@], true)
        } else if text::contains_text(terminal, "gnome-terminal"@) {
            (seq!["--working-directory="@ + dir, "--"@], true)
        } else {
            (seq!["-e"@], false)
        }
    }

    /// The command line of Windows that resumes the session.
    pub open spec fn windows_command(self) -> Seq<char> {
        commands::shell_quoted(self.codex_bin@) + " resume "@ + commands::shell_quoted(
            self.session_id@,
        ) + " "@ + commands::shell_quoted(self.phrase@)
    }

    /// The program that shows the session in a terminal, where there is one. On Linux that is the
    /// terminal that was found.
    pub open spec fn plan(self, platform: Platform, terminal: Option<Terminal>) -> Option<
        CommandView,
    > {
        match platform {
            Platform::Linux => match terminal {
                Some(found) => Some(
                    CommandView {
                        program: found.path@,
                        args: self.options(found.name@).0 + self.runner(),
                        dir: if self.options(found.name@).1 {
                            None
                        } else {
                            Some(self.directory())
                        },
                    },
                ),
                None => None,
            },
            Platform::MacOs => Some(
                CommandView {
                    program: "osascript"@,
                    args: seq![
                        "-e"@,
                        TERMINAL_SCRIPT@,
                        "--"@,
                        commands::resume_command(
                            self.codex_bin@,
                            self.directory(),
                            self.session_id@,
                            self.phrase@,
                            self.restart_file@,
                        ),
                    ],
                    dir: None,
                },
            ),
            Platform::Windows => Some(
                CommandView {
                    program: "cmd.exe"@,
                    args: seq![
                        "/c"@,
                        "start"@,
                        "cmd.exe"@,
                        "/k"@,
                        self.windows_command(),
                    ],
                    dir: Some(self.directory()),
                },
            ),
            Platform::Unix => None,
        }
    }

    /// The directory that the terminal is opened in.
    fn find_directory(&self) -> (r: String)
        ensures
            r@ == self.directory(),
    {
        match &self.cwd {
            Some(dir) => dir.clone(),
            None => match &self.home {
                Some(dir) => dir.clone(),
                None => ".".to_owned(),
            },
        }
    }

    /// Appends the arguments by which a terminal of Linux runs the session.
    fn put_runner(&self, args: &mut Vec<String>)
        ensures
            text::texts(final(args)@) == text::texts(old(args)@) + self.runner(),
    {
        put(args, "sh");
        put(args, "-c");
        put(args, RUNNER_SCRIPT);
        put(args, "sh");
        put(args, self.codex_bin.as_str());
        put(args, self.session_id.as_str());
        put(args, self.phrase.as_str());
        put(args, self.restart_file.as_str());
        match &self.cwd {
            Some(dir) => put(args, dir.as_str()),
            None => {
                let nothing = String::new();
                put(args, nothing.as_str());
            },
        }
        assert(text::texts(args@) =~= text::texts(old(args)@) + self.runner());
    }

    /// The arguments before those.
    fn write_options(&self, terminal: &str) -> (r: (Vec<String>, bool))
        ensures
            (text::texts(r.0@), r.1) == self.options(terminal@),
    {
        let dir = self.find_directory();
        let chars = text::chars_of(terminal);
        let mut args = no_args();
        let mut assigned = "--working-directory=".to_owned();
        assigned.append(dir.as_str());
        if text::has_text(&chars, "ghostty") {
            put(&mut args, assigned.as_str());
            put(&mut args, "-e");
            assert(text::texts(args@) =~= seq![assigned@, "-e"@]);
            (args, true)
        } else if text::has_text(&chars, "kitty") {
            put(&mut args, "--directory");
            put(&mut args, dir.as_str());
            assert(text::texts(args@) =~= seq!["--directory"@, dir@]);
            (args, true)
        } else if text::has_text(&chars, "alacritty") {
            put(&mut args, "--working-directory");
            put(&mut args, dir.as_str());
            put(&mut args, "-e");
            assert(text::texts(args@) =~= seq!["--working-directory"@, dir@, "-e"@]);
            (args, true)
        } else if text::has_text(&chars, "gnome-terminal") {
            put(&mut args, assigned.as_str());
            put(&mut args, "--");
            assert(text::texts(args@) =~= seq![assigned@, "--"@]);
            (args, true)
        } else {
            put(&mut args, "-e");
            assert(text::texts(args@) =~= seq!["-e"@]);
            (args, false)
        }
    }
}

/// The program that shows a session in a terminal, where there is one.
pub fn launch_session_in_terminal(
    launch: &Launch,
    platform: Platform,
    terminal: Option<Terminal>,
) -> (r: Option<CommandLine>)
    ensures
        opt_command(r) == launch.plan(platform, terminal),
{
    match platform {
        Platform::Linux => match terminal {
            Some(found) => {
                let (mut args, told) = launch.write_options(found.name.as_str());
                launch.put_runner(&mut args);
                let dir = if told {
                    None
                } else {
                    Some(launch.find_directory())
                };
                Some(CommandLine { program: found.path, args, dir })
            },
            None => None,
        },
        Platform::MacOs => {
            let command = commands::macos_resume_command(
                launch.codex_bin.as_str(),
                launch.find_directory().as_str(),
                launch.session_id.as_str(),
                launch.phrase.as_str(),
                launch.restart_file.as_str(),
            );
            let mut args = no_args();
            put(&mut args, "-e");
            put(&mut args, TERMINAL_SCRIPT);
            put(&mut args, "--");
            put(&mut args, command.as_str());
            assert(text::texts(args@) =~= seq!["-e"@, TERMINAL_SCRIPT@, "--"@, command@]);
            Some(CommandLine { program: "osascript".to_owned(), args, dir: None })
        },
        Platform::Windows => {
            let mut command = commands::escape_shell_arg(launch.codex_bin.as_str());
            command.append(" resume ");
            command.append(commands::escape_shell_arg(launch.session_id.as_str()).as_str());
            command.append(" ");
            command.append(commands::escape_shell_arg(launch.phrase.as_str()).as_str());
            let mut args = no_args();
            put(&mut args, "/c");
            put(&mut args, "start");
            put(&mut args, "cmd.exe");
            put(&mut args, "/k");
            put(&mut args, command.as_str());
            assert(text::texts(args@) =~= seq![
                "/c"@,
                "start"@,
                "cmd.exe"@,
                "/k"@,
                command@,
            ]);
            let dir = Some(launch.find_directory());
            Some(CommandLine { program: "cmd.exe".to_owned(), args, dir })
        },
        Platform::Unix => None,
    }
}

/// Whether a program that was launched is one to keep an eye on: on other systems than Linux it
/// is not that of the terminal, but one that opens it.
pub fn is_terminal_process(platform: Platform) -> (r: bool)
    ensures
        r == (platform == Platform::Linux),
{
    platform == Platform::Linux
}

/// Whatever the terminal of Linux, the session, the phrase, the tool and the restart file are
/// handed over as they are, each as an argument of its own.
pub proof fn launch_hands_over_the_session(launch: Launch, terminal: Terminal)
    ensures
        ({
            let args = launch.plan(Platform::Linux, Some(terminal))->0.args;
            &&& args.contains(launch.session_id@)
            &&& args.contains(launch.phrase@)
            &&& args.contains(launch.codex_bin@)
            &&& args.contains(launch.restart_file@)
        }),
{
    let options = launch.options(terminal.name@).0;
    let args = launch.plan(Platform::Linux, Some(terminal))->0.args;
    let n = options.len() as int;
    assert(args[n + 4] == launch.codex_bin@);
    assert(args[n + 5] == launch.session_id@);
    assert(args[n + 6] == launch.phrase@);
    assert(args[n + 7] == launch.restart_file@);
}

// ---------------------------------------------------------------------------
// Raising the window of a terminal
// ---------------------------------------------------------------------------

/// The window of a process in a listing, from a line on: the first word of the line whose third
/// word is the id of the process.
pub open spec fn window_in(lines: Seq<Seq<char>>, pid: u32, from: int) -> Option<Seq<char>>
    decreases lines.len() - from,
{
    if from < 0 || from >= lines.len() {
        None
    } else {
        let words = text::words_of(lines[from]);
        if words.len() >= 3 && words[2] == text::decimal_of(pid as nat) {
            Some(words[0])
        } else {
            window_in(lines, pid, from + 1)
        }
    }
}

/// The window of a process in a listing of windows with their processes.
pub fn window_of_process(listing: &[u8], pid: u32) -> (r: Option<String>)
    ensures
        text::opt_text(r) == window_in(text::lines_of(text::lossy_text(listing@)), pid, 0),
{
    let content = text::decode_lossy(listing);
    let lines = text::lines(content.as_str());
    let wanted = text::decimal(pid as u64);
    let ghost all = text::texts(lines@);
    for i in 0..lines.len()
        invariant
            all == text::texts(lines@),
            all == text::lines_of(text::lossy_text(listing@)),
            wanted@ == text::decimal_of(pid as nat),
            window_in(all, pid, 0) == window_in(all, pid, i as int),
    {
        assert(all[i as int] == lines@[i as int]@);
        let words = text::words(lines[i].as_str());
        let ghost found = text::texts(words@);
        if words.len() >= 3 {
            assert(found[2] == words@[2]@);
            assert(found[0] == words@[0]@);
            if text::same_text(words[2].as_str(), wanted.as_str()) {
                return Some(words[0].clone());
            }
        }
    }
    None
}

/// The last window in a listing, where its line is not blank.
pub open spec fn last_window_in(lines: Seq<Seq<char>>) -> Option<Seq<char>> {
    if lines.len() > 0 && text::trimmed(lines.last()).len() > 0 {
        Some(text::trimmed(lines.last()))
    } else {
        None
    }
}

/// The last window in a listing of windows.
pub fn last_window(listing: &[u8]) -> (r: Option<String>)
    ensures
        text::opt_text(r) == last_window_in(text::lines_of(text::lossy_text(listing@))),
{
    let content = text::decode_lossy(listing);
    let lines = text::lines(content.as_str());
    let ghost all = text::texts(lines@);
    if lines.len() == 0 {
        return None;
    }
    assert(all.last() == lines@[lines@.len() - 1]@);
    let window = text::trim(lines[lines.len() - 1].as_str());
    if window.as_str().is_empty() {
        None
    } else {
        Some(window)
    }
}

} // verus!
