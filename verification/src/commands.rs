//! Command lines: those of the processes that are looked for, and those that are written.

use crate::text;
use vstd::prelude::*;

verus! {

// ---------------------------------------------------------------------------
// Quoting for the shell
// ---------------------------------------------------------------------------

/// The text as one word of a shell command: in single quotes, each of its own single quotes put
/// outside of them.
pub open spec fn shell_quoted(s: Seq<char>) -> Seq<char> {
    "'"@ + text::replaced(s, '\'', "'\\''"@) + "'"@
}

/// The text as one word of a shell command.
pub fn escape_shell_arg(s: &str) -> (r: String)
    ensures
        r@ == shell_quoted(s@),
{
    let mut r = "'".to_owned();
    r.append(text::replace_char(s, '\'', "'\\''").as_str());
    r.append("'");
    r
}

/// What the shell reads from a word: between single quotes every character stands for itself;
/// outside of them a backslash makes the next character stand for itself.
pub open spec fn shell_read(word: Seq<char>, quoted: bool) -> Seq<char>
    decreases word.len(),
{
    if word.len() == 0 {
        Seq::empty()
    } else if word[0] == '\'' {
        shell_read(word.drop_first(), !quoted)
    } else if word[0] == '\\' && !quoted && word.len() > 1 {
        seq![word[1]] + shell_read(word.skip(2), quoted)
    } else {
        seq![word[0]] + shell_read(word.drop_first(), quoted)
    }
}

/// Outside of single quotes the shell finds nothing in the word that it would act on: there are
/// backslashes there, and what they protect, alone.
pub open spec fn shell_inert(word: Seq<char>, quoted: bool) -> bool
    decreases word.len(),
{
    if word.len() == 0 {
        !quoted
    } else if word[0] == '\'' {
        shell_inert(word.drop_first(), !quoted)
    } else if quoted {
        shell_inert(word.drop_first(), quoted)
    } else {
        word[0] == '\\' && word.len() > 1 && shell_inert(word.skip(2), quoted)
    }
}

proof fn lemma_quoting_unfolds()
    ensures
        "'"@ == seq!['\''],
        "'\\''"@ == seq!['\'', '\\', '\'', '\''],
{
    reveal_strlit("'");
    reveal_strlit("'\\''");
    assert("'"@ =~= seq!['\'']);
    assert("'\\''"@ =~= seq!['\'', '\\', '\'', '\'']);
}

/// `replaced` unfolded at the front.
proof fn lemma_replaced_front(s: Seq<char>, from: char, with: Seq<char>)
    requires
        s.len() > 0,
    ensures
        text::replaced(s, from, with) == (if s[0] == from {
            with
        } else {
            seq![s[0]]
        }) + text::replaced(s.drop_first(), from, with),
    decreases s.len(),
{
    if s.len() == 1 {
        assert(s.drop_first() =~= Seq::empty());
        assert(s.drop_last() =~= Seq::empty());
        assert(text::replaced(s.drop_first(), from, with) =~= Seq::empty());
        assert(text::replaced(s.drop_last(), from, with) =~= Seq::empty());
        assert(text::replaced(s, from, with) =~= (if s[0] == from {
            with
        } else {
            seq![s[0]]
        }) + text::replaced(s.drop_first(), from, with));
    } else {
        let head = if s[0] == from {
            with
        } else {
            seq![s[0]]
        };
        let tail = if s.last() == from {
            with
        } else {
            seq![s.last()]
        };
        lemma_replaced_front(s.drop_last(), from, with);
        let middle = s.drop_last().drop_first();
        assert(middle =~= s.drop_first().drop_last());
        assert(s.drop_first().last() == s.last());
        assert(text::replaced(s.drop_first(), from, with) =~= text::replaced(middle, from, with)
            + tail);
        assert(text::replaced(s, from, with) =~= head + (text::replaced(middle, from, with)
            + tail));
    }
}

proof fn lemma_read_quoted(s: Seq<char>)
    ensures
        ({
            let inner = text::replaced(s, '\'', "'\\''"@) + "'"@;
            &&& shell_read(inner, true) == s
            &&& shell_inert(inner, true)
        }),
    decreases s.len(),
{
    lemma_quoting_unfolds();
    let quote = "'"@;
    let escaped = "'\\''"@;
    let inner = text::replaced(s, '\'', escaped) + quote;
    if s.len() == 0 {
        assert(inner =~= quote);
        assert(inner.drop_first() =~= Seq::empty());
        assert(shell_read(inner.drop_first(), false) =~= Seq::empty());
        assert(shell_inert(inner.drop_first(), false));
        assert(s =~= Seq::empty());
        assert(inner[0] == '\'');
    } else {
        let rest = s.drop_first();
        let rest_inner = text::replaced(rest, '\'', escaped) + quote;
        lemma_replaced_front(s, '\'', escaped);
        lemma_read_quoted(rest);
        assert(s =~= seq![s[0]] + rest);
        if s[0] == '\'' {
            assert(inner =~= escaped + rest_inner);
            let after_quote = inner.drop_first();
            assert(after_quote =~= seq!['\\', '\'', '\''] + rest_inner);
            let after_escape = after_quote.skip(2);
            assert(after_escape =~= seq!['\''] + rest_inner);
            assert(after_escape.drop_first() =~= rest_inner);
            assert(shell_read(after_escape, false) == shell_read(rest_inner, true));
            assert(shell_read(after_quote, false) == seq!['\''] + shell_read(after_escape, false));
            assert(shell_inert(after_escape, false));
            assert(shell_inert(after_quote, false));
            assert(inner[0] == '\'');
            assert(shell_read(inner, true) =~= s);
        } else {
            assert(inner =~= seq![s[0]] + rest_inner);
            assert(inner.drop_first() =~= rest_inner);
        }
    }
}

/// The shell reads a quoted text back as it is, whatever it holds, and finds nothing in it to act
/// on.
pub proof fn quoting_is_undone_by_the_shell(s: Seq<char>)
    ensures
        shell_read(shell_quoted(s), false) == s,
        shell_inert(shell_quoted(s), false),
{
    lemma_quoting_unfolds();
    lemma_read_quoted(s);
    let inner = text::replaced(s, '\'', "'\\''"@) + "'"@;
    assert(shell_quoted(s) =~= seq!['\''] + inner);
    assert(shell_quoted(s).drop_first() =~= inner);
}

/// The command that runs a session in a terminal of macOS: it is resumed in its directory, and
/// again as long as a restart file is found when it ends.
pub open spec fn resume_command(
    codex_bin: Seq<char>,
    cwd: Seq<char>,
    session_id: Seq<char>,
    phrase: Seq<char>,
    restart_file: Seq<char>,
) -> Seq<char> {
    "cd "@ + shell_quoted(cwd) + " && while true; do "@ + shell_quoted(codex_bin) + " resume "@
        + shell_quoted(session_id) + " "@ + shell_quoted(phrase) + "; if [ -f "@ + shell_quoted(
        restart_file,
    ) + " ]; then rm -f "@ + shell_quoted(restart_file)
        + "; sleep 1; continue; fi; break; done; exit"@
}

/// The command that runs a session in a terminal of macOS.
pub fn macos_resume_command(
    codex_bin: &str,
    cwd: &str,
    session_id: &str,
    phrase: &str,
    restart_file: &str,
) -> (r: String)
    ensures
        r@ == resume_command(codex_bin@, cwd@, session_id@, phrase@, restart_file@),
{
    let restart = escape_shell_arg(restart_file);
    let mut r = "cd ".to_owned();
    r.append(escape_shell_arg(cwd).as_str());
    r.append(" && while true; do ");
    r.append(escape_shell_arg(codex_bin).as_str());
    r.append(" resume ");
    r.append(escape_shell_arg(session_id).as_str());
    r.append(" ");
    r.append(escape_shell_arg(phrase).as_str());
    r.append("; if [ -f ");
    r.append(restart.as_str());
    r.append(" ]; then rm -f ");
    r.append(restart.as_str());
    r.append("; sleep 1; continue; fi; break; done; exit");
    r
}

// ---------------------------------------------------------------------------
// Recognizing processes
// ---------------------------------------------------------------------------

/// A command line as it is compared: without the white space around it, in small letters.
pub open spec fn plain_command(command: Seq<char>) -> Seq<char> {
    text::ascii_lower(text::trimmed(command))
}

/// The command line is that of a session in a terminal: it names the tool, and neither this
/// program, nor a server, nor the desktop app.
pub open spec fn is_cli_command(command: Seq<char>) -> bool {
    let plain = plain_command(command);
    &&& plain.len() > 0
    &&& text::contains_text(plain, "codex"@)
    &&& !text::contains_text(plain, "codex-switcher"@)
    &&& !text::contains_text(plain, "app-server"@)
    &&& !text::contains_text(plain, "exec-server"@)
    &&& !text::contains_text(plain, "chatgpt.app"@)
    &&& !text::contains_text(plain, "codex.app"@)
}

/// The command line is that of the server of the desktop app.
pub open spec fn is_desktop_server(command: Seq<char>) -> bool {
    let plain = plain_command(command);
    &&& text::contains_text(plain, "/chatgpt.app/contents/resources/codex"@)
        || text::contains_text(plain, "/codex.app/contents/resources/codex"@)
    &&& text::contains_text(plain, " app-server"@)
}

/// The command line is that of the desktop app itself.
pub open spec fn is_desktop_root(command: Seq<char>) -> bool {
    let plain = plain_command(command);
    &&& plain.len() > 0 && plain[0] == '/'
    &&& text::contains_text(plain, "/chatgpt.app/contents/macos/chatgpt"@)
        || text::contains_text(plain, "/codex.app/contents/macos/codex"@)
}

/// Whether the command line is that of a session in a terminal.
pub fn is_supported_cli_command(command: &str) -> (r: bool)
    ensures
        r == is_cli_command(command@),
{
    let plain = text::ascii_lower_chars(text::trim(command).as_str());
    plain.len() > 0 && text::has_text(&plain, "codex") && !text::has_text(&plain, "codex-switcher")
        && !text::has_text(&plain, "app-server") && !text::has_text(&plain, "exec-server")
        && !text::has_text(&plain, "chatgpt.app") && !text::has_text(&plain, "codex.app")
}

/// Whether the command line is that of the server of the desktop app.
pub fn is_desktop_app_server_command(command: &str) -> (r: bool)
    ensures
        r == is_desktop_server(command@),
{
    let plain = text::ascii_lower_chars(text::trim(command).as_str());
    (text::has_text(&plain, "/chatgpt.app/contents/resources/codex") || text::has_text(
        &plain,
        "/codex.app/contents/resources/codex",
    )) && text::has_text(&plain, " app-server")
}

/// Whether the command line is that of the desktop app itself.
pub fn is_macos_desktop_root_command(command: &str) -> (r: bool)
    ensures
        r == is_desktop_root(command@),
{
    let plain = text::ascii_lower_chars(text::trim(command).as_str());
    plain.len() > 0 && plain[0] == '/' && (text::has_text(
        &plain,
        "/chatgpt.app/contents/macos/chatgpt",
    ) || text::has_text(&plain, "/codex.app/contents/macos/codex"))
}

/// What holds a text holds the parts of it.
proof fn lemma_contains_part(s: Seq<char>, whole: Seq<char>, part: Seq<char>, k: int)
    requires
        text::contains_text(s, whole),
        0 <= k <= k + part.len() <= whole.len(),
        whole.subrange(k, k + part.len()) == part,
    ensures
        text::contains_text(s, part),
{
    let i = choose|i: int| text::occurs_at(s, whole, i);
    assert(s.subrange(i + k, i + k + part.len()) =~= s.subrange(i, i + whole.len()).subrange(
        k,
        k + part.len(),
    ));
    assert(text::occurs_at(s, part, i + k));
}

/// The server of the desktop app is not taken for a session in a terminal.
pub proof fn desktop_server_is_no_cli_session(command: Seq<char>)
    ensures
        !(is_desktop_server(command) && is_cli_command(command)),
{
    let plain = plain_command(command);
    if text::contains_text(plain, " app-server"@) {
        reveal_strlit(" app-server");
        reveal_strlit("app-server");
        assert(" app-server"@.subrange(1, 11) =~= "app-server"@);
        lemma_contains_part(plain, " app-server"@, "app-server"@, 1);
    }
}

/// The desktop app itself is not taken for a session in a terminal.
pub proof fn desktop_app_is_no_cli_session(command: Seq<char>)
    ensures
        !(is_desktop_root(command) && is_cli_command(command)),
{
    let plain = plain_command(command);
    let chatgpt = "/chatgpt.app/contents/macos/chatgpt"@;
    let codex = "/codex.app/contents/macos/codex"@;
    reveal_strlit("/chatgpt.app/contents/macos/chatgpt");
    reveal_strlit("/codex.app/contents/macos/codex");
    reveal_strlit("chatgpt.app");
    reveal_strlit("codex.app");
    assert(chatgpt.subrange(1, 12) =~= "chatgpt.app"@);
    assert(codex.subrange(1, 10) =~= "codex.app"@);
    if text::contains_text(plain, chatgpt) {
        lemma_contains_part(plain, chatgpt, "chatgpt.app"@, 1);
    }
    if text::contains_text(plain, codex) {
        lemma_contains_part(plain, codex, "codex.app"@, 1);
    }
}

// ---------------------------------------------------------------------------
// Finding processes
// ---------------------------------------------------------------------------

/// The process ids that a listing names, one a line; other lines are passed over.
pub open spec fn pids_in(lines: Seq<Seq<char>>) -> Seq<u32>
    decreases lines.len(),
{
    if lines.len() == 0 {
        Seq::empty()
    } else {
        match text::u32_of(text::trimmed(lines.last())) {
            Some(pid) => pids_in(lines.drop_last()).push(pid),
            None => pids_in(lines.drop_last()),
        }
    }
}

/// The process ids that a listing names, one a line.
pub fn parse_pids(listing: &[u8]) -> (r: Vec<u32>)
    ensures
        r@ == pids_in(text::lines_of(text::lossy_text(listing@))),
{
    let content = text::decode_lossy(listing);
    let lines = text::lines(content.as_str());
    let ghost all = text::texts(lines@);
    let mut r: Vec<u32> = Vec::new();
    assert(all.take(0) =~= Seq::empty());
    for i in 0..lines.len()
        invariant
            all == text::texts(lines@),
            r@ == pids_in(all.take(i as int)),
    {
        assert(all.take(i + 1).drop_last() =~= all.take(i as int));
        assert(all.take(i + 1).last() == lines@[i as int]@);
        if let Some(pid) = text::parse_u32(text::trim(lines[i].as_str()).as_str()) {
            r.push(pid);
        }
    }
    assert(all.take(all.len() as int) =~= all);
    r
}

/// A directory entry of a running process, and its command line where that could be read. Its
/// arguments are ended by zero bytes.
pub struct ProcessEntry {
    pub name: String,
    pub cmdline: Option<Vec<u8>>,
}

/// The text of a command line is that of a session in a terminal, of the given id.
pub open spec fn names_session(cmdline: Seq<char>, session_id: Seq<char>) -> bool {
    text::contains_text(cmdline, session_id) && is_cli_command(
        text::replaced(cmdline, '\0', " "@),
    )
}

impl ProcessEntry {
    /// The process, if it runs the given session.
    pub open spec fn runs(self, session_id: Seq<char>) -> Option<u32> {
        match text::u32_of(self.name@) {
            Some(pid) => match self.cmdline {
                Some(bytes) => if names_session(text::lossy_text(bytes@), session_id) {
                    Some(pid)
                } else {
                    None
                },
                None => None,
            },
            None => None,
        }
    }
}

/// Whether the text of a command line is that of a session in a terminal, of the given id.
pub fn cmdline_names_session(cmdline: &str, session_id: &str) -> (r: bool)
    ensures
        r == names_session(cmdline@, session_id@),
{
    text::contains(cmdline, session_id) && is_supported_cli_command(
        text::replace_char(cmdline, '\0', " ").as_str(),
    )
}

/// The process among those from a position on that runs a session.
pub open spec fn process_of_session(
    entries: Seq<ProcessEntry>,
    session_id: Seq<char>,
    from: int,
) -> Option<u32>
    decreases entries.len() - from,
{
    if from < 0 || from >= entries.len() {
        None
    } else {
        match entries[from].runs(session_id) {
            Some(pid) => Some(pid),
            None => process_of_session(entries, session_id, from + 1),
        }
    }
}

/// The first of the processes that runs a session.
pub fn find_process_of_session(entries: &Vec<ProcessEntry>, session_id: &str) -> (r: Option<u32>)
    ensures
        r == process_of_session(entries@, session_id@, 0),
{
    for i in 0..entries.len()
        invariant
            process_of_session(entries@, session_id@, 0) == process_of_session(
                entries@,
                session_id@,
                i as int,
            ),
    {
        if let Some(pid) = text::parse_u32(entries[i].name.as_str()) {
            if let Some(bytes) = &entries[i].cmdline {
                let cmdline = text::decode_lossy(bytes.as_slice());
                if cmdline_names_session(cmdline.as_str(), session_id) {
                    return Some(pid);
                }
            }
        }
    }
    None
}

/// A process that holds the lock of a session, and its command line where that could be read.
pub struct LockHolder {
    pub pid: u32,
    pub command: Option<Vec<u8>>,
}

impl LockHolder {
    /// The process runs the session in a terminal.
    pub open spec fn is_cli(self) -> bool {
        self.command matches Some(bytes) && is_cli_command(text::lossy_text(bytes@))
    }

    /// The process runs the session in the desktop app.
    pub open spec fn is_desktop(self) -> bool {
        self.command matches Some(bytes) && is_desktop_server(text::lossy_text(bytes@))
    }
}

/// The first of the processes from a position on that runs the session in a terminal, or in the
/// desktop app.
pub open spec fn holder(holders: Seq<LockHolder>, desktop: bool, from: int) -> Option<u32>
    decreases holders.len() - from,
{
    if from < 0 || from >= holders.len() {
        None
    } else if if desktop {
        holders[from].is_desktop()
    } else {
        holders[from].is_cli()
    } {
        Some(holders[from].pid)
    } else {
        holder(holders, desktop, from + 1)
    }
}

/// The first of the processes that runs the session in a terminal, or in the desktop app.
fn find_holder(holders: &Vec<LockHolder>, desktop: bool) -> (r: Option<u32>)
    ensures
        r == holder(holders@, desktop, 0),
{
    for i in 0..holders.len()
        invariant
            holder(holders@, desktop, 0) == holder(holders@, desktop, i as int),
    {
        if let Some(bytes) = &holders[i].command {
            let command = text::decode_lossy(bytes.as_slice());
            let runs = if desktop {
                is_desktop_app_server_command(command.as_str())
            } else {
                is_supported_cli_command(command.as_str())
            };
            if runs {
                return Some(holders[i].pid);
            }
        }
    }
    None
}

/// The first of the processes that runs the session in a terminal.
pub fn find_cli_holder(holders: &Vec<LockHolder>) -> (r: Option<u32>)
    ensures
        r == holder(holders@, false, 0),
{
    find_holder(holders, false)
}

/// The first of the processes that runs the session in the desktop app.
pub fn find_desktop_holder(holders: &Vec<LockHolder>) -> (r: Option<u32>)
    ensures
        r == holder(holders@, true, 0),
{
    find_holder(holders, true)
}

/// How the process of a session is found.
pub enum PidStep {
    /// A running process bears the id of the session in its command line.
    Found(u32),
    /// None does: the processes that hold the lock of the session are to be listed, and the first
    /// of them that runs in a terminal is the one.
    ListHolders,
}

/// The process in a terminal that runs a session: `entries` are the running processes, where they
/// can be listed. One that bears the id of the session goes before those that hold its lock.
pub fn find_pid_for_session(entries: &Vec<ProcessEntry>, session_id: &str) -> (r: PidStep)
    ensures
        match process_of_session(entries@, session_id@, 0) {
            Some(pid) => r == PidStep::Found(pid),
            None => r == PidStep::ListHolders,
        },
{
    match find_process_of_session(entries, session_id) {
        Some(pid) => PidStep::Found(pid),
        None => PidStep::ListHolders,
    }
}

/// Whether a process, with its command line where that could be read, is that of the desktop app.
pub fn is_desktop_root_process(command: Option<&[u8]>) -> (r: bool)
    ensures
        r == (command matches Some(bytes) && is_desktop_root(text::lossy_text(bytes@))),
{
    match command {
        Some(bytes) => is_macos_desktop_root_command(text::decode_lossy(bytes).as_str()),
        None => false,
    }
}

/// The working directory in a listing of the open files of a process, from a line on: it stands
/// in the line after the one that names the kind of file, behind an `n`.
pub open spec fn cwd_in(lines: Seq<Seq<char>>, from: int, expected: bool) -> Option<Seq<char>>
    decreases lines.len() - from,
{
    if from < 0 || from >= lines.len() {
        None
    } else if lines[from] == "fcwd"@ {
        cwd_in(lines, from + 1, true)
    } else if expected && lines[from].len() > 0 && lines[from][0] == 'n' {
        Some(lines[from].drop_first())
    } else {
        cwd_in(lines, from + 1, false)
    }
}

/// The working directory in a listing of the open files of a process.
pub fn process_cwd(listing: &[u8]) -> (r: Option<String>)
    ensures
        text::opt_text(r) == cwd_in(text::lines_of(text::lossy_text(listing@)), 0, false),
{
    let content = text::decode_lossy(listing);
    let lines = text::lines(content.as_str());
    let ghost all = text::texts(lines@);
    let mut expected: bool = false;
    for i in 0..lines.len()
        invariant
            all == text::texts(lines@),
            cwd_in(all, 0, false) == cwd_in(all, i as int, expected),
            all == text::lines_of(text::lossy_text(listing@)),
    {
        assert(all[i as int] == lines@[i as int]@);
        let line = lines[i].as_str();
        if text::same_text(line, "fcwd") {
            expected = true;
        } else {
            let chars = text::chars_of(line);
            if expected && chars.len() > 0 && chars[0] == 'n' {
                let cwd = text::text_of(&chars, 1, chars.len());
                assert(cwd@ =~= all[i as int].drop_first());
                return Some(cwd);
            }
            expected = false;
        }
    }
    None
}

} // verus!
