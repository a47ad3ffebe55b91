//! Which processes are taken for those of a session.

use crate::commands;
use crate::commands::{LockHolder, PidStep, ProcessEntry};
use crate::text;
use vstd::prelude::*;

verus! {

// ---------------------------------------------------------------------------
// Command lines
// ---------------------------------------------------------------------------

/// A command line without the white space around it, in small letters.
pub open spec fn plain(command: Seq<char>) -> Seq<char> {
    text::ascii_lower(text::trimmed(command))
}

/// A session in a terminal is one whose command line names the tool, in whatever letters, and names
/// neither this program, nor one of the two servers, nor one of the two desktop apps.
pub open spec fn is_terminal_session(command: Seq<char>) -> bool {
    &&& text::contains_text(plain(command), "codex"@)
    &&& !text::contains_text(plain(command), "codex-switcher"@)
    &&& !text::contains_text(plain(command), "app-server"@)
    &&& !text::contains_text(plain(command), "exec-server"@)
    &&& !text::contains_text(plain(command), "chatgpt.app"@)
    &&& !text::contains_text(plain(command), "codex.app"@)
}

/// The server of one of the two desktop apps, from its resources.
pub open spec fn is_app_server(command: Seq<char>) -> bool {
    &&& text::contains_text(plain(command), "/chatgpt.app/contents/resources/codex"@)
        || text::contains_text(plain(command), "/codex.app/contents/resources/codex"@)
    &&& text::contains_text(plain(command), " app-server"@)
}

proof fn lemma_terminal_session(command: Seq<char>)
    ensures
        commands::is_cli_command(command) == is_terminal_session(command),
        commands::is_desktop_server(command) == is_app_server(command),
{
    reveal_strlit("codex");
    if text::contains_text(plain(command), "codex"@) {
        let i = choose|i: int| text::occurs_at(plain(command), "codex"@, i);
        assert(plain(command).len() > 0);
    }
}

/// Which command lines are taken for a session in a terminal, for the server of the desktop app,
/// and for the desktop app itself.
pub proof fn command_lines_are_told_apart(
    command: &str,
    terminal: bool,
    server: bool,
    app: bool,
)
    requires
        call_ensures(commands::is_supported_cli_command, (command,), terminal),
        call_ensures(commands::is_desktop_app_server_command, (command,), server),
        call_ensures(commands::is_macos_desktop_root_command, (command,), app),
    ensures
        terminal == is_terminal_session(command@),
        server == is_app_server(command@),
        app == (plain(command@).len() > 0 && plain(command@)[0] == '/' && (text::contains_text(
            plain(command@),
            "/chatgpt.app/contents/macos/chatgpt"@,
        ) || text::contains_text(plain(command@), "/codex.app/contents/macos/codex"@))),
{
    lemma_terminal_session(command@);
}

// ---------------------------------------------------------------------------
// Finding processes
// ---------------------------------------------------------------------------

/// The processes that a listing names are those of its first lines and then those of the others;
/// those of a line are the number in it, without the white space around it.
pub proof fn processes_are_listed_line_by_line(a: Seq<Seq<char>>, b: Seq<Seq<char>>)
    ensures
        commands::pids_in(a + b) == commands::pids_in(a) + commands::pids_in(b),
        forall|line: Seq<char>| #[trigger]
            commands::pids_in(seq![line]) == match text::u32_of(text::trimmed(line)) {
                Some(pid) => seq![pid],
                None => Seq::empty(),
            },
    decreases b.len(),
{
    reveal_with_fuel(commands::pids_in, 2);
    assert forall|line: Seq<char>| #[trigger]
        commands::pids_in(seq![line]) == match text::u32_of(text::trimmed(line)) {
            Some(pid) => seq![pid],
            None => Seq::empty(),
        } by {
        assert(seq![line].drop_last() =~= Seq::empty());
        assert(commands::pids_in(seq![line]) =~= match text::u32_of(text::trimmed(line)) {
            Some(pid) => seq![pid],
            None => Seq::empty(),
        });
    }
    if b.len() == 0 {
        assert(a + b =~= a);
        assert(commands::pids_in(a) + commands::pids_in(b) =~= commands::pids_in(a));
    } else {
        processes_are_listed_line_by_line(a, b.drop_last());
        assert((a + b).drop_last() =~= a + b.drop_last());
        let before = commands::pids_in(a);
        let rest = commands::pids_in(b.drop_last());
        if let Some(pid) = text::u32_of(text::trimmed(b.last())) {
            assert((before + rest).push(pid) =~= before + rest.push(pid));
        }
    }
}

/// The entry is that of a process that runs the session: its name is a number, and its command line
/// bears the id and, with spaces between its arguments, is that of a session in a terminal.
pub open spec fn entry_runs(entry: ProcessEntry, session_id: Seq<char>, pid: u32) -> bool {
    &&& text::u32_of(entry.name@) == Some(pid)
    &&& entry.cmdline matches Some(bytes) && text::contains_text(
        text::lossy_text(bytes@),
        session_id,
    ) && is_terminal_session(text::replaced(text::lossy_text(bytes@), '\0', " "@))
}

proof fn lemma_process(entries: Seq<ProcessEntry>, session_id: Seq<char>, from: int)
    requires
        0 <= from,
    ensures
        match commands::process_of_session(entries, session_id, from) {
            Some(pid) => exists|i: int|
                from <= i < entries.len() && entry_runs(#[trigger] entries[i], session_id, pid)
                    && forall|j: int, other: u32|
                    from <= j < i ==> !#[trigger] entry_runs(entries[j], session_id, other),
            None => forall|i: int, pid: u32|
                from <= i < entries.len() ==> !#[trigger] entry_runs(entries[i], session_id, pid),
        },
    decreases entries.len() - from,
{
    if from < entries.len() {
        lemma_process(entries, session_id, from + 1);
        if let Some(bytes) = entries[from].cmdline {
            lemma_terminal_session(text::replaced(text::lossy_text(bytes@), '\0', " "@));
        }
        match entries[from].runs(session_id) {
            Some(pid) => {
                assert(entry_runs(entries[from], session_id, pid));
            },
            None => {
                assert(forall|pid: u32| !#[trigger] entry_runs(entries[from], session_id, pid));
                if let Some(pid) = commands::process_of_session(entries, session_id, from + 1) {
                    let i = choose|i: int|
                        from + 1 <= i < entries.len() && entry_runs(
                            #[trigger] entries[i],
                            session_id,
                            pid,
                        ) && forall|j: int, other: u32|
                            from + 1 <= j < i ==> !#[trigger] entry_runs(
                                entries[j],
                                session_id,
                                other,
                            );
                    assert forall|j: int, other: u32| from <= j < i implies !#[trigger] entry_runs(
                        entries[j],
                        session_id,
                        other,
                    ) by {
                        if j > from {
                            assert(from + 1 <= j);
                        }
                    }
                } else {
                    assert forall|i: int, pid: u32|
                        from <= i < entries.len() implies !#[trigger] entry_runs(
                        entries[i],
                        session_id,
                        pid,
                    ) by {
                        if i > from {
                            assert(from + 1 <= i);
                        }
                    }
                }
            },
        }
    }
}

/// The process of a session is the first that runs it. Where one does, the processes that hold its
/// lock are not asked for; where none does, they are.
pub proof fn first_process_that_runs_the_session_is_found(
    entries: &Vec<ProcessEntry>,
    session_id: &str,
    r: PidStep,
)
    requires
        call_ensures(commands::find_pid_for_session, (entries, session_id), r),
    ensures
        match r {
            PidStep::Found(pid) => exists|i: int|
                0 <= i < entries@.len() && entry_runs(#[trigger] entries@[i], session_id@, pid)
                    && forall|j: int, other: u32|
                    0 <= j < i ==> !#[trigger] entry_runs(entries@[j], session_id@, other),
            PidStep::ListHolders => forall|i: int, pid: u32|
                0 <= i < entries@.len() ==> !#[trigger] entry_runs(entries@[i], session_id@, pid),
        },
{
    lemma_process(entries@, session_id@, 0);
}

/// The process runs in a terminal, or is the server of the app.
pub open spec fn holder_is(holder: LockHolder, desktop: bool) -> bool {
    holder.command matches Some(bytes) && (if desktop {
        is_app_server(text::lossy_text(bytes@))
    } else {
        is_terminal_session(text::lossy_text(bytes@))
    })
}

proof fn lemma_holder(holders: Seq<LockHolder>, desktop: bool, from: int)
    requires
        0 <= from,
    ensures
        match commands::holder(holders, desktop, from) {
            Some(pid) => exists|i: int|
                from <= i < holders.len() && holder_is(#[trigger] holders[i], desktop)
                    && holders[i].pid == pid && forall|j: int|
                    from <= j < i ==> !holder_is(#[trigger] holders[j], desktop),
            None => forall|i: int|
                from <= i < holders.len() ==> !holder_is(#[trigger] holders[i], desktop),
        },
    decreases holders.len() - from,
{
    if from < holders.len() {
        lemma_holder(holders, desktop, from + 1);
        if let Some(bytes) = holders[from].command {
            lemma_terminal_session(text::lossy_text(bytes@));
        }
        if !holder_is(holders[from], desktop) {
            if let Some(pid) = commands::holder(holders, desktop, from + 1) {
                let i = choose|i: int|
                    from + 1 <= i < holders.len() && holder_is(#[trigger] holders[i], desktop)
                        && holders[i].pid == pid && forall|j: int|
                        from + 1 <= j < i ==> !holder_is(#[trigger] holders[j], desktop);
                assert forall|j: int| from <= j < i implies !holder_is(
                    #[trigger] holders[j],
                    desktop,
                ) by {
                    if j > from {
                        assert(from + 1 <= j);
                    }
                }
            } else {
                assert forall|i: int| from <= i < holders.len() implies !holder_is(
                    #[trigger] holders[i],
                    desktop,
                ) by {
                    if i > from {
                        assert(from + 1 <= i);
                    }
                }
            }
        } else {
            assert(holders[from].pid == commands::holder(holders, desktop, from)->0);
        }
    }
}

/// Of the processes that hold a lock, the first that runs in a terminal is that of a session in a
/// terminal, and the first that is the server of the app that of a session in the app.
pub proof fn first_holder_is_found(
    holders: &Vec<LockHolder>,
    terminal: Option<u32>,
    app: Option<u32>,
)
    requires
        call_ensures(commands::find_cli_holder, (holders,), terminal),
        call_ensures(commands::find_desktop_holder, (holders,), app),
    ensures
        match terminal {
            Some(pid) => exists|i: int|
                0 <= i < holders@.len() && holder_is(#[trigger] holders@[i], false)
                    && holders@[i].pid == pid && forall|j: int|
                    0 <= j < i ==> !holder_is(#[trigger] holders@[j], false),
            None => forall|i: int|
                0 <= i < holders@.len() ==> !holder_is(#[trigger] holders@[i], false),
        },
        match app {
            Some(pid) => exists|i: int|
                0 <= i < holders@.len() && holder_is(#[trigger] holders@[i], true)
                    && holders@[i].pid == pid && forall|j: int|
                    0 <= j < i ==> !holder_is(#[trigger] holders@[j], true),
            None => forall|i: int|
                0 <= i < holders@.len() ==> !holder_is(#[trigger] holders@[i], true),
        },
{
    lemma_holder(holders@, false, 0);
    lemma_holder(holders@, true, 0);
}

/// The line at a position names the working directory, as the line before it says: it begins with
/// an `n`.
pub open spec fn names_directory(lines: Seq<Seq<char>>, i: int, dir: Seq<char>) -> bool {
    &&& 0 < i < lines.len()
    &&& lines[i - 1] == "fcwd"@
    &&& lines[i] == seq!['n'] + dir
}

/// The line at a position names the working directory, and no line does from another position up to
/// it.
pub open spec fn is_first_to_name(
    lines: Seq<Seq<char>>,
    from: int,
    i: int,
    dir: Seq<char>,
) -> bool {
    &&& from <= i
    &&& names_directory(lines, i, dir)
    &&& forall|j: int, other: Seq<char>|
        from <= j < i ==> !#[trigger] names_directory(lines, j, other)
}

proof fn lemma_directory(lines: Seq<Seq<char>>, from: int, expected: bool)
    requires
        0 <= from,
        expected == (0 < from <= lines.len() && lines[from - 1] == "fcwd"@),
    ensures
        commands::cwd_in(lines, from, expected) matches Some(dir) ==> exists|i: int| #[trigger]
            is_first_to_name(lines, from, i, dir),
        commands::cwd_in(lines, from, expected) is None ==> forall|i: int, dir: Seq<char>|
            from <= i ==> !#[trigger] names_directory(lines, i, dir),
    decreases lines.len() - from,
{
    reveal_strlit("fcwd");
    let found = commands::cwd_in(lines, from, expected);
    if from < lines.len() {
        let here = lines[from];
        let next = here == "fcwd"@;
        if !next && expected && here.len() > 0 && here[0] == 'n' {
            assert(here =~= seq!['n'] + here.drop_first());
            assert(found == Some(here.drop_first()));
            assert(is_first_to_name(lines, from, from, found->0));
        } else {
            lemma_directory(lines, from + 1, next);
            assert forall|dir: Seq<char>| !#[trigger] names_directory(lines, from, dir) by {
                if names_directory(lines, from, dir) {
                    assert(here[0] == 'n');
                    assert("fcwd"@[0] == 'f');
                }
            }
            assert(found == commands::cwd_in(lines, from + 1, next));
            if found is Some {
                let dir = found->0;
                let i = choose|i: int| #[trigger] is_first_to_name(lines, from + 1, i, dir);
                assert forall|j: int, other: Seq<char>|
                    from <= j < i implies !#[trigger] names_directory(lines, j, other) by {
                    if j > from {
                        assert(from + 1 <= j);
                    }
                }
                assert(is_first_to_name(lines, from, i, dir));
            } else {
                assert forall|i: int, dir: Seq<char>|
                    from <= i implies !#[trigger] names_directory(lines, i, dir) by {
                    if i > from {
                        assert(from + 1 <= i);
                    }
                }
            }
        }
    }
}

/// The working directory of a process is the first that a listing of its open files names.
pub proof fn first_directory_is_found(listing: &[u8], r: Option<String>)
    requires
        call_ensures(commands::process_cwd, (listing,), r),
    ensures
        ({
            let lines = text::lines_of(text::lossy_text(listing@));
            match r {
                Some(dir) => exists|i: int| #[trigger] is_first_to_name(lines, 0, i, dir@),
                None => forall|i: int, dir: Seq<char>|
                    !#[trigger] names_directory(lines, i, dir),
            }
        }),
{
    let lines = text::lines_of(text::lossy_text(listing@));
    lemma_directory(lines, 0, false);
    assert forall|i: int, dir: Seq<char>|
        i < 0 implies !#[trigger] names_directory(lines, i, dir) by {}
}

/// A process is that of the desktop app if its command line could be read and is one of the app.
pub proof fn app_is_known_by_its_command_line(
    command: Option<&[u8]>,
    line: &str,
    r: bool,
    app: bool,
)
    requires
        call_ensures(commands::is_desktop_root_process, (command,), r),
        call_ensures(commands::is_macos_desktop_root_command, (line,), app),
        command matches Some(bytes) ==> line@ == text::lossy_text(bytes@),
    ensures
        r == (command is Some && app),
{
}

/// A command line names a session if it bears the id and, with spaces between its arguments, is
/// that of a session in a terminal.
pub proof fn command_line_names_its_session(cmdline: &str, session_id: &str, r: bool)
    requires
        call_ensures(commands::cmdline_names_session, (cmdline, session_id), r),
    ensures
        r <==> text::contains_text(cmdline@, session_id@) && is_terminal_session(
            text::replaced(cmdline@, '\0', " "@),
        ),
{
    lemma_terminal_session(text::replaced(cmdline@, '\0', " "@));
}

/// Of two listings that are put together, the processes are those of the first and then those of
/// the second.
pub proof fn listed_processes_are_put_together(
    first: &[u8],
    second: &[u8],
    both: &[u8],
    r: Vec<u32>,
    in_first: Vec<u32>,
    in_second: Vec<u32>,
)
    requires
        first@.len() > 0,
        first@.last() == 10,
        both@ == first@ + second@,
        call_ensures(commands::parse_pids, (first,), in_first),
        call_ensures(commands::parse_pids, (second,), in_second),
        call_ensures(commands::parse_pids, (both,), r),
    ensures
        r@ == in_first@ + in_second@,
{
    let a = text::lossy_text(first@);
    let b = text::lossy_text(second@);
    text::lines_are_mended_apart(first@, second@);
    text::lines_are_put_behind_lines(a, b);
    processes_are_listed_line_by_line(text::lines_of(a), text::lines_of(b));
}

/// A word of a shell command stands in single quotes. A text without a single quote stands in them
/// as it is; a single quote is put outside of them.
pub proof fn words_are_quoted(s: &str, rest: &str, whole: &str, r: String, quoted: String)
    requires
        forall|i: int| 0 <= i < s@.len() ==> s@[i] != '\'',
        whole@ == s@ + "'"@ + rest@,
        call_ensures(commands::escape_shell_arg, (rest,), quoted),
        call_ensures(commands::escape_shell_arg, (whole,), r),
    ensures
        r@ == "'"@ + s@ + "'\\'"@ + quoted@,
{
    reveal_strlit("'");
    reveal_strlit("'\\'");
    reveal_strlit("'\\''");
    lemma_nothing_replaced(s@, '\'', "'\\''"@);
    crate::text_laws::every_character_is_replaced(s@, "'"@ + rest@, '\'', "'\\''"@);
    crate::text_laws::every_character_is_replaced("'"@, rest@, '\'', "'\\''"@);
    assert("'"@ =~= seq!['\'']);
    assert(whole@ =~= s@ + ("'"@ + rest@));
    assert(r@ =~= "'"@ + s@ + "'\\'"@ + quoted@);
}

proof fn lemma_nothing_replaced(s: Seq<char>, from: char, with: Seq<char>)
    requires
        forall|i: int| 0 <= i < s.len() ==> s[i] != from,
    ensures
        text::replaced(s, from, with) == s,
    decreases s.len(),
{
    if s.len() > 0 {
        lemma_nothing_replaced(s.drop_last(), from, with);
        assert(s.drop_last() + seq![s.last()] =~= s);
    } else {
        assert(s =~= Seq::empty());
    }
}

/// A text without a single quote is put in single quotes.
pub proof fn plain_words_are_put_in_quotes(s: &str, r: String)
    requires
        forall|i: int| 0 <= i < s@.len() ==> s@[i] != '\'',
        call_ensures(commands::escape_shell_arg, (s,), r),
    ensures
        r@ == "'"@ + s@ + "'"@,
{
    lemma_nothing_replaced(s@, '\'', "'\\''"@);
}

/// The command of a terminal of macOS goes to the directory and resumes the session with the
/// phrase, each of them quoted, again as long as there is a restart file when the session ends.
pub proof fn session_is_resumed_while_there_is_a_restart_file(
    codex_bin: &str,
    cwd: &str,
    session_id: &str,
    phrase: &str,
    restart_file: &str,
    tool: String,
    dir: String,
    id: String,
    words: String,
    restart: String,
    r: String,
)
    requires
        call_ensures(commands::escape_shell_arg, (codex_bin,), tool),
        call_ensures(commands::escape_shell_arg, (cwd,), dir),
        call_ensures(commands::escape_shell_arg, (session_id,), id),
        call_ensures(commands::escape_shell_arg, (phrase,), words),
        call_ensures(commands::escape_shell_arg, (restart_file,), restart),
        call_ensures(
            commands::macos_resume_command,
            (codex_bin, cwd, session_id, phrase, restart_file),
            r,
        ),
    ensures
        r@ == "cd "@ + dir@ + " && while true; do "@ + tool@ + " resume "@ + id@ + " "@ + words@
            + "; if [ -f "@ + restart@ + " ]; then rm -f "@ + restart@
            + "; sleep 1; continue; fi; break; done; exit"@,
{
}

/// A listing of one line names the process whose id is the number in the line, without the white
/// space around it; a line without a number names none.
pub proof fn line_names_its_process(
    listing: &[u8],
    line: Seq<char>,
    s: &str,
    number: Option<u32>,
    r: Vec<u32>,
)
    requires
        text::lines_of(text::lossy_text(listing@)) == seq![line],
        s@ == text::trimmed(line),
        call_ensures(text::parse_u32, (s,), number),
        call_ensures(commands::parse_pids, (listing,), r),
    ensures
        number matches Some(pid) ==> r@ == seq![pid],
        number is None ==> r@.len() == 0,
{
    processes_are_listed_line_by_line(seq![line], Seq::empty());
    assert(commands::pids_in(seq![line]) == r@);
}

/// The process that runs a session is the first of the entries that does.
pub proof fn first_entry_that_runs_the_session_is_found(
    entries: &Vec<ProcessEntry>,
    session_id: &str,
    r: Option<u32>,
)
    requires
        call_ensures(commands::find_process_of_session, (entries, session_id), r),
    ensures
        match r {
            Some(pid) => exists|i: int|
                0 <= i < entries@.len() && entry_runs(#[trigger] entries@[i], session_id@, pid)
                    && forall|j: int, other: u32|
                    0 <= j < i ==> !#[trigger] entry_runs(entries@[j], session_id@, other),
            None => forall|i: int, pid: u32|
                0 <= i < entries@.len() ==> !#[trigger] entry_runs(entries@[i], session_id@, pid),
        },
{
    lemma_process(entries@, session_id@, 0);
}

} // verus!
