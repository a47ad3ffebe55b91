//! Which sessions are running.
//!
//! A running session holds a lock, a file that bears its id. Which process holds it, and what its
//! event log tells, is found out for each lock in turn.

use crate::json;
use crate::json::{Json, JsonView};
use crate::moment;
use crate::moment::Moment;
use crate::rollout;
use crate::rollout_laws;
use crate::sessions::{ActiveCodexSession, SessionView};
use crate::text;
use crate::tracker;
use vstd::prelude::*;

verus! {

// ---------------------------------------------------------------------------
// Locks
// ---------------------------------------------------------------------------

/// A name without the endings `.lock`.
pub open spec fn without_lock(name: Seq<char>) -> Seq<char>
    decreases name.len(),
{
    if name.len() >= 5 && text::ends_with_text(name, ".lock"@) {
        without_lock(name.take(name.len() - 5))
    } else {
        name
    }
}

/// The session whose lock a file of the given name is. A hidden file is none.
pub open spec fn session_of_lock(name: Seq<char>) -> Option<Seq<char>> {
    if text::ends_with_text(name, ".lock"@) && !(name.len() > 0 && name[0] == '.')
        && without_lock(name).len() > 0 {
        Some(without_lock(name))
    } else {
        None
    }
}

/// The session whose lock a file of the given name is.
pub fn lock_session_id(name: &str) -> (r: Option<String>)
    ensures
        text::opt_text(r) == session_of_lock(name@),
{
    if !text::ends_with(name, ".lock") {
        return None;
    }
    let chars = text::chars_of(name);
    let ending = text::chars_of(".lock");
    proof {
        reveal_strlit(".lock");
    }
    if chars.len() > 0 && chars[0] == '.' {
        return None;
    }
    let mut end: usize = chars.len();
    assert(chars@.take(end as int) =~= chars@);
    while end >= 5 && text::matches_at(&text_up_to(&chars, end), &ending, end - 5)
        invariant
            end <= chars@.len(),
            ending@ == ".lock"@,
            ending@.len() == 5,
            without_lock(chars@.take(end as int)) == without_lock(chars@),
        decreases end,
    {
        assert(text::ends_with_text(chars@.take(end as int), ".lock"@));
        assert(chars@.take(end as int).take(end - 5) =~= chars@.take(end - 5));
        end = end - 5;
    }
    let ghost rest = chars@.take(end as int);
    assert(without_lock(chars@) == rest);
    if end == 0 {
        None
    } else {
        let id = text::text_of(&chars, 0, end);
        assert(id@ =~= rest);
        Some(id)
    }
}

/// The first characters.
fn text_up_to(chars: &Vec<char>, end: usize) -> (r: Vec<char>)
    requires
        end <= chars@.len(),
    ensures
        r@ == chars@.take(end as int),
{
    let mut r: Vec<char> = Vec::new();
    for i in 0..end
        invariant
            end <= chars@.len(),
            r@ == chars@.take(i as int),
    {
        r.push(chars[i]);
        assert(r@ =~= chars@.take(i + 1));
    }
    r
}

/// The id of a session bears no ending of a lock, and is not empty.
pub proof fn lock_names_are_stripped(name: Seq<char>)
    ensures
        session_of_lock(name) matches Some(id) ==> id.len() > 0 && !text::ends_with_text(
            id,
            ".lock"@,
        ) && id.len() < name.len(),
{
    reveal_strlit(".lock");
    lemma_stripped(name);
}

proof fn lemma_stripped(name: Seq<char>)
    requires
        ".lock"@.len() == 5,
    ensures
        !text::ends_with_text(without_lock(name), ".lock"@),
        without_lock(name).len() <= name.len(),
        text::ends_with_text(name, ".lock"@) ==> without_lock(name).len() < name.len(),
    decreases name.len(),
{
    if name.len() >= 5 && text::ends_with_text(name, ".lock"@) {
        lemma_stripped(name.take(name.len() - 5));
    }
}

// ---------------------------------------------------------------------------
// The head of an event log
// ---------------------------------------------------------------------------

/// The lines at the start of an event log that are searched for what it is about.
pub const META_LINES: usize = 50;

/// What the head of an event log tells.
#[derive(Debug)]
pub struct SessionRolloutMeta {
    /// The session is that of a helper of another one.
    pub parent_thread_id: Option<String>,
    pub cwd: Option<String>,
}

/// A text that is not empty.
pub open spec fn filled(s: Option<Seq<char>>) -> Option<Seq<char>> {
    match s {
        Some(t) => if t.len() > 0 {
            Some(t)
        } else {
            None
        },
        None => None,
    }
}

/// The session that started the one that a value of the log is about.
pub open spec fn parent_in(value: JsonView) -> Option<Seq<char>> {
    match value.member("payload"@) {
        Some(payload) => filled(payload.text_member("parent_thread_id"@)),
        None => None,
    }
}

/// The first of the places where a directory may stand in a payload that holds anything.
pub open spec fn directory_value(payload: JsonView) -> Option<JsonView> {
    match payload.member("cwd"@) {
        Some(value) => Some(value),
        None => match member_of(payload.member("thread_settings"@), "cwd"@) {
            Some(value) => Some(value),
            None => member_of(
                member_of(
                    member_of(
                        member_of(payload.member("state"@), "environments"@),
                        "environments"@,
                    ),
                    "local"@,
                ),
                "cwd"@,
            ),
        },
    }
}

/// A member of a value that may be missing.
pub open spec fn member_of(value: Option<JsonView>, name: Seq<char>) -> Option<JsonView> {
    match value {
        Some(v) => v.member(name),
        None => None,
    }
}

/// The directory of the session that a value of the log is about.
pub open spec fn cwd_in(value: JsonView) -> Option<Seq<char>> {
    match value.member("payload"@) {
        Some(payload) => match directory_value(payload) {
            Some(dir) => filled(dir.text()),
            None => None,
        },
        None => None,
    }
}

/// The first text that is found in the lines from a position on; a line that could not be read,
/// or is no JSON, is passed over.
pub open spec fn first_in_lines(
    lines: Seq<Option<Seq<char>>>,
    find: spec_fn(JsonView) -> Option<Seq<char>>,
    from: int,
) -> Option<Seq<char>>
    decreases lines.len() - from,
{
    if from < 0 || from >= lines.len() {
        None
    } else {
        match found_in_line(lines[from], find) {
            Some(found) => Some(found),
            None => first_in_lines(lines, find, from + 1),
        }
    }
}

/// The text that is found in a line.
pub open spec fn found_in_line(
    line: Option<Seq<char>>,
    find: spec_fn(JsonView) -> Option<Seq<char>>,
) -> Option<Seq<char>> {
    match line {
        Some(content) => match json::json_of(content) {
            Some(value) => find(value),
            None => None,
        },
        None => None,
    }
}

/// The lines that are searched.
pub open spec fn head_lines(lines: Seq<Option<String>>) -> Seq<Option<Seq<char>>> {
    lines.take(
        if lines.len() < META_LINES {
            lines.len() as int
        } else {
            META_LINES as int
        },
    ).map_values(|line: Option<String>| text::opt_text(line))
}

/// The parent of the session, as the head of its log tells.
pub open spec fn parent_of(lines: Seq<Option<String>>) -> Option<Seq<char>> {
    first_in_lines(head_lines(lines), |value: JsonView| parent_in(value), 0)
}

/// The directory of the session, as the head of its log tells.
pub open spec fn cwd_of(lines: Seq<Option<String>>) -> Option<Seq<char>> {
    first_in_lines(head_lines(lines), |value: JsonView| cwd_in(value), 0)
}

/// A copy of a text that is not empty.
fn filled_text(s: Option<&str>) -> (r: Option<String>)
    ensures
        text::opt_text(r) == filled(json::opt_str(s)),
{
    match s {
        Some(t) => if t.is_empty() {
            None
        } else {
            Some(t.to_owned())
        },
        None => None,
    }
}

/// The session that started the one that a value of the log is about.
pub fn parent_thread(value: &Json) -> (r: Option<String>)
    ensures
        text::opt_text(r) == parent_in(value@),
{
    match value.member("payload") {
        Some(payload) => filled_text(payload.text_member("parent_thread_id")),
        None => None,
    }
}

/// A member of a value that may be missing.
fn inner<'a>(value: Option<&'a Json>, name: &str) -> (r: Option<&'a Json>)
    ensures
        json::opt_json(r) == member_of(json::opt_json(value), name@),
{
    match value {
        Some(v) => v.member(name),
        None => None,
    }
}

/// The directory of the session that a value of the log is about.
pub fn working_directory(value: &Json) -> (r: Option<String>)
    ensures
        text::opt_text(r) == cwd_in(value@),
{
    let payload = match value.member("payload") {
        Some(payload) => payload,
        None => {
            return None;
        },
    };
    let direct = payload.member("cwd");
    let dir = if direct.is_some() {
        direct
    } else {
        let in_settings = inner(payload.member("thread_settings"), "cwd");
        if in_settings.is_some() {
            in_settings
        } else {
            let environments = inner(payload.member("state"), "environments");
            inner(inner(inner(environments, "environments"), "local"), "cwd")
        }
    };
    match dir {
        Some(found) => filled_text(found.text()),
        None => None,
    }
}

/// What the head of an event log tells: `lines` are its first lines, as far as they could be
/// read.
pub fn inspect_session_meta(lines: &Vec<Option<String>>) -> (r: SessionRolloutMeta)
    ensures
        text::opt_text(r.parent_thread_id) == parent_of(lines@),
        text::opt_text(r.cwd) == cwd_of(lines@),
{
    let ghost head = head_lines(lines@);
    let ghost find_parent = |value: JsonView| parent_in(value);
    let ghost find_cwd = |value: JsonView| cwd_in(value);
    let count: usize = if lines.len() < META_LINES {
        lines.len()
    } else {
        META_LINES
    };
    let mut parent: Option<String> = None;
    let mut cwd: Option<String> = None;
    for i in 0..count
        invariant
            count == head.len(),
            count <= lines@.len(),
            head == head_lines(lines@),
            find_parent == (|value: JsonView| parent_in(value)),
            find_cwd == (|value: JsonView| cwd_in(value)),
            match parent {
                Some(found) => first_in_lines(head, find_parent, 0) == Some(found@),
                None => first_in_lines(head, find_parent, 0) == first_in_lines(
                    head,
                    find_parent,
                    i as int,
                ),
            },
            match cwd {
                Some(found) => first_in_lines(head, find_cwd, 0) == Some(found@),
                None => first_in_lines(head, find_cwd, 0) == first_in_lines(
                    head,
                    find_cwd,
                    i as int,
                ),
            },
    {
        assert(head[i as int] == text::opt_text(lines@[i as int]));
        if parent.is_some() && cwd.is_some() {
            return SessionRolloutMeta { parent_thread_id: parent, cwd };
        }
        if let Some(line) = &lines[i] {
            if let Some(value) = json::parse_json(line.as_str()) {
                if parent.is_none() {
                    parent = parent_thread(&value);
                }
                if cwd.is_none() {
                    cwd = working_directory(&value);
                }
            }
        }
    }
    SessionRolloutMeta { parent_thread_id: parent, cwd }
}

// ---------------------------------------------------------------------------
// Sessions
// ---------------------------------------------------------------------------

/// The event log of a session.
pub struct LogFinding {
    pub path: String,
    /// Its first lines, as far as they could be read, where the file could be opened.
    pub head: Option<Vec<Option<String>>>,
    /// Its end, where it could be read.
    pub tail: Option<Vec<u8>>,
}

/// A lock, and what was found out about it.
pub struct LockFinding {
    pub lock_name: String,
    /// The process in a terminal that holds it.
    pub cli_pid: Option<u32>,
    /// The process of the desktop app that holds it.
    pub desktop_pid: Option<u32>,
    pub log: Option<LogFinding>,
    /// The working directory of the process.
    pub process_cwd: Option<String>,
}

/// The process of a session: one in a terminal goes before one of the desktop app. No process
/// has the id zero.
pub open spec fn process_of(cli: Option<u32>, desktop: Option<u32>) -> Option<u32> {
    let pid = match cli {
        Some(pid) => pid,
        None => match desktop {
            Some(pid) => pid,
            None => 0,
        },
    };
    if pid == 0 {
        None
    } else {
        Some(pid)
    }
}

/// The process of a session, and whether it is that of the desktop app.
pub fn choose_process(cli: Option<u32>, desktop: Option<u32>) -> (r: Option<(u32, bool)>)
    ensures
        match process_of(cli, desktop) {
            Some(pid) => r == Some((pid, cli is None)),
            None => r is None,
        },
{
    let pid = match cli {
        Some(pid) => pid,
        None => match desktop {
            Some(pid) => pid,
            None => 0,
        },
    };
    if pid == 0 {
        None
    } else {
        Some((pid, cli.is_none()))
    }
}

impl LockFinding {
    /// The log tells of a session that started this one.
    pub open spec fn is_helper(self) -> bool {
        self.log matches Some(log) && log.head matches Some(head) && parent_of(head@) is Some
    }

    /// The directory of the session: that in its log goes before that of its process.
    pub open spec fn directory(self) -> Option<Seq<char>> {
        let in_log = match self.log {
            Some(log) => match log.head {
                Some(head) => cwd_of(head@),
                None => None,
            },
            None => None,
        };
        match in_log {
            Some(dir) => Some(dir),
            None => text::opt_text(self.process_cwd),
        }
    }

    /// The session that the lock tells of, where it is one to look after: it has a process, and
    /// was not started by another session, which looks after it.
    pub open spec fn session(self, managed: Seq<u32>, now: Moment) -> Option<SessionView> {
        match (session_of_lock(self.lock_name@), process_of(self.cli_pid, self.desktop_pid)) {
            (Some(id), Some(pid)) => if self.is_helper() {
                None
            } else {
                Some(
                    SessionView {
                        session_id: id,
                        pid,
                        cwd: self.directory(),
                        rollout_path: match self.log {
                            Some(log) => Some(log.path@),
                            None => None,
                        },
                        last_error: match self.log {
                            Some(log) => match log.tail {
                                Some(tail) => rollout::error_in_lines(
                                    text::lines_of(text::lossy_text(tail@)),
                                    id,
                                    now,
                                ),
                                None => None,
                            },
                            None => None,
                        },
                        is_managed: managed.contains(pid),
                        is_desktop: self.cli_pid is None,
                    },
                )
            },
            _ => None,
        }
    }
}

/// The sessions that the locks tell of, in turn.
pub open spec fn sessions_of(
    findings: Seq<LockFinding>,
    managed: Seq<u32>,
    now: Moment,
) -> Seq<SessionView>
    decreases findings.len(),
{
    if findings.len() == 0 {
        Seq::empty()
    } else {
        let before = sessions_of(findings.drop_last(), managed, now);
        match findings.last().session(managed, now) {
            Some(session) => before.push(session),
            None => before,
        }
    }
}

/// Whether a process is among those given.
fn is_among(pids: &Vec<u32>, pid: u32) -> (r: bool)
    ensures
        r == pids@.contains(pid),
{
    for i in 0..pids.len()
        invariant
            forall|k: int| 0 <= k < i ==> pids@[k] != pid,
    {
        if pids[i] == pid {
            return true;
        }
    }
    false
}

/// What an optional session says.
pub open spec fn opt_session(session: Option<ActiveCodexSession>) -> Option<SessionView> {
    match session {
        Some(s) => Some(s@),
        None => None,
    }
}

/// The session that a lock tells of at the given time, where it is one to look after.
pub fn describe_session(finding: LockFinding, managed_pids: &Vec<u32>, now: Moment) -> (r: Option<
    ActiveCodexSession,
>)
    ensures
        opt_session(r) == finding.session(managed_pids@, now),
{
    let session_id = match lock_session_id(finding.lock_name.as_str()) {
        Some(id) => id,
        None => {
            return None;
        },
    };
    let (pid, is_desktop) = match choose_process(finding.cli_pid, finding.desktop_pid) {
        Some(found) => found,
        None => {
            return None;
        },
    };
    let mut cwd: Option<String> = None;
    let mut rollout_path: Option<String> = None;
    let mut last_error = None;
    if let Some(log) = finding.log {
        if let Some(head) = log.head {
            let meta = inspect_session_meta(&head);
            if meta.parent_thread_id.is_some() {
                return None;
            }
            cwd = meta.cwd;
        }
        if let Some(tail) = log.tail {
            last_error = rollout::check_rollout_for_errors_at(
                tail.as_slice(),
                session_id.as_str(),
                now,
            );
        }
        rollout_path = Some(log.path);
    }
    if cwd.is_none() {
        cwd = finding.process_cwd;
    }
    let is_managed = is_among(managed_pids, pid);
    Some(
        ActiveCodexSession {
            session_id,
            pid,
            cwd,
            rollout_path,
            last_error,
            is_managed,
            is_desktop,
        },
    )
}

/// The sessions that the locks tell of at the given time, in turn.
pub fn find_active_sessions_at(
    findings: Vec<LockFinding>,
    managed_pids: &Vec<u32>,
    now: Moment,
) -> (r: Vec<ActiveCodexSession>)
    ensures
        tracker::session_views(r@) == sessions_of(findings@, managed_pids@, now),
{
    let ghost all = findings@;
    let mut r: Vec<ActiveCodexSession> = Vec::new();
    assert(all.take(0) =~= Seq::empty());
    assert(tracker::session_views(r@) =~= Seq::empty());
    for finding in it: findings
        invariant
            it.seq() == all,
            tracker::session_views(r@) == sessions_of(
                all.take(it.index() as int),
                managed_pids@,
                now,
            ),
    {
        proof {
            let i = it.index() as int;
            assert(all.take(i + 1).drop_last() =~= all.take(i));
            assert(all.take(i + 1).last() == finding);
        }
        let ghost before = tracker::session_views(r@);
        if let Some(session) = describe_session(finding, managed_pids, now) {
            r.push(session);
            assert(tracker::session_views(r@) =~= before.push(session@));
        }
    }
    assert(all.take(all.len() as int) =~= all);
    r
}

/// The sessions that the locks tell of now, in turn.
pub fn find_active_sessions(findings: Vec<LockFinding>, managed_pids: &Vec<u32>) -> (r: Vec<
    ActiveCodexSession,
>)
    ensures
        exists|now: Moment|
            now.wf() && tracker::session_views(r@) == #[trigger] sessions_of(
                findings@,
                managed_pids@,
                now,
            ),
{
    let now = moment::utc_now();
    find_active_sessions_at(findings, managed_pids, now)
}

/// Every session that is found has a process and an id, and is no helper of another one: there
/// is a lock that tells of it.
pub proof fn found_sessions_are_running(
    findings: Seq<LockFinding>,
    managed: Seq<u32>,
    now: Moment,
    i: int,
)
    requires
        0 <= i < sessions_of(findings, managed, now).len(),
    ensures
        ({
            let session = sessions_of(findings, managed, now)[i];
            &&& session.pid > 0
            &&& session.session_id.len() > 0
            &&& exists|k: int|
                0 <= k < findings.len() && !findings[k].is_helper() && (
                #[trigger] findings[k]).session(managed, now) == Some(session)
        }),
    decreases findings.len(),
{
    let before = sessions_of(findings.drop_last(), managed, now);
    if i < before.len() {
        found_sessions_are_running(findings.drop_last(), managed, now, i);
        let k = choose|k: int|
            0 <= k < findings.drop_last().len() && !findings.drop_last()[k].is_helper() && (
            #[trigger] findings.drop_last()[k]).session(managed, now) == Some(before[i]);
        assert(findings[k] == findings.drop_last()[k]);
    } else {
        let last = findings[findings.len() - 1];
        assert(findings.last() == last);
        assert(last.session(managed, now) == Some(sessions_of(findings, managed, now)[i]));
    }
}

/// A session of which no log was found, or whose log could not be read, or is empty, is in no
/// error.
pub proof fn unread_log_has_no_error(finding: LockFinding, managed: Seq<u32>, now: Moment)
    requires
        finding.log matches Some(log) ==> (log.tail matches Some(tail) ==> tail@.len() == 0),
    ensures
        finding.session(managed, now) matches Some(session) ==> session.last_error is None,
{
    if let Some(log) = finding.log {
        if let Some(tail) = log.tail {
            assert(tail@ =~= Seq::empty());
            if let Some(id) = session_of_lock(finding.lock_name@) {
                rollout_laws::empty_log_has_no_error(id, now);
            }
        }
    }
}

/// A session whose turn is running, of which the longer end of its log tells, is in no error.
///
/// Lines that tell of another event without the blanks at their ends are left out, and so is a
/// shorter end in which the rest of a line that begins before it is read as the end of a turn.
pub proof fn session_at_work_has_no_error(
    finding: LockFinding,
    log: LogFinding,
    file: Seq<u8>,
    managed: Seq<u32>,
    now: Moment,
)
    requires
        finding.log == Some(log),
        log.tail matches Some(tail) ==> tail@ == rollout_laws::tail_of(
            file,
            rollout::ERROR_WINDOW as int,
        ),
        rollout::turn_running(rollout_laws::tail_of(file, rollout::TURN_WINDOW as int)) == Ok::<
            bool,
            rollout::TurnUnknown,
        >(true),
        rollout_laws::read_the_same_trimmed(
            rollout_laws::lines_in(
                rollout_laws::whole_lines(file, rollout::ERROR_WINDOW as int),
            ),
        ),
        !(rollout_laws::newest_in_bytes(
            rollout_laws::cut_line(file, rollout::ERROR_WINDOW as int),
        ) matches Some(rollout::TurnView::Completed(_))),
    ensures
        finding.session(managed, now) matches Some(session) ==> session.last_error is None,
{
    if let Some(id) = session_of_lock(finding.lock_name@) {
        rollout_laws::file_of_a_running_turn_has_no_error(file, id, now);
    }
}

} // verus!
