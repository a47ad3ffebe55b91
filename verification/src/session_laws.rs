//! Which sessions are found, and what is found of them.

use crate::discovery;
use crate::discovery::{LockFinding, SessionRolloutMeta};
use crate::json;
use crate::json::{Json, JsonView};
use crate::moment::Moment;
use crate::rollout;
use crate::sessions;
use crate::sessions::{ActiveCodexSession, DetectedSessionError};
use crate::text;
use crate::tracker;
use vstd::prelude::*;

verus! {

// ---------------------------------------------------------------------------
// Locks
// ---------------------------------------------------------------------------

/// A lock of the session of an id: the id, which is not empty, does not begin with a dot and does
/// not end with `.lock`, and then `.lock`.
pub open spec fn is_plain_lock(name: Seq<char>, id: Seq<char>) -> bool {
    &&& id.len() > 0
    &&& id[0] != '.'
    &&& !text::ends_with_text(id, ".lock"@)
    &&& name == id + ".lock"@
}

/// Every file whose name is an id and then `.lock` is the lock of the session of that id.
pub proof fn lock_bears_the_id(name: &str, id: Seq<char>, r: Option<String>)
    requires
        call_ensures(discovery::lock_session_id, (name,), r),
        is_plain_lock(name@, id),
    ensures
        r matches Some(found) && found@ == id,
{
    reveal_strlit(".lock");
    let n = name@.len() as int;
    assert(name@.take(n - 5) =~= id);
    assert(name@.subrange(n - 5, n) =~= ".lock"@);
    assert(text::ends_with_text(name@, ".lock"@));
    assert(discovery::without_lock(id) == id);
    assert(discovery::without_lock(name@) == id);
    assert(name@[0] == id[0]);
}

/// A further `.lock` behind the name of a lock does not change whose lock it is.
pub proof fn further_ending_changes_nothing(
    name: &str,
    longer: &str,
    r: Option<String>,
    s: Option<String>,
)
    requires
        text::ends_with_text(name@, ".lock"@),
        longer@ == name@ + ".lock"@,
        call_ensures(discovery::lock_session_id, (name,), r),
        call_ensures(discovery::lock_session_id, (longer,), s),
    ensures
        text::opt_text(r) == text::opt_text(s),
{
    reveal_strlit(".lock");
    let n = longer@.len() as int;
    assert(longer@.take(n - 5) =~= name@);
    assert(longer@.subrange(n - 5, n) =~= ".lock"@);
    assert(text::ends_with_text(longer@, ".lock"@));
    assert(longer@[0] == name@[0]);
}

/// A file whose name does not end with `.lock`, begins with a dot, or is nothing but `.lock`, is
/// the lock of no session; and the id of a session is not empty, stands at the start of the name of
/// its lock and does not end with `.lock`.
pub proof fn other_files_are_no_locks(name: &str, r: Option<String>)
    requires
        call_ensures(discovery::lock_session_id, (name,), r),
    ensures
        !text::ends_with_text(name@, ".lock"@) ==> r is None,
        name@.len() > 0 && name@[0] == '.' ==> r is None,
        r matches Some(id) ==> {
            &&& id@.len() > 0
            &&& id@.len() + 5 <= name@.len()
            &&& name@.take(id@.len() as int) == id@
            &&& !text::ends_with_text(id@, ".lock"@)
        },
{
    reveal_strlit(".lock");
    discovery::lock_names_are_stripped(name@);
    lemma_prefix(name@);
    if let Some(id) = r {
        let whole = discovery::without_lock(name@);
        assert(id@ == whole);
        lemma_multiple(name@);
    }
}

proof fn lemma_prefix(name: Seq<char>)
    ensures
        discovery::without_lock(name).len() <= name.len(),
        name.take(discovery::without_lock(name).len() as int) == discovery::without_lock(name),
    decreases name.len(),
{
    if name.len() >= 5 && text::ends_with_text(name, ".lock"@) {
        let rest = name.take(name.len() - 5);
        lemma_prefix(rest);
        let k = discovery::without_lock(rest).len() as int;
        assert(name.take(k) =~= rest.take(k));
    } else {
        assert(name.take(name.len() as int) =~= name);
    }
}

proof fn lemma_multiple(name: Seq<char>)
    requires
        name.len() >= 5,
        text::ends_with_text(name, ".lock"@),
    ensures
        discovery::without_lock(name).len() + 5 <= name.len(),
{
    lemma_prefix(name.take(name.len() - 5));
}

// ---------------------------------------------------------------------------
// The head of a log
// ---------------------------------------------------------------------------

/// The line of a log at a position, which is one of the first fifty, tells of a text by way of its
/// JSON.
pub open spec fn line_tells(
    lines: Seq<Option<String>>,
    i: int,
    find: spec_fn(JsonView) -> Option<Seq<char>>,
    found: Seq<char>,
) -> bool {
    &&& 0 <= i < lines.len()
    &&& i < 50
    &&& lines[i] matches Some(line) && json::json_of(line@) matches Some(value) && find(value)
        == Some(found)
}

proof fn lemma_first(
    lines: Seq<Option<String>>,
    find: spec_fn(JsonView) -> Option<Seq<char>>,
    from: int,
)
    requires
        0 <= from,
    ensures
        match discovery::first_in_lines(discovery::head_lines(lines), find, from) {
            Some(found) => exists|i: int|
                from <= i && #[trigger] line_tells(lines, i, find, found) && forall|
                    j: int,
                    other: Seq<char>,
                |
                    from <= j < i ==> !#[trigger] line_tells(lines, j, find, other),
            None => forall|i: int, found: Seq<char>|
                from <= i ==> !#[trigger] line_tells(lines, i, find, found),
        },
    decreases lines.len() - from,
{
    let head = discovery::head_lines(lines);
    assert(head.len() == if lines.len() < 50 {
        lines.len() as int
    } else {
        50
    });
    if from < head.len() {
        assert(head[from] == text::opt_text(lines[from]));
        lemma_first(lines, find, from + 1);
        match discovery::found_in_line(head[from], find) {
            Some(found) => {
                assert(line_tells(lines, from, find, found));
            },
            None => {
                assert forall|found: Seq<char>| !#[trigger] line_tells(
                    lines,
                    from,
                    find,
                    found,
                ) by {}
                match discovery::first_in_lines(head, find, from + 1) {
                    Some(found) => {
                        let i = choose|i: int|
                            from + 1 <= i && #[trigger] line_tells(lines, i, find, found)
                                && forall|j: int, other: Seq<char>|
                                from + 1 <= j < i ==> !#[trigger] line_tells(
                                    lines,
                                    j,
                                    find,
                                    other,
                                );
                        assert forall|j: int, other: Seq<char>| from <= j < i implies !#[trigger]
                        line_tells(lines, j, find, other) by {
                            if j > from {
                                assert(from + 1 <= j);
                            }
                        }
                    },
                    None => {
                        assert forall|i: int, found: Seq<char>| from <= i implies !#[trigger]
                        line_tells(lines, i, find, found) by {
                            if i > from {
                                assert(from + 1 <= i);
                            }
                        }
                    },
                }
            },
        }
    }
}

/// The session that started the one that a value of a log is about: a text that is not empty.
pub open spec fn parent_told(value: JsonView) -> Option<Seq<char>> {
    match value.member("payload"@) {
        Some(payload) => match payload.text_member("parent_thread_id"@) {
            Some(parent) if parent.len() > 0 => Some(parent),
            _ => None,
        },
        None => None,
    }
}

/// A member of a member of a value.
pub open spec fn inner_member(
    value: JsonView,
    outer: Seq<char>,
    inner: Seq<char>,
) -> Option<JsonView> {
    match value.member(outer) {
        Some(found) => found.member(inner),
        None => None,
    }
}

/// The directory that a value of a log tells of: in its payload itself, else in the settings of the
/// thread, else in the local environment of its state. The first of these that is there counts; it
/// must be a text that is not empty.
pub open spec fn directory_told(value: JsonView) -> Option<Seq<char>> {
    match value.member("payload"@) {
        Some(payload) => {
            let own = payload.member("cwd"@);
            let of_thread = inner_member(payload, "thread_settings"@, "cwd"@);
            let environments = inner_member(payload, "state"@, "environments"@);
            let local = match environments {
                Some(found) => match inner_member(found, "environments"@, "local"@) {
                    Some(place) => place.member("cwd"@),
                    None => None,
                },
                None => None,
            };
            let first = if own is Some {
                own
            } else if of_thread is Some {
                of_thread
            } else {
                local
            };
            match first {
                Some(JsonView::Text(dir)) if dir.len() > 0 => Some(dir),
                _ => None,
            }
        },
        None => None,
    }
}

/// Each of the two things that the head of a log tells is told by the first of its first fifty
/// lines that tells of it.
pub proof fn head_tells_parent_and_directory(
    lines: &Vec<Option<String>>,
    r: SessionRolloutMeta,
)
    requires
        call_ensures(discovery::inspect_session_meta, (lines,), r),
    ensures
        ({
            let parent = |value: JsonView| parent_told(value);
            let directory = |value: JsonView| directory_told(value);
            &&& match r.parent_thread_id {
                Some(found) => exists|i: int| #[trigger]
                    line_tells(lines@, i, parent, found@) && forall|j: int, other: Seq<char>|
                        0 <= j < i ==> !#[trigger] line_tells(lines@, j, parent, other),
                None => forall|i: int, found: Seq<char>|
                    !#[trigger] line_tells(lines@, i, parent, found),
            }
            &&& match r.cwd {
                Some(found) => exists|i: int| #[trigger]
                    line_tells(lines@, i, directory, found@) && forall|j: int, other: Seq<char>|
                        0 <= j < i ==> !#[trigger] line_tells(lines@, j, directory, other),
                None => forall|i: int, found: Seq<char>|
                    !#[trigger] line_tells(lines@, i, directory, found),
            }
        }),
{
    let parent = |value: JsonView| parent_told(value);
    let directory = |value: JsonView| directory_told(value);
    lemma_parent_told();
    lemma_directory_told();
    lemma_first(lines@, parent, 0);
    lemma_first(lines@, directory, 0);
}

proof fn lemma_parent_told()
    ensures
        (|value: JsonView| parent_told(value)) == (|value: JsonView| discovery::parent_in(value)),
{
    assert forall|value: JsonView|
        parent_told(value) == #[trigger] discovery::parent_in(value) by {}
    assert((|value: JsonView| parent_told(value)) =~= (|value: JsonView|
        discovery::parent_in(value)));
}

proof fn lemma_directory_told()
    ensures
        (|value: JsonView| directory_told(value)) == (|value: JsonView| discovery::cwd_in(value)),
{
    assert forall|value: JsonView|
        directory_told(value) == #[trigger] discovery::cwd_in(value) by {}
    assert((|value: JsonView| directory_told(value)) =~= (|value: JsonView|
        discovery::cwd_in(value)));
}

// ---------------------------------------------------------------------------
// Sessions
// ---------------------------------------------------------------------------

/// A process in a terminal goes before one of the desktop app, and no process has the id zero.
pub proof fn terminal_goes_before_the_app(
    cli: Option<u32>,
    desktop: Option<u32>,
    r: Option<(u32, bool)>,
)
    requires
        call_ensures(discovery::choose_process, (cli, desktop), r),
    ensures
        cli matches Some(pid) ==> r == (if pid > 0 {
            Some((pid, false))
        } else {
            None
        }),
        cli is None ==> r == (match desktop {
            Some(pid) if pid > 0 => Some((pid, true)),
            _ => None,
        }),
{
}

/// The process that holds a lock.
pub open spec fn process_found(finding: LockFinding) -> u32 {
    match finding.cli_pid {
        Some(pid) => pid,
        None => match finding.desktop_pid {
            Some(pid) => pid,
            None => 0,
        },
    }
}

/// What the head of the log tells, where the log could be opened.
pub open spec fn head_found(finding: LockFinding) -> Option<Vec<Option<String>>> {
    match finding.log {
        Some(log) => log.head,
        None => None,
    }
}

/// A lock with an id, held by a process, is one of a session to look after, unless the head of its
/// log tells of a session that started it; and only then. The session has the id of the lock and
/// the process that holds it, runs in the app if no process in a terminal holds the lock, and is
/// one that was launched from here if its process is.
pub proof fn lock_with_a_process_is_a_session(
    finding: LockFinding,
    managed: &Vec<u32>,
    now: Moment,
    r: Option<ActiveCodexSession>,
    name: &str,
    id: Option<String>,
    meta: SessionRolloutMeta,
)
    requires
        call_ensures(discovery::describe_session, (finding, managed, now), r),
        name@ == finding.lock_name@,
        call_ensures(discovery::lock_session_id, (name,), id),
        head_found(finding) matches Some(head) ==> call_ensures(
            discovery::inspect_session_meta,
            (&head,),
            meta,
        ),
    ensures
        r is Some <==> id is Some && process_found(finding) > 0 && (head_found(finding) is Some
            ==> meta.parent_thread_id is None),
        r matches Some(session) ==> {
            &&& session.session_id@ == id->0@
            &&& session.pid == process_found(finding)
            &&& session.is_desktop == (finding.cli_pid is None)
            &&& session.is_managed == managed@.contains(session.pid)
            &&& match finding.log {
                Some(log) => session.rollout_path matches Some(path) && path@ == log.path@,
                None => session.rollout_path is None,
            }
            &&& if head_found(finding) is Some && meta.cwd is Some {
                text::opt_text(session.cwd) == text::opt_text(meta.cwd)
            } else {
                text::opt_text(session.cwd) == text::opt_text(finding.process_cwd)
            }
        },
{
    if let Some(session) = r {
        assert(discovery::opt_session(r) == Some(session@));
    }
}

/// The error of a session that is found is the one that the end of its log tells of; where there is
/// no log, or its end could not be read, it is in none.
pub proof fn session_is_in_the_error_of_its_log(
    finding: LockFinding,
    managed: &Vec<u32>,
    now: Moment,
    session: ActiveCodexSession,
    tail: &[u8],
    id: &str,
    error: Option<DetectedSessionError>,
)
    requires
        call_ensures(discovery::describe_session, (finding, managed, now), Some(session)),
        id@ == session.session_id@,
        call_ensures(rollout::check_rollout_for_errors_at, (tail, id, now), error),
    ensures
        finding.log is None ==> session.last_error is None,
        finding.log matches Some(log) ==> {
            &&& log.tail is None ==> session.last_error is None
            &&& log.tail matches Some(bytes) ==> (bytes@ == tail@ ==> sessions::opt_error(
                session.last_error,
            ) == sessions::opt_error(error))
        },
{
    assert(discovery::opt_session(Some(session)) == Some(session@));
}

/// The sessions of some locks, and then those of others, are the sessions of all of them.
pub proof fn sessions_are_found_lock_by_lock(
    findings: Seq<LockFinding>,
    more: Seq<LockFinding>,
    managed: Seq<u32>,
    now: Moment,
)
    ensures
        discovery::sessions_of(findings + more, managed, now) == discovery::sessions_of(
            findings,
            managed,
            now,
        ) + discovery::sessions_of(more, managed, now),
    decreases more.len(),
{
    if more.len() == 0 {
        assert(findings + more =~= findings);
        assert(discovery::sessions_of(findings, managed, now) + Seq::empty()
            =~= discovery::sessions_of(findings, managed, now));
    } else {
        assert((findings + more).drop_last() =~= findings + more.drop_last());
        assert((findings + more).last() == more.last());
        sessions_are_found_lock_by_lock(findings, more.drop_last(), managed, now);
        let before = discovery::sessions_of(findings, managed, now);
        let rest = discovery::sessions_of(more.drop_last(), managed, now);
        if let Some(session) = more.last().session(managed, now) {
            assert((before + rest).push(session) =~= before + rest.push(session));
        }
    }
}

/// Every lock of a session to look after is among the sessions that are found, every session that
/// is found is that of a lock, and there are as many as there are such locks.
pub proof fn every_session_is_found(
    findings: Vec<LockFinding>,
    managed: &Vec<u32>,
    now: Moment,
    r: Vec<ActiveCodexSession>,
    i: int,
    session: Option<ActiveCodexSession>,
)
    requires
        call_ensures(discovery::find_active_sessions_at, (findings, managed, now), r),
        0 <= i < findings@.len(),
        call_ensures(discovery::describe_session, (findings@[i], managed, now), session),
    ensures
        session matches Some(found) ==> exists|k: int|
            0 <= k < r@.len() && (#[trigger] r@[k])@ == found@,
        r@.len() <= findings@.len(),
        (forall|j: int|
            0 <= j < findings@.len() ==> (#[trigger] findings@[j]).session(managed@, now) is Some)
            ==> r@.len() == findings@.len(),
{
    let all = findings@;
    let views = tracker::session_views(r@);
    assert(views.len() == r@.len());
    lemma_count(all, managed@, now);
    if let Some(found) = session {
        assert(all[i].session(managed@, now) == Some(found@)) by {
            assert(discovery::opt_session(session) == Some(found@));
        }
        let k = lemma_place(all, managed@, now, i);
        assert(views[k] == r@[k]@);
    }
}

proof fn lemma_count(findings: Seq<LockFinding>, managed: Seq<u32>, now: Moment)
    ensures
        discovery::sessions_of(findings, managed, now).len() <= findings.len(),
        (forall|j: int|
            0 <= j < findings.len() ==> (#[trigger] findings[j]).session(managed, now) is Some)
            ==> discovery::sessions_of(findings, managed, now).len() == findings.len(),
    decreases findings.len(),
{
    if findings.len() > 0 {
        let rest = findings.drop_last();
        lemma_count(rest, managed, now);
        assert(findings.last() == findings[findings.len() - 1]);
        if forall|j: int|
            0 <= j < findings.len() ==> (#[trigger] findings[j]).session(managed, now) is Some {
            assert forall|j: int| 0 <= j < rest.len() implies (#[trigger] rest[j]).session(
                managed,
                now,
            ) is Some by {
                assert(rest[j] == findings[j]);
            }
        }
    }
}

proof fn lemma_place(findings: Seq<LockFinding>, managed: Seq<u32>, now: Moment, i: int) -> (k: int)
    requires
        0 <= i < findings.len(),
        findings[i].session(managed, now) is Some,
    ensures
        0 <= k < discovery::sessions_of(findings, managed, now).len(),
        discovery::sessions_of(findings, managed, now)[k] == findings[i].session(managed, now)->0,
    decreases findings.len(),
{
    let n = findings.len() - 1;
    let rest = findings.drop_last();
    let before = discovery::sessions_of(rest, managed, now);
    assert(findings.last() == findings[n]);
    if i < n {
        assert(rest[i] == findings[i]);
        let k = lemma_place(rest, managed, now, i);
        assert(discovery::sessions_of(findings, managed, now)[k] == before[k]);
        k
    } else {
        before.len() as int
    }
}

/// The session of a plain lock that a process holds, and whose log names no parent, is found.
pub proof fn session_of_a_plain_lock_is_found(
    findings: Vec<LockFinding>,
    managed: &Vec<u32>,
    now: Moment,
    r: Vec<ActiveCodexSession>,
    i: int,
    id: Seq<char>,
    name: &str,
    session: Option<ActiveCodexSession>,
    found_id: Option<String>,
    meta: SessionRolloutMeta,
)
    requires
        call_ensures(discovery::find_active_sessions_at, (findings, managed, now), r),
        0 <= i < findings@.len(),
        is_plain_lock(findings@[i].lock_name@, id),
        process_found(findings@[i]) > 0,
        head_found(findings@[i]) matches Some(head) ==> call_ensures(
            discovery::inspect_session_meta,
            (&head,),
            meta,
        ) && meta.parent_thread_id is None,
        call_ensures(discovery::describe_session, (findings@[i], managed, now), session),
        name@ == findings@[i].lock_name@,
        call_ensures(discovery::lock_session_id, (name,), found_id),
    ensures
        exists|k: int|
            0 <= k < r@.len() && (#[trigger] r@[k]).session_id@ == id && r@[k].pid
                == process_found(findings@[i]),
{
    lock_bears_the_id(name, id, found_id);
    lock_with_a_process_is_a_session(findings@[i], managed, now, session, name, found_id, meta);
    every_session_is_found(findings, managed, now, r, i, session);
    let k = choose|k: int| 0 <= k < r@.len() && (#[trigger] r@[k])@ == session->0@;
    assert(r@[k]@.session_id == id);
    assert(r@[k]@.pid == process_found(findings@[i]));
}

/// The sessions that are found now are those that are found at some time.
pub proof fn sessions_are_the_same_now(
    findings: Vec<LockFinding>,
    managed: &Vec<u32>,
    r: Vec<ActiveCodexSession>,
)
    requires
        call_ensures(discovery::find_active_sessions, (findings, managed), r),
    ensures
        exists|now: Moment|
            now.wf() && tracker::session_views(r@) == #[trigger] discovery::sessions_of(
                findings@,
                managed@,
                now,
            ),
{
}

/// A value of a log tells of the parent and of the directory.
pub proof fn value_tells_parent_and_directory(
    value: &Json,
    parent: Option<String>,
    directory: Option<String>,
)
    requires
        call_ensures(discovery::parent_thread, (value,), parent),
        call_ensures(discovery::working_directory, (value,), directory),
    ensures
        match parent {
            Some(found) => parent_told(value@) == Some(found@),
            None => parent_told(value@) is None,
        },
        match directory {
            Some(found) => directory_told(value@) == Some(found@),
            None => directory_told(value@) is None,
        },
{
}

} // verus!
