//! What the event log of a session, its rollout, tells of the last turn.
//!
//! The log holds one JSON value a line. The newest line that tells of the start or the end of a
//! turn counts.

use crate::json;
use crate::json::{Json, JsonView};
use crate::moment;
use crate::moment::Moment;
use crate::sessions;
use crate::sessions::{DetectedSessionError, ErrorView, SessionErrorKind};
use crate::text;
use vstd::prelude::*;

verus! {

/// The bytes at the end of a log that are searched for an error.
pub const ERROR_WINDOW: u64 = 65_536;

/// The bytes at the end of a log that are searched for a running turn.
pub const TURN_WINDOW: u64 = 1_048_576;

/// Where the last `window` bytes of a file begin, or the whole of a shorter one.
pub open spec fn tail_start(size: int, window: int) -> int {
    if size > window {
        size - window
    } else {
        0
    }
}

/// Where the last `window` bytes of a file of `size` bytes begin.
pub fn tail_offset(size: u64, window: u64) -> (r: u64)
    ensures
        r == tail_start(size as int, window as int),
{
    if size > window {
        size - window
    } else {
        0
    }
}

// ---------------------------------------------------------------------------
// Events of a turn
// ---------------------------------------------------------------------------

/// The start of a turn, or its end with the payload that tells of it.
pub enum TurnView {
    Started,
    Completed(JsonView),
}

/// The start of a turn, or its end with the payload that tells of it.
pub enum TurnEvent<'a> {
    Started,
    Completed(&'a Json),
}

/// What an optional event says.
pub open spec fn opt_turn(event: Option<TurnEvent>) -> Option<TurnView> {
    match event {
        Some(TurnEvent::Started) => Some(TurnView::Started),
        Some(TurnEvent::Completed(payload)) => Some(TurnView::Completed(payload@)),
        None => None,
    }
}

/// The event of a turn that a value of the log tells of.
pub open spec fn turn_event_of(value: JsonView) -> Option<TurnView> {
    match value.member("payload"@) {
        Some(payload) => if payload.text_member("type"@) == Some("task_started"@) {
            Some(TurnView::Started)
        } else if payload.text_member("type"@) == Some("task_complete"@) {
            Some(TurnView::Completed(payload))
        } else {
            None
        },
        None => None,
    }
}

/// The line holds the quoted name of an event of a turn.
pub open spec fn mentions_turn(line: Seq<char>) -> bool {
    text::contains_text(line, "\"task_started\""@) || text::contains_text(
        line,
        "\"task_complete\""@,
    )
}

/// The event of a turn that a line of the log tells of.
pub open spec fn turn_event_in(line: Seq<char>) -> Option<TurnView> {
    if mentions_turn(line) {
        match json::json_of(line) {
            Some(value) => turn_event_of(value),
            None => None,
        }
    } else {
        None
    }
}

/// The newest event of a turn in the lines.
pub open spec fn newest_event(lines: Seq<Seq<char>>) -> Option<TurnView>
    decreases lines.len(),
{
    if lines.len() == 0 {
        None
    } else {
        match turn_event_in(lines.last()) {
            Some(event) => Some(event),
            None => newest_event(lines.drop_last()),
        }
    }
}

/// The event of a turn that a value of the log tells of.
pub fn turn_event(value: &Json) -> (r: Option<TurnEvent<'_>>)
    ensures
        opt_turn(r) == turn_event_of(value@),
{
    match value.member("payload") {
        Some(payload) => match payload.text_member("type") {
            Some(kind) => if text::same_text(kind, "task_started") {
                Some(TurnEvent::Started)
            } else if text::same_text(kind, "task_complete") {
                proof {
                    lemma_event_names_differ();
                }
                Some(TurnEvent::Completed(payload))
            } else {
                None
            },
            None => None,
        },
        None => None,
    }
}

proof fn lemma_event_names_differ()
    ensures
        "task_started"@ != "task_complete"@,
{
    reveal_strlit("task_started");
    reveal_strlit("task_complete");
    assert("task_started"@.len() == 12);
    assert("task_complete"@.len() == 13);
}

/// Whether the line holds the quoted name of an event of a turn.
fn tells_of_turn(line: &str) -> (r: bool)
    ensures
        r == mentions_turn(line@),
{
    let chars = text::chars_of(line);
    text::has_text(&chars, "\"task_started\"") || text::has_text(&chars, "\"task_complete\"")
}

// ---------------------------------------------------------------------------
// Errors
// ---------------------------------------------------------------------------

/// The kind of an error with the given code and message, if it is one that can be recovered from.
pub open spec fn error_kind(code: Option<Seq<char>>, message: Seq<char>) -> Option<
    SessionErrorKind,
> {
    if code == Some("usage_limit_exceeded"@) {
        Some(SessionErrorKind::UsageLimitExceeded)
    } else if code == Some("server_overloaded"@) {
        Some(SessionErrorKind::ServerOverloaded)
    } else if text::contains_text(message, "usage limit"@) {
        Some(SessionErrorKind::UsageLimitExceeded)
    } else if text::contains_text(message, "Selected model is at capacity"@) {
        Some(SessionErrorKind::ServerOverloaded)
    } else {
        None
    }
}

/// The error with which a turn ended, of which the payload of its end tells.
pub open spec fn error_in(payload: JsonView, session_id: Seq<char>, now: Moment) -> Option<
    ErrorView,
> {
    match payload.member("error"@) {
        Some(error) => {
            let message = match error.text_member("message"@) {
                Some(message) => message,
                None => Seq::empty(),
            };
            match error_kind(error.text_member("codex_error_info"@), message) {
                Some(kind) if error != JsonView::Null => Some(
                    ErrorView {
                        kind,
                        session_id,
                        turn_id: payload.text_member("turn_id"@),
                        message,
                        detected_at: now,
                    },
                ),
                _ => None,
            }
        },
        None => None,
    }
}

/// The lines without the blanks at their ends.
pub open spec fn trimmed_lines(lines: Seq<Seq<char>>) -> Seq<Seq<char>> {
    lines.map_values(|line: Seq<char>| text::trimmed(line))
}

/// The error that the newest event of a turn in the log tells of: none while a turn is running.
pub open spec fn error_in_lines(
    lines: Seq<Seq<char>>,
    session_id: Seq<char>,
    now: Moment,
) -> Option<ErrorView> {
    match newest_event(trimmed_lines(lines)) {
        Some(TurnView::Completed(payload)) => error_in(payload, session_id, now),
        _ => None,
    }
}

/// The kind of an error with the given code and message, if it is one that can be recovered from.
/// A message that says that the limit was hit also names the usage limit.
pub fn classify_error(code: Option<&str>, message: &str) -> (r: Option<SessionErrorKind>)
    ensures
        r == error_kind(json::opt_str(code), message@),
{
    if let Some(name) = code {
        if text::same_text(name, "usage_limit_exceeded") {
            return Some(SessionErrorKind::UsageLimitExceeded);
        }
        if text::same_text(name, "server_overloaded") {
            return Some(SessionErrorKind::ServerOverloaded);
        }
    }
    if text::contains(message, "usage limit") {
        Some(SessionErrorKind::UsageLimitExceeded)
    } else if text::contains(message, "Selected model is at capacity") {
        Some(SessionErrorKind::ServerOverloaded)
    } else {
        None
    }
}

/// The error with which a turn ended, of which the payload of its end tells.
pub fn session_error(payload: &Json, session_id: &str, now: Moment) -> (r: Option<
    DetectedSessionError,
>)
    ensures
        sessions::opt_error(r) == error_in(payload@, session_id@, now),
{
    match payload.member("error") {
        Some(error) => {
            if error.is_null() {
                return None;
            }
            let message = match error.text_member("message") {
                Some(message) => message.to_owned(),
                None => String::new(),
            };
            match classify_error(error.text_member("codex_error_info"), message.as_str()) {
                Some(kind) => {
                    let turn_id = match payload.text_member("turn_id") {
                        Some(turn) => Some(turn.to_owned()),
                        None => None,
                    };
                    Some(
                        DetectedSessionError {
                            kind,
                            session_id: session_id.to_owned(),
                            turn_id,
                            message,
                            detected_at: now,
                        },
                    )
                },
                None => None,
            }
        },
        None => None,
    }
}

/// The error that the newest event of a turn in the lines tells of.
fn find_error(lines: &Vec<String>, session_id: &str, now: Moment) -> (r: Option<
    DetectedSessionError,
>)
    ensures
        sessions::opt_error(r) == error_in_lines(text::texts(lines@), session_id@, now),
{
    let ghost all = trimmed_lines(text::texts(lines@));
    let mut i: usize = lines.len();
    assert(all.take(i as int) =~= all);
    while i > 0
        invariant
            i <= lines@.len(),
            all == trimmed_lines(text::texts(lines@)),
            newest_event(all.take(i as int)) == newest_event(all),
        decreases i,
    {
        let line = text::trim(lines[i - 1].as_str());
        assert(line@ == all.take(i as int).last());
        assert(all.take(i as int).drop_last() =~= all.take(i - 1));
        i = i - 1;
        if tells_of_turn(line.as_str()) {
            if let Some(value) = json::parse_json(line.as_str()) {
                match turn_event(&value) {
                    Some(TurnEvent::Started) => {
                        return None;
                    },
                    Some(TurnEvent::Completed(payload)) => {
                        return session_error(payload, session_id, now);
                    },
                    None => {},
                }
            }
        }
    }
    None
}

/// The error that the last turn of a session ended with at the given time: `tail` is the end of
/// its log.
pub fn check_rollout_for_errors_at(tail: &[u8], session_id: &str, now: Moment) -> (r: Option<
    DetectedSessionError,
>)
    ensures
        sessions::opt_error(r) == error_in_lines(
            text::lines_of(text::lossy_text(tail@)),
            session_id@,
            now,
        ),
{
    let content = text::decode_lossy(tail);
    let lines = text::lines(content.as_str());
    find_error(&lines, session_id, now)
}

/// The error that the last turn of a session ended with: `tail` is the end of its log.
pub fn check_rollout_for_errors(tail: &[u8], session_id: &str) -> (r: Option<DetectedSessionError>)
    ensures
        match r {
            Some(error) => error.detected_at.wf() && Some(error@) == error_in_lines(
                text::lines_of(text::lossy_text(tail@)),
                session_id@,
                error.detected_at,
            ),
            None => forall|now: Moment|
                #[trigger] error_in_lines(
                    text::lines_of(text::lossy_text(tail@)),
                    session_id@,
                    now,
                ) is None,
        },
{
    let now = moment::utc_now();
    let r = check_rollout_for_errors_at(tail, session_id, now);
    assert(r is None ==> error_in_lines(
        text::lines_of(text::lossy_text(tail@)),
        session_id@,
        now,
    ) is None);
    r
}

// ---------------------------------------------------------------------------
// Running turns
// ---------------------------------------------------------------------------

/// Why it cannot be said whether a turn is running.
#[derive(Clone, Copy, Debug, PartialEq, Eq, Structural)]
pub enum TurnUnknown {
    /// The end of the log is no text.
    NoText,
    /// The end of the log tells of no turn.
    NoEvent,
}

/// Whether a turn is running, of which the newest event in the log tells.
pub open spec fn turn_running(tail: Seq<u8>) -> Result<bool, TurnUnknown> {
    match text::strict_text(tail) {
        Some(content) => match newest_event(text::lines_of(content)) {
            Some(TurnView::Started) => Ok(true),
            Some(TurnView::Completed(_)) => Ok(false),
            None => Err(TurnUnknown::NoEvent),
        },
        None => Err(TurnUnknown::NoText),
    }
}

/// Whether a turn of a session is running: `tail` is the end of its log.
pub fn rollout_has_active_turn(tail: Vec<u8>) -> (r: Result<bool, TurnUnknown>)
    ensures
        r == turn_running(tail@),
{
    let content = match text::decode_strict(tail) {
        Some(content) => content,
        None => {
            return Err(TurnUnknown::NoText);
        },
    };
    let lines = text::lines(content.as_str());
    let ghost all = text::texts(lines@);
    let mut i: usize = lines.len();
    assert(all.take(i as int) =~= all);
    while i > 0
        invariant
            i <= lines@.len(),
            all == text::texts(lines@),
            text::strict_text(tail@) == Some(content@),
            all == text::lines_of(content@),
            newest_event(all.take(i as int)) == newest_event(all),
        decreases i,
    {
        assert(lines@[i - 1]@ == all.take(i as int).last());
        assert(all.take(i as int).drop_last() =~= all.take(i - 1));
        i = i - 1;
        let line = lines[i].as_str();
        if tells_of_turn(line) {
            if let Some(value) = json::parse_json(line) {
                match turn_event(&value) {
                    Some(TurnEvent::Started) => {
                        return Ok(true);
                    },
                    Some(TurnEvent::Completed(_)) => {
                        return Ok(false);
                    },
                    None => {},
                }
            }
        }
    }
    Err(TurnUnknown::NoEvent)
}

} // verus!
