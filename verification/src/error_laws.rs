//! Which error the end of an event log tells of.

use crate::errors::RecoveryError;
use crate::json;
use crate::json::{Json, JsonView};
use crate::moment::Moment;
use crate::rollout;
use crate::rollout::{TurnEvent, TurnUnknown, TurnView};
use crate::sessions::{DetectedSessionError, SessionErrorKind};
use crate::text;
use vstd::prelude::*;

verus! {

// ---------------------------------------------------------------------------
// Lines of a log
// ---------------------------------------------------------------------------

/// The line holds the quoted name of the start or of the end of a turn. Other lines are not read.
pub open spec fn is_read(line: Seq<char>) -> bool {
    text::contains_text(line, "\"task_started\""@) || text::contains_text(
        line,
        "\"task_complete\""@,
    )
}

/// The line tells of something of the given type, with the payload.
pub open spec fn tells_of(line: Seq<char>, kind: Seq<char>, payload: JsonView) -> bool {
    &&& is_read(line)
    &&& json::json_of(line) matches Some(value) && value.member("payload"@) == Some(payload)
    &&& payload.text_member("type"@) == Some(kind)
}

/// The line tells neither of the start nor of the end of a turn.
pub open spec fn tells_of_no_turn(line: Seq<char>) -> bool {
    forall|payload: JsonView|
        !(#[trigger] tells_of(line, "task_started"@, payload)) && !tells_of(
            line,
            "task_complete"@,
            payload,
        )
}

proof fn lemma_names_differ()
    ensures
        "task_started"@ != "task_complete"@,
{
    reveal_strlit("task_started");
    reveal_strlit("task_complete");
    assert("task_started"@.len() == 12);
    assert("task_complete"@.len() == 13);
}

proof fn lemma_event(line: Seq<char>)
    ensures
        forall|payload: JsonView| #[trigger]
            tells_of(line, "task_started"@, payload) ==> rollout::turn_event_in(line) == Some(
                TurnView::Started,
            ),
        forall|payload: JsonView| #[trigger]
            tells_of(line, "task_complete"@, payload) ==> rollout::turn_event_in(line) == Some(
                TurnView::Completed(payload),
            ),
        tells_of_no_turn(line) ==> rollout::turn_event_in(line) is None,
{
    lemma_names_differ();
    if tells_of_no_turn(line) && rollout::turn_event_in(line) is Some {
        let payload = json::json_of(line)->0.member("payload"@)->0;
        assert(!tells_of(line, "task_started"@, payload));
        assert(!tells_of(line, "task_complete"@, payload));
    }
}

/// The event of the last line that tells of one.
proof fn lemma_newest(lines: Seq<Seq<char>>, i: int)
    requires
        -1 <= i < lines.len(),
        forall|j: int| i < j < lines.len() ==> rollout::turn_event_in(#[trigger] lines[j]) is None,
        i >= 0 ==> rollout::turn_event_in(lines[i]) is Some,
    ensures
        i >= 0 ==> rollout::newest_event(lines) == rollout::turn_event_in(lines[i]),
        i < 0 ==> rollout::newest_event(lines) is None,
    decreases lines.len(),
{
    if lines.len() > 0 {
        let n = lines.len() - 1;
        assert(lines.last() == lines[n]);
        if i < n {
            let rest = lines.drop_last();
            assert forall|j: int| i < j < rest.len() implies rollout::turn_event_in(
                #[trigger] rest[j],
            ) is None by {
                assert(rest[j] == lines[j]);
            }
            lemma_newest(rest, i);
        }
    }
}

// ---------------------------------------------------------------------------
// The error of the last turn
// ---------------------------------------------------------------------------

/// The lines of the end of a log, without the blanks at their ends.
pub open spec fn plain_lines(tail: Seq<u8>) -> Seq<Seq<char>> {
    text::lines_of(text::lossy_text(tail)).map_values(|line: Seq<char>| text::trimmed(line))
}

/// What the error of a turn says.
pub open spec fn message_of(error: JsonView) -> Seq<char> {
    match error.text_member("message"@) {
        Some(message) => message,
        None => Seq::empty(),
    }
}

/// The kind of an error: its code decides, whatever the message. Where the code is neither of the
/// two, the message decides. An error that neither names is none that can be recovered from.
pub open spec fn is_of_kind(error: JsonView, kind: Option<SessionErrorKind>) -> bool {
    let code = error.text_member("codex_error_info"@);
    let message = message_of(error);
    if code == Some("usage_limit_exceeded"@) {
        kind == Some(SessionErrorKind::UsageLimitExceeded)
    } else if code == Some("server_overloaded"@) {
        kind == Some(SessionErrorKind::ServerOverloaded)
    } else if text::contains_text(message, "usage limit"@) {
        kind == Some(SessionErrorKind::UsageLimitExceeded)
    } else if text::contains_text(message, "Selected model is at capacity"@) {
        kind == Some(SessionErrorKind::ServerOverloaded)
    } else {
        kind is None
    }
}

/// The kind of an error that was found.
pub open spec fn kind_of(error: Option<DetectedSessionError>) -> Option<SessionErrorKind> {
    match error {
        Some(found) => Some(found.kind),
        None => None,
    }
}

/// A code that names one of the two errors is believed, whatever the message says.
pub proof fn code_decides(code: &str, message: &str, r: Option<SessionErrorKind>)
    requires
        call_ensures(rollout::classify_error, (Some(code), message), r),
    ensures
        code@ == "usage_limit_exceeded"@ ==> r == Some(SessionErrorKind::UsageLimitExceeded),
        code@ == "server_overloaded"@ ==> r == Some(SessionErrorKind::ServerOverloaded),
{
    lemma_codes_differ();
}

proof fn lemma_codes_differ()
    ensures
        "usage_limit_exceeded"@ != "server_overloaded"@,
{
    reveal_strlit("usage_limit_exceeded");
    reveal_strlit("server_overloaded");
    assert("usage_limit_exceeded"@.len() == 20);
    assert("server_overloaded"@.len() == 17);
}

/// Where the code names neither of the two errors, or there is none, the message decides: one that
/// speaks of the usage limit before one that says that the model is at capacity. A message that
/// says neither is that of no error that can be recovered from.
pub proof fn message_decides_without_a_code(
    code: Option<&str>,
    message: &str,
    r: Option<SessionErrorKind>,
)
    requires
        call_ensures(rollout::classify_error, (code, message), r),
        code matches Some(name) ==> name@ != "usage_limit_exceeded"@ && name@
            != "server_overloaded"@,
    ensures
        text::contains_text(message@, "usage limit"@) <==> r == Some(
            SessionErrorKind::UsageLimitExceeded,
        ),
        text::contains_text(message@, "Selected model is at capacity"@) && !text::contains_text(
            message@,
            "usage limit"@,
        ) <==> r == Some(SessionErrorKind::ServerOverloaded),
{
}

/// Where the last line of a log that tells of a turn tells of its end, the error in it is the error
/// of the session: of the kind that its code or its message names, with the turn and the message
/// that it names, for the session that was asked about, at the time of asking. No error, or one
/// that is null, is none.
pub proof fn end_of_the_last_turn_tells_the_error(
    tail: &[u8],
    session_id: &str,
    now: Moment,
    r: Option<DetectedSessionError>,
    i: int,
    payload: JsonView,
)
    requires
        call_ensures(rollout::check_rollout_for_errors_at, (tail, session_id, now), r),
        0 <= i < plain_lines(tail@).len(),
        tells_of(plain_lines(tail@)[i], "task_complete"@, payload),
        forall|j: int|
            i < j < plain_lines(tail@).len() ==> tells_of_no_turn(
                #[trigger] plain_lines(tail@)[j],
            ),
    ensures
        match payload.member("error"@) {
            None => r is None,
            Some(JsonView::Null) => r is None,
            Some(error) => is_of_kind(error, kind_of(r)) && (r matches Some(found) ==> {
                &&& found.session_id@ == session_id@
                &&& text::opt_text(found.turn_id) == payload.text_member("turn_id"@)
                &&& found.message@ == message_of(error)
                &&& found.detected_at == now
            }),
        },
{
    let lines = plain_lines(tail@);
    assert(lines == rollout::trimmed_lines(text::lines_of(text::lossy_text(tail@))));
    lemma_event(lines[i]);
    assert forall|j: int| i < j < lines.len() implies rollout::turn_event_in(
        #[trigger] lines[j],
    ) is None by {
        lemma_event(lines[j]);
    }
    lemma_newest(lines, i);
    if let Some(found) = r {
        assert(crate::sessions::opt_error(r) == Some(found@));
    }
}

/// Where the last line of a log that tells of a turn tells of its start, or no line tells of one,
/// the session is in no error.
pub proof fn started_turn_is_no_error(
    tail: &[u8],
    session_id: &str,
    now: Moment,
    r: Option<DetectedSessionError>,
    i: int,
    payload: JsonView,
)
    requires
        call_ensures(rollout::check_rollout_for_errors_at, (tail, session_id, now), r),
        -1 <= i < plain_lines(tail@).len(),
        i >= 0 ==> tells_of(plain_lines(tail@)[i], "task_started"@, payload),
        forall|j: int|
            i < j < plain_lines(tail@).len() ==> tells_of_no_turn(
                #[trigger] plain_lines(tail@)[j],
            ),
    ensures
        r is None,
{
    let lines = plain_lines(tail@);
    assert(lines == rollout::trimmed_lines(text::lines_of(text::lossy_text(tail@))));
    if i >= 0 {
        lemma_event(lines[i]);
    }
    assert forall|j: int| i < j < lines.len() implies rollout::turn_event_in(
        #[trigger] lines[j],
    ) is None by {
        lemma_event(lines[j]);
    }
    lemma_newest(lines, i);
}

/// The error that is found now is the one that is found at a time.
pub proof fn error_is_the_same_now(
    tail: &[u8],
    session_id: &str,
    now: Moment,
    r: Option<DetectedSessionError>,
    at: Option<DetectedSessionError>,
)
    requires
        call_ensures(rollout::check_rollout_for_errors, (tail, session_id), r),
        call_ensures(rollout::check_rollout_for_errors_at, (tail, session_id, now), at),
    ensures
        r is Some <==> at is Some,
        kind_of(r) == kind_of(at),
        r matches Some(found) ==> {
            &&& found.session_id@ == at->0.session_id@
            &&& text::opt_text(found.turn_id) == text::opt_text(at->0.turn_id)
            &&& found.message@ == at->0.message@
        },
{
    let lines = text::lines_of(text::lossy_text(tail@));
    if r is None {
        assert(rollout::error_in_lines(lines, session_id@, now) is None);
    } else {
        assert(Some(r->0@) == rollout::error_in_lines(lines, session_id@, r->0.detected_at));
    }
    if at is Some {
        assert(Some(at->0@) == rollout::error_in_lines(lines, session_id@, now));
    }
}

/// The payload of the end of a turn tells the same error as the log in which it stands last.
pub proof fn payload_tells_the_error(
    payload: &Json,
    session_id: &str,
    now: Moment,
    r: Option<DetectedSessionError>,
)
    requires
        call_ensures(rollout::session_error, (payload, session_id, now), r),
    ensures
        match payload@.member("error"@) {
            None => r is None,
            Some(JsonView::Null) => r is None,
            Some(error) => is_of_kind(error, kind_of(r)) && (r matches Some(found) ==> {
                &&& found.session_id@ == session_id@
                &&& text::opt_text(found.turn_id) == payload@.text_member("turn_id"@)
                &&& found.message@ == message_of(error)
                &&& found.detected_at == now
            }),
        },
{
    if let Some(found) = r {
        assert(crate::sessions::opt_error(r) == Some(found@));
    }
}

// ---------------------------------------------------------------------------
// Whether a turn is running
// ---------------------------------------------------------------------------

/// A turn is running if the last line that tells of one tells of its start, and is not if it tells
/// of its end. It cannot be said where no line tells of one, or the bytes are no text.
pub proof fn last_line_tells_whether_a_turn_runs(
    tail: Vec<u8>,
    r: Result<bool, TurnUnknown>,
    i: int,
    payload: JsonView,
)
    requires
        call_ensures(rollout::rollout_has_active_turn, (tail,), r),
        vstd::utf8::valid_utf8(tail@) ==> {
            let lines = text::lines_of(vstd::utf8::decode_utf8(tail@));
            &&& -1 <= i < lines.len()
            &&& i >= 0 ==> tells_of(lines[i], "task_started"@, payload) || tells_of(
                lines[i],
                "task_complete"@,
                payload,
            )
            &&& forall|j: int| i < j < lines.len() ==> tells_of_no_turn(#[trigger] lines[j])
        },
    ensures
        ({
            let lines = text::lines_of(vstd::utf8::decode_utf8(tail@));
            if !vstd::utf8::valid_utf8(tail@) {
                r == Err::<bool, TurnUnknown>(TurnUnknown::NoText)
            } else if i < 0 {
                r == Err::<bool, TurnUnknown>(TurnUnknown::NoEvent)
            } else {
                r == Ok::<bool, TurnUnknown>(tells_of(lines[i], "task_started"@, payload))
            }
        }),
{
    if vstd::utf8::valid_utf8(tail@) {
        let lines = text::lines_of(vstd::utf8::decode_utf8(tail@));
        lemma_names_differ();
        if i >= 0 {
            lemma_event(lines[i]);
        }
        assert forall|j: int| i < j < lines.len() implies rollout::turn_event_in(
            #[trigger] lines[j],
        ) is None by {
            lemma_event(lines[j]);
        }
        lemma_newest(lines, i);
    }
}

/// The end of a log is its last bytes, as many as there are up to the window.
pub proof fn tail_is_the_last_bytes(size: u64, window: u64, r: u64)
    requires
        call_ensures(rollout::tail_offset, (size, window), r),
    ensures
        r <= size,
        size - r <= window,
        size <= window ==> r == 0,
        size > window ==> size - r == window,
{
}

/// An error is looked for in the last 65536 bytes of a log, a running turn in the last 1048576.
pub proof fn windows_are_fixed()
    ensures
        rollout::ERROR_WINDOW == 65_536,
        rollout::TURN_WINDOW == 1_048_576,
{
}

// ---------------------------------------------------------------------------
// Events and messages
// ---------------------------------------------------------------------------

/// A value tells of the start or the end of a turn by the type of its payload, and of the end with
/// the payload.
pub proof fn payload_tells_of_the_turn(value: &Json, r: Option<TurnEvent>)
    requires
        call_ensures(rollout::turn_event, (value,), r),
    ensures
        ({
            let kind = match value@.member("payload"@) {
                Some(payload) => payload.text_member("type"@),
                None => None,
            };
            &&& kind == Some("task_started"@) ==> r is Some && r->0 is Started
            &&& kind == Some("task_complete"@) ==> r is Some && r->0 is Completed
            &&& r is Some ==> kind == Some("task_started"@) || kind == Some("task_complete"@)
            &&& r matches Some(TurnEvent::Completed(payload)) ==> value@.member("payload"@)
                == Some(payload@)
        }),
{
    lemma_names_differ();
    let view = rollout::opt_turn(r);
}

/// What an error is reported as. One from outside is reported in its own words.
pub proof fn errors_are_reported(error: &RecoveryError, r: String)
    requires
        call_ensures(RecoveryError::message, (error,), r),
    ensures
        match error {
            RecoveryError::NoEligibleAccount => r@
                == "No eligible fallback account found with available limits"@,
            RecoveryError::DesktopUnsupported => r@
                == "Desktop recovery is not supported on this platform"@,
            RecoveryError::ActiveAccountChanged => r@
                == "Active account changed during auto recovery"@,
            RecoveryError::AnotherCliOpen => r@
                == "Another CLI session is open; deferring desktop account handoff"@,
            RecoveryError::HistoryUnavailable => r@ == "Desktop session history is unavailable"@,
            RecoveryError::HistoryNoText => r@ == "stream did not contain valid UTF-8"@,
            RecoveryError::TurnUnknown => r@
                == "Cannot determine whether another Codex turn is active"@,
            RecoveryError::AnotherTurnActive => r@
                == "Another desktop turn is active; deferring account handoff"@,
            RecoveryError::NotOneDesktop => r@
                == "Expected one Codex desktop process; deferring account handoff"@,
            RecoveryError::DesktopNotRecorded => r@
                == "Could not record Codex desktop for reopening"@,
            RecoveryError::DesktopNotClean => r@
                == "Codex desktop did not close cleanly; account was not switched"@,
            RecoveryError::AnotherProcess => r@
                == "Another Codex process is running; deferring CLI account handoff"@,
            RecoveryError::DesktopNotQuit => r@ == "Could not gracefully close Codex desktop"@,
            RecoveryError::DesktopNotClosed => r@
                == "Codex desktop did not close; account was not switched"@,
            RecoveryError::NothingStarted => r@
                == "Codex could not start a continuation in any desktop session"@,
            RecoveryError::Outside(message) => r@ == message@,
        },
{
}

} // verus!
