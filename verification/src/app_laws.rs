//! How the desktop app is dealt with: when it may be closed, and how its sessions go on.

use crate::desktop;
use crate::desktop::{
    DesktopResume, GoalLookup, Reply, ResumeStep, RunningProcess, SessionLog, ThreadStage,
    TurnCountdown, TurnStage,
};
use crate::errors::RecoveryError;
use crate::json;
use crate::json::JsonView;
use crate::rollout;
use crate::rollout::TurnUnknown;
use crate::sessions::ActiveCodexSession;
use crate::text;
use vstd::prelude::*;

verus! {

// ---------------------------------------------------------------------------
// Whether the app may be closed
// ---------------------------------------------------------------------------

/// Nothing is lost of a session when the app is closed, or else the error says why something is.
pub open spec fn stands_in_the_way(
    other: SessionLog,
    session_id: Seq<char>,
    error: Option<RecoveryError>,
) -> bool {
    if other.session.session_id@ == session_id {
        error is None
    } else if !other.session.is_desktop {
        error == Some(RecoveryError::AnotherCliOpen)
    } else if other.session.rollout_path is None {
        error == Some(RecoveryError::HistoryUnavailable)
    } else if let Err(message) = other.tail {
        error == Some(RecoveryError::Outside(message))
    } else {
        let running = rollout::turn_running(other.tail->Ok_0@);
        &&& running == Ok::<bool, TurnUnknown>(true) ==> error == Some(
            RecoveryError::AnotherTurnActive,
        )
        &&& running == Ok::<bool, TurnUnknown>(false) ==> error is None
        &&& running == Err::<bool, TurnUnknown>(TurnUnknown::NoText) ==> error == Some(
            RecoveryError::HistoryNoText,
        )
        &&& running == Err::<bool, TurnUnknown>(TurnUnknown::NoEvent) ==> error == Some(
            RecoveryError::TurnUnknown,
        )
    }
}

/// The app may be closed if no session stands in the way; else the first that does says why not.
pub proof fn first_session_in_the_way_is_the_reason(
    session_id: &str,
    others: Vec<SessionLog>,
    r: Result<(), RecoveryError>,
    i: int,
)
    requires
        call_ensures(desktop::desktop_handoff_is_exclusive, (session_id, others), r),
        0 <= i <= others@.len(),
        forall|j: int|
            0 <= j < i ==> stands_in_the_way(#[trigger] others@[j], session_id@, None),
    ensures
        i == others@.len() ==> r is Ok,
        i < others@.len() ==> forall|error: RecoveryError| #[trigger]
            stands_in_the_way(others@[i], session_id@, Some(error)) ==> r == Err::<
                (),
                RecoveryError,
            >(error),
{
    lemma_first_obstacle(others@, 0, session_id@, i);
}

proof fn lemma_first_obstacle(others: Seq<SessionLog>, from: int, session_id: Seq<char>, i: int)
    requires
        0 <= from <= i <= others.len(),
        forall|j: int|
            from <= j < i ==> stands_in_the_way(#[trigger] others[j], session_id, None),
    ensures
        i == others.len() ==> desktop::first_obstacle(others, from, session_id) is None,
        i < others.len() ==> forall|error: RecoveryError| #[trigger]
            stands_in_the_way(others[i], session_id, Some(error)) ==> desktop::first_obstacle(
                others,
                from,
                session_id,
            ) == Some(error),
    decreases i - from,
{
    if from < i {
        assert(stands_in_the_way(others[from], session_id, None));
        assert(desktop::obstacle(others[from], session_id) is None);
        lemma_first_obstacle(others, from + 1, session_id, i);
    }
}

/// The app is the one process that runs; the session is all that runs; the session and the app are
/// all that runs.
pub proof fn processes_are_counted(
    processes: &Vec<RunningProcess>,
    pid: u32,
    count: usize,
    first_is_desktop: bool,
    sole: bool,
    alone: bool,
    beside: bool,
)
    requires
        call_ensures(desktop::is_sole_desktop, (count, first_is_desktop), sole),
        call_ensures(desktop::is_alone, (processes, pid), alone),
        call_ensures(desktop::is_beside_desktop, (processes, pid), beside),
    ensures
        sole <==> count == 1 && first_is_desktop,
        alone <==> processes@.len() == 1 && processes@[0].pid == pid,
        beside ==> processes@.len() == 2,
        processes@.len() == 2 && processes@[0].pid == pid && processes@[1].pid != pid ==> (beside
            <==> processes@[1].is_desktop_root),
        processes@.len() == 2 && processes@[1].pid == pid && processes@[0].pid != pid ==> (beside
            <==> processes@[0].is_desktop_root),
        processes@.len() == 2 && processes@[0].pid != pid && processes@[1].pid != pid ==> !beside,
        processes@.len() == 2 && processes@[0].pid == pid && processes@[1].pid == pid ==> !beside,
{
}

// ---------------------------------------------------------------------------
// The protocol of the app server
// ---------------------------------------------------------------------------

/// Every request is a line of JSON with its id, its method and its parameters, in this order. The
/// first request has the id one; the thread of a session is resumed by its id, and a turn of it is
/// started with the phrase as its text.
pub proof fn requests_are_written_out(
    id: u64,
    method: &str,
    params: &str,
    session_id: &str,
    phrase: &str,
    request: String,
    first: String,
    thread: String,
    turn: String,
)
    requires
        call_ensures(desktop::app_server_request, (id, method, params), request),
        call_ensures(desktop::initialize_request, (), first),
        call_ensures(desktop::thread_request, (id, session_id), thread),
        call_ensures(desktop::turn_request, (id, session_id, phrase), turn),
    ensures
        request@ == "{\"id\":"@ + text::decimal_of(id as nat) + ",\"method\":"@
            + json::json_quoted(method@) + ",\"params\":"@ + params@ + "}\n"@,
        first@ == "{\"id\":"@ + text::decimal_of(1) + ",\"method\":"@ + json::json_quoted(
            "initialize"@,
        ) + ",\"params\":"@
            + "{\"clientInfo\":{\"name\":\"codex-switcher\",\"version\":\"0.2.20\"}}"@ + "}\n"@,
        thread@ == "{\"id\":"@ + text::decimal_of(id as nat) + ",\"method\":"@
            + json::json_quoted("thread/resume"@) + ",\"params\":"@ + ("{\"threadId\":"@
            + json::json_quoted(session_id@) + "}"@) + "}\n"@,
        turn@ == "{\"id\":"@ + text::decimal_of(id as nat) + ",\"method\":"@ + json::json_quoted(
            "turn/start"@,
        ) + ",\"params\":"@ + ("{\"input\":[{\"text\":"@ + json::json_quoted(phrase@)
            + ",\"type\":\"text\"}],\"threadId\":"@ + json::json_quoted(session_id@) + "}"@)
            + "}\n"@,
{
}

/// A line answers a request if it is JSON with the id of the request. It says that the request
/// failed if it has an error, whatever else it has, and that it was carried out if it has a result.
pub proof fn answers_are_told_apart(line: &str, id: u64, r: Reply)
    requires
        call_ensures(desktop::app_server_response, (line, id), r),
    ensures
        r is Unreadable <==> json::json_of(line@) is None,
        json::json_of(line@) matches Some(value) ==> {
            let answers = value.member("id"@) == Some(JsonView::Number(Some(id)));
            let failed = value.member("error"@) is Some;
            let done = value.member("result"@) is Some;
            &&& r is Unrelated <==> !answers
            &&& r is Failed <==> answers && failed
            &&& r is Done <==> answers && !failed && done
            &&& r is Incomplete <==> answers && !failed && !done
        },
        r matches Reply::Failed(error) ==> json::member_json(line@, "error"@) == Some(error@),
{
    let view = r@;
}

/// A line tells that a turn has ended if it is JSON whose method says so.
pub proof fn ends_of_turns_are_heard(line: &str, r: bool)
    requires
        call_ensures(desktop::line_ends_turn, (line,), r),
    ensures
        r <==> (json::json_of(line@) matches Some(value) && value.text_member("method"@) == Some(
            "turn/completed"@,
        )),
{
}

// ---------------------------------------------------------------------------
// Resuming the sessions of the app
// ---------------------------------------------------------------------------

/// What follows once the sessions before a position are done with, and those of the given ids were
/// told to continue: the session at the position is next. Where there is none left, the run is over,
/// with the ids, and with an error where there is none.
pub open spec fn goes_on(
    step: ResumeStep,
    sessions: Seq<ActiveCodexSession>,
    phrase: Seq<char>,
    index: int,
    started: Seq<String>,
) -> bool {
    if index < sessions.len() {
        step matches ResumeStep::Thread(stage) && stage.run.sessions@ == sessions
            && stage.run.continue_phrase@ == phrase && stage.run.index == index
            && stage.run.started@ == started
    } else if started.len() > 0 {
        step matches ResumeStep::Finished(result) && result matches Ok(ids) && ids@ == started
    } else {
        step == ResumeStep::Finished(Err(RecoveryError::NothingStarted))
    }
}

/// A run begins with the first session. A session that could not be resumed, or whose turn could
/// not be started, is left out; one whose turn was started counts.
pub proof fn sessions_are_resumed_in_turn(
    sessions: Vec<ActiveCodexSession>,
    phrase: String,
    begun: ResumeStep,
    thread: ThreadStage,
    thread_refused: ResumeStep,
    turn: TurnStage,
    turn_started: ResumeStep,
    turn_refused: ResumeStep,
)
    requires
        call_ensures(DesktopResume::begin, (sessions, phrase), begun),
        thread.run.at_session(),
        turn.run.at_session(),
        call_ensures(ThreadStage::refused, (thread,), thread_refused),
        call_ensures(TurnStage::started, (turn,), turn_started),
        call_ensures(TurnStage::refused, (turn,), turn_refused),
    ensures
        goes_on(begun, sessions@, phrase@, 0, Seq::empty()),
        goes_on(
            thread_refused,
            thread.run.sessions@,
            thread.run.continue_phrase@,
            thread.run.index + 1,
            thread.run.started@,
        ),
        goes_on(
            turn_started,
            turn.run.sessions@,
            turn.run.continue_phrase@,
            turn.run.index + 1,
            turn.run.started@.push(turn.run.sessions@[turn.run.index as int].session_id),
        ),
        goes_on(
            turn_refused,
            turn.run.sessions@,
            turn.run.continue_phrase@,
            turn.run.index + 1,
            turn.run.started@,
        ),
{
    let run = choose|run: DesktopResume|
        {
            &&& #[trigger] run.leads_to(begun)
            &&& run.wf()
            &&& run.sessions == sessions
            &&& run.continue_phrase == phrase
            &&& run.index == 0
            &&& run.started@.len() == 0
        };
    assert(run.leads_to(begun));
    assert(run.started@ =~= Seq::empty());
}

/// The requests for a session have ids of their own, two for each session after the first request,
/// and are for that session; a turn is started with what the session is told to continue.
pub proof fn session_is_asked_for(
    thread: ThreadStage,
    lookup: GoalLookup,
    goal_active: bool,
    turn: TurnStage,
    resumed: GoalLookup,
    looked_up: TurnStage,
    thread_request: (u64, String),
    turn_request: (u64, String),
    thread_line: String,
    turn_line: String,
    thread_id: &str,
    turn_id: &str,
    phrase: &str,
)
    requires
        thread.run.at_session(),
        lookup.run.at_session(),
        turn.run.at_session(),
        call_ensures(ThreadStage::request, (&thread,), thread_request),
        call_ensures(ThreadStage::resumed, (thread,), resumed),
        call_ensures(GoalLookup::looked_up, (lookup, goal_active), looked_up),
        call_ensures(TurnStage::request, (&turn,), turn_request),
        thread_id@ == thread.run.sessions@[thread.run.index as int].session_id@,
        turn_id@ == turn.run.sessions@[turn.run.index as int].session_id@,
        phrase@ == turn.phrase@,
        call_ensures(desktop::thread_request, (thread_request.0, thread_id), thread_line),
        call_ensures(desktop::turn_request, (turn_request.0, turn_id, phrase), turn_line),
    ensures
        thread_request.0 == 2 + 2 * thread.run.index,
        thread_request.1@ == thread_line@,
        resumed.run == thread.run,
        looked_up.run == lookup.run,
        ({
            let session = lookup.run.sessions@[lookup.run.index as int];
            let said = text::trimmed(lookup.run.continue_phrase@);
            looked_up.phrase@ == if goal_active && session.session_id@.len() > 0 {
                "/goal resume"@
            } else if said.len() > 0 {
                said
            } else {
                "continue"@
            }
        }),
        turn_request.0 == 3 + 2 * turn.run.index,
        turn_request.1@ == turn_line@,
{
}

/// What is known of the turn of another session is the reason why the app may not be closed, unless
/// it is known that no turn runs.
pub proof fn running_turn_is_in_the_way(
    running: Result<bool, TurnUnknown>,
    r: Option<RecoveryError>,
)
    requires
        call_ensures(desktop::turn_obstacle, (running,), r),
    ensures
        r is None <==> running == Ok::<bool, TurnUnknown>(false),
        running == Ok::<bool, TurnUnknown>(true) ==> r == Some(RecoveryError::AnotherTurnActive),
        running == Err::<bool, TurnUnknown>(TurnUnknown::NoText) ==> r == Some(
            RecoveryError::HistoryNoText,
        ),
        running == Err::<bool, TurnUnknown>(TurnUnknown::NoEvent) ==> r == Some(
            RecoveryError::TurnUnknown,
        ),
{
}

/// A value is told apart as the line is that writes it.
pub proof fn values_are_told_apart(
    value: &json::Json,
    id: u64,
    error: Option<String>,
    r: Reply,
    ends: bool,
)
    requires
        value@.member("error"@) is Some ==> error is Some,
        call_ensures(desktop::read_reply, (value, id, error), r),
        call_ensures(desktop::is_end_of_turn, (value,), ends),
    ensures
        ({
            let answers = value@.member("id"@) == Some(JsonView::Number(Some(id)));
            let failed = value@.member("error"@) is Some;
            let done = value@.member("result"@) is Some;
            &&& r !is Unreadable
            &&& r is Unrelated <==> !answers
            &&& r is Failed <==> answers && failed
            &&& r is Done <==> answers && !failed && done
            &&& r is Incomplete <==> answers && !failed && !done
        }),
        r matches Reply::Failed(said) ==> (error matches Some(written) && said@ == written@),
        ends <==> (value@.member("method"@) matches Some(JsonView::Text(method)) && method
            == "turn/completed"@),
{
    let view = r@;
}

/// As many turns are waited for as were started. Each line that tells of the end of one is one
/// less, down to none; other lines change nothing. Then it is over, and not before.
pub proof fn every_turn_is_waited_for(
    turns: usize,
    first: TurnCountdown,
    count: &mut TurnCountdown,
    line: &str,
    ends: bool,
    over: bool,
)
    requires
        call_ensures(TurnCountdown::new, (turns,), first),
        call_ensures(desktop::line_ends_turn, (line,), ends),
        call_ensures(TurnCountdown::heard, (count, line), ()),
        call_ensures(TurnCountdown::is_over, (final(count),), over),
    ensures
        first.left == turns,
        ends && old(count).left > 0 ==> final(count).left == old(count).left - 1,
        !ends || old(count).left == 0 ==> final(count).left == old(count).left,
        over <==> final(count).left == 0,
{
}

/// Once the first request is answered, the server is told that the client is ready.
pub proof fn server_is_told_that_the_client_is_ready()
    ensures
        desktop::INITIALIZED_NOTICE@ == "{\"method\":\"initialized\",\"params\":{}}\n"@,
{
}

} // verus!
