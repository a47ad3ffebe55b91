//! Sessions in the desktop app: when it may be closed, and how they continue on a server of their
//! own.

use crate::errors::RecoveryError;
use crate::json;
use crate::json::{Json, JsonView};
use crate::rollout;
use crate::rollout::TurnUnknown;
use crate::sessions::{ActiveCodexSession, SessionView};
use crate::settings;
use crate::text;
use vstd::prelude::*;

verus! {

// ---------------------------------------------------------------------------
// Whether the app may be closed
// ---------------------------------------------------------------------------

/// A running session, with the end of its event log, or why that could not be read.
pub struct SessionLog {
    pub session: ActiveCodexSession,
    pub tail: Result<Vec<u8>, String>,
}

/// Why the app may not be closed on account of a session, while the session of the given id is
/// moved.
pub open spec fn obstacle(other: SessionLog, session_id: Seq<char>) -> Option<RecoveryError> {
    if other.session.session_id@ == session_id {
        None
    } else if !other.session.is_desktop {
        Some(RecoveryError::AnotherCliOpen)
    } else if other.session.rollout_path is None {
        Some(RecoveryError::HistoryUnavailable)
    } else {
        match other.tail {
            Err(message) => Some(RecoveryError::Outside(message)),
            Ok(tail) => match rollout::turn_running(tail@) {
                Ok(true) => Some(RecoveryError::AnotherTurnActive),
                Ok(false) => None,
                Err(TurnUnknown::NoText) => Some(RecoveryError::HistoryNoText),
                Err(TurnUnknown::NoEvent) => Some(RecoveryError::TurnUnknown),
            },
        }
    }
}

/// The first obstacle among the sessions from a position on.
pub open spec fn first_obstacle(
    others: Seq<SessionLog>,
    from: int,
    session_id: Seq<char>,
) -> Option<RecoveryError>
    decreases others.len() - from,
{
    if from < 0 || from >= others.len() {
        None
    } else {
        match obstacle(others[from], session_id) {
            Some(error) => Some(error),
            None => first_obstacle(others, from + 1, session_id),
        }
    }
}

/// Why the app may not be closed, with what is known of whether a turn of another session runs.
pub fn turn_obstacle(running: Result<bool, TurnUnknown>) -> (r: Option<RecoveryError>)
    ensures
        r == (match running {
            Ok(true) => Some(RecoveryError::AnotherTurnActive),
            Ok(false) => None,
            Err(TurnUnknown::NoText) => Some(RecoveryError::HistoryNoText),
            Err(TurnUnknown::NoEvent) => Some(RecoveryError::TurnUnknown),
        }),
{
    match running {
        Ok(true) => Some(RecoveryError::AnotherTurnActive),
        Ok(false) => None,
        Err(TurnUnknown::NoText) => Some(RecoveryError::HistoryNoText),
        Err(TurnUnknown::NoEvent) => Some(RecoveryError::TurnUnknown),
    }
}

/// Why the app may not be closed on account of a session.
fn find_obstacle(other: SessionLog, session_id: &str) -> (r: Option<RecoveryError>)
    ensures
        r == obstacle(other, session_id@),
{
    if text::same_text(other.session.session_id.as_str(), session_id) {
        return None;
    }
    if !other.session.is_desktop {
        return Some(RecoveryError::AnotherCliOpen);
    }
    if other.session.rollout_path.is_none() {
        return Some(RecoveryError::HistoryUnavailable);
    }
    match other.tail {
        Err(message) => Some(RecoveryError::Outside(message)),
        Ok(tail) => turn_obstacle(rollout::rollout_has_active_turn(tail)),
    }
}

/// Whether the desktop app may be closed while the session of the given id is moved: the other
/// sessions all run in the app, and none is at work. The first of them of which that cannot be
/// said is the reason why not.
pub fn desktop_handoff_is_exclusive(session_id: &str, others: Vec<SessionLog>) -> (r: Result<
    (),
    RecoveryError,
>)
    ensures
        match first_obstacle(others@, 0, session_id@) {
            None => r is Ok,
            Some(error) => r == Err::<(), RecoveryError>(error),
        },
{
    let ghost all = others@;
    let mut rest = others;
    let mut found: Option<RecoveryError> = None;
    assert(rest@ =~= all.take(all.len() as int));
    assert(first_obstacle(all, all.len() as int, session_id@) is None);
    while rest.len() > 0
        invariant
            rest@.len() <= all.len(),
            rest@ == all.take(rest@.len() as int),
            found == first_obstacle(all, rest@.len() as int, session_id@),
        decreases rest@.len(),
    {
        let ghost count = rest@.len();
        let other = rest.pop().unwrap();
        assert(other == all[count - 1]);
        assert(rest@ =~= all.take(count - 1));
        if let Some(error) = find_obstacle(other, session_id) {
            found = Some(error);
        }
    }
    match found {
        None => Ok(()),
        Some(error) => Err(error),
    }
}

/// The app is closed only where nothing is lost: every other session runs in the app, its log is
/// known, and the newest turn in it has ended.
pub proof fn closing_interrupts_nothing(others: Seq<SessionLog>, session_id: Seq<char>, i: int)
    requires
        first_obstacle(others, 0, session_id) is None,
        0 <= i < others.len(),
        others[i].session.session_id@ != session_id,
    ensures
        others[i].session.is_desktop,
        others[i].session.rollout_path is Some,
        others[i].tail matches Ok(tail) && rollout::turn_running(tail@)
            == Ok::<bool, TurnUnknown>(false),
{
    lemma_no_obstacle(others, 0, session_id, i);
}

proof fn lemma_no_obstacle(others: Seq<SessionLog>, from: int, session_id: Seq<char>, i: int)
    requires
        0 <= from <= i < others.len(),
        first_obstacle(others, from, session_id) is None,
    ensures
        obstacle(others[i], session_id) is None,
    decreases i - from,
{
    if from < i {
        lemma_no_obstacle(others, from + 1, session_id, i);
    }
}

/// The session that is moved is no obstacle itself.
pub proof fn moved_session_is_no_obstacle(other: SessionLog)
    ensures
        obstacle(other, other.session.session_id@) is None,
{
}

// ---------------------------------------------------------------------------
// Processes
// ---------------------------------------------------------------------------

/// The desktop app is the one process that runs.
pub fn is_sole_desktop(count: usize, first_is_desktop: bool) -> (r: bool)
    ensures
        r == (count == 1 && first_is_desktop),
{
    count == 1 && first_is_desktop
}

/// A process, and whether it is that of the desktop app.
#[derive(Clone, Copy, Debug, PartialEq, Eq, Structural)]
pub struct RunningProcess {
    pub pid: u32,
    pub is_desktop_root: bool,
}

/// The process of the session is the only one.
pub open spec fn runs_alone(processes: Seq<RunningProcess>, pid: u32) -> bool {
    processes.len() == 1 && processes[0].pid == pid
}

/// The session and the desktop app are all that runs.
pub open spec fn runs_beside_desktop(processes: Seq<RunningProcess>, pid: u32) -> bool {
    &&& processes.len() == 2
    &&& processes[0].pid == pid || processes[1].pid == pid
    &&& (processes[0].pid != pid && processes[0].is_desktop_root) || (processes[1].pid != pid
        && processes[1].is_desktop_root)
}

/// Whether the process of the session is the only one.
pub fn is_alone(processes: &Vec<RunningProcess>, pid: u32) -> (r: bool)
    ensures
        r == runs_alone(processes@, pid),
{
    processes.len() == 1 && processes[0].pid == pid
}

/// Whether the session and the desktop app are all that runs.
pub fn is_beside_desktop(processes: &Vec<RunningProcess>, pid: u32) -> (r: bool)
    ensures
        r == runs_beside_desktop(processes@, pid),
{
    processes.len() == 2 && (processes[0].pid == pid || processes[1].pid == pid) && ((
    processes[0].pid != pid && processes[0].is_desktop_root) || (processes[1].pid != pid
        && processes[1].is_desktop_root))
}

// ---------------------------------------------------------------------------
// The protocol of the app server
// ---------------------------------------------------------------------------

/// The line of a request.
pub open spec fn request_line(id: nat, method: Seq<char>, params: Seq<char>) -> Seq<char> {
    "{\"id\":"@ + text::decimal_of(id) + ",\"method\":"@ + json::json_quoted(method)
        + ",\"params\":"@ + params + "}\n"@
}

/// The parameters of a request to resume a thread.
pub open spec fn thread_params(session_id: Seq<char>) -> Seq<char> {
    "{\"threadId\":"@ + json::json_quoted(session_id) + "}"@
}

/// The parameters of a request to start a turn with a phrase.
pub open spec fn turn_params(session_id: Seq<char>, phrase: Seq<char>) -> Seq<char> {
    "{\"input\":[{\"text\":"@ + json::json_quoted(phrase) + ",\"type\":\"text\"}],\"threadId\":"@
        + json::json_quoted(session_id) + "}"@
}

/// The parameters of the first request.
pub const CLIENT_PARAMS: &'static str =
    "{\"clientInfo\":{\"name\":\"codex-switcher\",\"version\":\"0.2.20\"}}";

/// What is sent once the first request is answered.
pub const INITIALIZED_NOTICE: &'static str = "{\"method\":\"initialized\",\"params\":{}}\n";

/// The line of a request to the app server, with parameters in JSON.
pub fn app_server_request(id: u64, method: &str, params: &str) -> (r: String)
    ensures
        r@ == request_line(id as nat, method@, params@),
{
    let mut line = "{\"id\":".to_owned();
    line.append(text::decimal(id).as_str());
    line.append(",\"method\":");
    line.append(json::quote_json(method).as_str());
    line.append(",\"params\":");
    line.append(params);
    line.append("}\n");
    line
}

/// The first request.
pub fn initialize_request() -> (r: String)
    ensures
        r@ == request_line(1, "initialize"@, CLIENT_PARAMS@),
{
    app_server_request(1, "initialize", CLIENT_PARAMS)
}

/// The request to resume the thread of a session.
pub fn thread_request(id: u64, session_id: &str) -> (r: String)
    ensures
        r@ == request_line(id as nat, "thread/resume"@, thread_params(session_id@)),
{
    let mut params = "{\"threadId\":".to_owned();
    params.append(json::quote_json(session_id).as_str());
    params.append("}");
    app_server_request(id, "thread/resume", params.as_str())
}

/// The request to start a turn of a session with a phrase.
pub fn turn_request(id: u64, session_id: &str, phrase: &str) -> (r: String)
    ensures
        r@ == request_line(id as nat, "turn/start"@, turn_params(session_id@, phrase@)),
{
    let mut params = "{\"input\":[{\"text\":".to_owned();
    params.append(json::quote_json(phrase).as_str());
    params.append(",\"type\":\"text\"}],\"threadId\":");
    params.append(json::quote_json(session_id).as_str());
    params.append("}");
    app_server_request(id, "turn/start", params.as_str())
}

/// What a line from the app server is to a request.
pub enum Reply {
    /// It is no JSON.
    Unreadable,
    /// It does not answer the request: another line will.
    Unrelated,
    /// The request failed, with the error as the server wrote it.
    Failed(String),
    /// The request was carried out.
    Done,
    /// The answer holds neither an error nor a result.
    Incomplete,
}

/// What a `Reply` says.
pub enum ReplyView {
    Unreadable,
    Unrelated,
    Failed(Option<Seq<char>>),
    Done,
    Incomplete,
}

impl View for Reply {
    type V = ReplyView;

    open spec fn view(&self) -> ReplyView {
        match self {
            Reply::Unreadable => ReplyView::Unreadable,
            Reply::Unrelated => ReplyView::Unrelated,
            Reply::Failed(error) => ReplyView::Failed(Some(error@)),
            Reply::Done => ReplyView::Done,
            Reply::Incomplete => ReplyView::Incomplete,
        }
    }
}

/// The value has the given id.
pub open spec fn answers(value: JsonView, id: u64) -> bool {
    value.member("id"@) == Some(JsonView::Number(Some(id)))
}

/// What a value from the app server is to a request; `error` is how its error is written.
pub open spec fn reply_of(value: JsonView, id: u64, error: Option<Seq<char>>) -> ReplyView {
    if !answers(value, id) {
        ReplyView::Unrelated
    } else if value.member("error"@) is Some {
        ReplyView::Failed(error)
    } else if value.member("result"@) is Some {
        ReplyView::Done
    } else {
        ReplyView::Incomplete
    }
}

/// What a line from the app server is to a request.
pub open spec fn reply_in(line: Seq<char>, id: u64) -> ReplyView {
    match json::json_of(line) {
        None => ReplyView::Unreadable,
        Some(value) => reply_of(value, id, json::member_json(line, "error"@)),
    }
}

/// Whether a value has the given id.
fn has_id(value: &Json, id: u64) -> (r: bool)
    ensures
        r == answers(value@, id),
{
    match value.member("id") {
        Some(Json::Number(Some(n))) => *n == id,
        _ => false,
    }
}

/// What a value from the app server is to a request; `error` is how its error is written.
pub fn read_reply(value: &Json, id: u64, error: Option<String>) -> (r: Reply)
    requires
        value@.member("error"@) is Some ==> error is Some,
    ensures
        r@ == reply_of(value@, id, text::opt_text(error)),
{
    if !has_id(value, id) {
        return Reply::Unrelated;
    }
    if value.member("error").is_some() {
        return Reply::Failed(error.unwrap());
    }
    if value.member("result").is_some() {
        Reply::Done
    } else {
        Reply::Incomplete
    }
}

/// What a line from the app server is to the request of the given id.
pub fn app_server_response(line: &str, id: u64) -> (r: Reply)
    ensures
        r@ == reply_in(line@, id),
{
    match json::parse_json(line) {
        None => Reply::Unreadable,
        Some(value) => {
            // Only a line that tells of an error is read again for how that is written.
            let error = if value.member("error").is_some() {
                json::write_member(line, "error")
            } else {
                None
            };
            read_reply(&value, id, error)
        },
    }
}

/// A value from the app server tells that a turn has ended.
pub open spec fn tells_of_end(value: JsonView) -> bool {
    value.text_member("method"@) == Some("turn/completed"@)
}

/// Whether a value from the app server tells that a turn has ended.
pub fn is_end_of_turn(value: &Json) -> (r: bool)
    ensures
        r == tells_of_end(value@),
{
    match value.text_member("method") {
        Some(method) => text::same_text(method, "turn/completed"),
        None => false,
    }
}

/// A line from the app server tells that a turn has ended.
pub open spec fn ends_turn(line: Seq<char>) -> bool {
    json::json_of(line) matches Some(value) && tells_of_end(value)
}

/// Whether a line from the app server tells that a turn has ended.
pub fn line_ends_turn(line: &str) -> (r: bool)
    ensures
        r == ends_turn(line@),
{
    match json::parse_json(line) {
        Some(value) => is_end_of_turn(&value),
        None => false,
    }
}

/// A request is answered by a line that bears its id, and by no other line.
pub proof fn only_its_id_answers_a_request(line: Seq<char>, id: u64, other: u64)
    requires
        id != other,
        reply_in(line, id) != ReplyView::Unrelated,
        reply_in(line, id) != ReplyView::Unreadable,
    ensures
        reply_in(line, other) == ReplyView::Unrelated,
{
}

// ---------------------------------------------------------------------------
// How long the server is needed
// ---------------------------------------------------------------------------

/// The turns that have yet to end before the server may be stopped.
#[derive(Debug)]
pub struct TurnCountdown {
    pub left: usize,
}

/// How many turns are left once a line was heard.
pub open spec fn left_after(left: nat, line: Seq<char>) -> nat {
    if ends_turn(line) && left > 0 {
        (left - 1) as nat
    } else {
        left
    }
}

impl TurnCountdown {
    /// So many turns were started.
    pub fn new(turns: usize) -> (r: Self)
        ensures
            r.left == turns,
    {
        TurnCountdown { left: turns }
    }

    /// Whether every turn has ended.
    pub fn is_over(&self) -> (r: bool)
        ensures
            r == (self.left == 0),
    {
        self.left == 0
    }

    /// A line came from the server.
    pub fn heard(&mut self, line: &str)
        ensures
            final(self).left == left_after(old(self).left as nat, line@),
    {
        if line_ends_turn(line) && self.left > 0 {
            self.left = self.left - 1;
        }
    }
}

/// How many turns are left once all the lines were heard in turn.
pub open spec fn left_after_all(turns: nat, lines: Seq<Seq<char>>) -> nat
    decreases lines.len(),
{
    if lines.len() == 0 {
        turns
    } else {
        left_after(left_after_all(turns, lines.drop_last()), lines.last())
    }
}

/// How many of the lines tell that a turn has ended.
pub open spec fn ended_turns(lines: Seq<Seq<char>>) -> nat {
    lines.filter(|line: Seq<char>| ends_turn(line)).len()
}

/// The server is needed until as many turns have ended as were started, and no longer.
pub proof fn server_outlives_its_turns(turns: nat, lines: Seq<Seq<char>>)
    ensures
        left_after_all(turns, lines) == (if ended_turns(lines) < turns {
            (turns - ended_turns(lines)) as nat
        } else {
            0
        }),
        left_after_all(turns, lines) == 0 <==> ended_turns(lines) >= turns,
    decreases lines.len(),
{
    reveal(Seq::filter);
    if lines.len() > 0 {
        server_outlives_its_turns(turns, lines.drop_last());
    }
}

// ---------------------------------------------------------------------------
// Resuming the sessions of the app
// ---------------------------------------------------------------------------

/// The id of the request to resume the thread of the session at a position.
pub open spec fn thread_request_id(index: int) -> int {
    2 + 2 * index
}

/// The sessions of the desktop app on their way to continue: those before `index` are done with,
/// and `started` are the ids of those that were told to continue.
pub struct DesktopResume {
    pub sessions: Vec<ActiveCodexSession>,
    pub continue_phrase: String,
    pub index: usize,
    pub started: Vec<String>,
}

/// What is to be done next.
pub enum ResumeStep {
    /// The thread of the next session is to be resumed.
    Thread(ThreadStage),
    /// Every session is done with.
    Finished(Result<Vec<String>, RecoveryError>),
}

/// The thread of the session at `run.index` is to be resumed.
pub struct ThreadStage {
    pub run: DesktopResume,
}

/// Whether the session at `run.index` has an unfinished goal is to be looked up.
pub struct GoalLookup {
    pub run: DesktopResume,
}

/// A turn of the session at `run.index` is to be started.
pub struct TurnStage {
    pub run: DesktopResume,
    pub phrase: String,
}

impl DesktopResume {
    /// The ids of requests fit in 64 bits, there is a session at the position, or none left, and
    /// no more sessions were started than there are before it.
    pub open spec fn wf(self) -> bool {
        &&& self.sessions@.len() < 0x4000_0000_0000_0000
        &&& self.index <= self.sessions@.len()
        &&& self.started@.len() <= self.index
    }

    /// The session at the position is the next.
    pub open spec fn at_session(self) -> bool {
        self.wf() && self.index < self.sessions@.len()
    }

    /// The run goes on with the next session; what is known of the sessions does not change.
    pub open spec fn goes_on_as(self, next: DesktopResume) -> bool {
        &&& next.sessions == self.sessions
        &&& next.continue_phrase == self.continue_phrase
        &&& next.index == self.index + 1
    }

    /// What follows once every session before the position is done with.
    pub open spec fn leads_to(self, step: ResumeStep) -> bool {
        if self.index < self.sessions@.len() {
            step == ResumeStep::Thread(ThreadStage { run: self })
        } else if self.started@.len() > 0 {
            step == ResumeStep::Finished(Ok(self.started))
        } else {
            step == ResumeStep::Finished(Err(RecoveryError::NothingStarted))
        }
    }

    /// Begins with the first session.
    pub fn begin(sessions: Vec<ActiveCodexSession>, continue_phrase: String) -> (r: ResumeStep)
        requires
            sessions@.len() < 0x4000_0000_0000_0000,
        ensures
            exists|run: DesktopResume|
                {
                    &&& #[trigger] run.leads_to(r)
                    &&& run.wf()
                    &&& run.sessions == sessions
                    &&& run.continue_phrase == continue_phrase
                    &&& run.index == 0
                    &&& run.started@.len() == 0
                },
    {
        let run = DesktopResume { sessions, continue_phrase, index: 0, started: Vec::new() };
        run.step()
    }

    /// What follows once every session before the position is done with.
    fn step(self) -> (r: ResumeStep)
        ensures
            self.leads_to(r),
    {
        if self.index < self.sessions.len() {
            ResumeStep::Thread(ThreadStage { run: self })
        } else if self.started.len() > 0 {
            ResumeStep::Finished(Ok(self.started))
        } else {
            ResumeStep::Finished(Err(RecoveryError::NothingStarted))
        }
    }

    /// Goes on to the next session.
    fn skip(self) -> (r: ResumeStep)
        requires
            self.at_session(),
        ensures
            exists|run: DesktopResume|
                {
                    &&& #[trigger] run.leads_to(r)
                    &&& run.wf()
                    &&& self.goes_on_as(run)
                    &&& run.started == self.started
                },
    {
        let mut run = self;
        let length: usize = run.sessions.len();
        assert(run.index < length);
        run.index = run.index + 1;
        run.step()
    }
}

impl ThreadStage {
    /// The request to send.
    pub fn request(&self) -> (r: (u64, String))
        requires
            self.run.at_session(),
        ensures
            r.0 == thread_request_id(self.run.index as int),
            r.1@ == request_line(
                r.0 as nat,
                "thread/resume"@,
                thread_params(self.run.sessions@[self.run.index as int].session_id@),
            ),
    {
        let id: u64 = 2 + 2 * (self.run.index as u64);
        (id, thread_request(id, self.run.sessions[self.run.index].session_id.as_str()))
    }

    /// The thread was resumed.
    pub fn resumed(self) -> (r: GoalLookup)
        ensures
            r.run == self.run,
    {
        GoalLookup { run: self.run }
    }

    /// The thread could not be resumed: the session is left out.
    pub fn refused(self) -> (r: ResumeStep)
        requires
            self.run.at_session(),
        ensures
            exists|run: DesktopResume|
                {
                    &&& #[trigger] run.leads_to(r)
                    &&& run.wf()
                    &&& self.run.goes_on_as(run)
                    &&& run.started == self.run.started
                },
    {
        self.run.skip()
    }
}

impl GoalLookup {
    /// The goal of the session was looked up.
    pub fn looked_up(self, goal_active: bool) -> (r: TurnStage)
        requires
            self.run.at_session(),
        ensures
            r.run == self.run,
            r.phrase@ == settings::resume_phrase(
                self.run.sessions@[self.run.index as int].session_id@,
                self.run.continue_phrase@,
                goal_active,
            ),
    {
        let phrase = settings::resolve_session_resume_phrase(
            self.run.sessions[self.run.index].session_id.as_str(),
            self.run.continue_phrase.as_str(),
            goal_active,
        );
        TurnStage { run: self.run, phrase }
    }
}

impl TurnStage {
    /// The request to send.
    pub fn request(&self) -> (r: (u64, String))
        requires
            self.run.at_session(),
        ensures
            r.0 == thread_request_id(self.run.index as int) + 1,
            r.1@ == request_line(
                r.0 as nat,
                "turn/start"@,
                turn_params(
                    self.run.sessions@[self.run.index as int].session_id@,
                    self.phrase@,
                ),
            ),
    {
        let id: u64 = 3 + 2 * (self.run.index as u64);
        (
            id,
            turn_request(
                id,
                self.run.sessions[self.run.index].session_id.as_str(),
                self.phrase.as_str(),
            ),
        )
    }

    /// The turn was started: the session counts as continued.
    pub fn started(self) -> (r: ResumeStep)
        requires
            self.run.at_session(),
        ensures
            exists|run: DesktopResume|
                {
                    &&& #[trigger] run.leads_to(r)
                    &&& run.wf()
                    &&& self.run.goes_on_as(run)
                    &&& run.started@ == self.run.started@.push(
                        self.run.sessions@[self.run.index as int].session_id,
                    )
                },
    {
        let mut run = self.run;
        let id = run.sessions[run.index].session_id.clone();
        run.started.push(id);
        let length: usize = run.sessions.len();
        assert(run.index < length);
        run.index = run.index + 1;
        run.step()
    }

    /// The turn could not be started: the session is left out.
    pub fn refused(self) -> (r: ResumeStep)
        requires
            self.run.at_session(),
        ensures
            exists|run: DesktopResume|
                {
                    &&& #[trigger] run.leads_to(r)
                    &&& run.wf()
                    &&& self.run.goes_on_as(run)
                    &&& run.started == self.run.started
                },
    {
        self.run.skip()
    }
}

/// No two requests of a run bear the same id, and none bears that of the first request.
pub proof fn request_ids_are_distinct(i: int, j: int)
    requires
        0 <= i,
        0 <= j,
    ensures
        thread_request_id(i) != thread_request_id(j) + 1,
        i != j ==> thread_request_id(i) != thread_request_id(j),
        thread_request_id(i) > 1,
{
}

} // verus!
