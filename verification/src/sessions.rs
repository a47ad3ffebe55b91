//! Sessions, the errors found in them, and what is reported of their recovery.

use crate::moment::Moment;
use crate::text;
use vstd::prelude::*;

verus! {

/// The kind of error that ended the last turn of a session.
#[derive(Clone, Copy, Debug, PartialEq, Eq, Structural)]
pub enum SessionErrorKind {
    UsageLimitExceeded,
    ServerOverloaded,
}

/// An error found in the event log of a session.
#[derive(Debug)]
pub struct DetectedSessionError {
    pub kind: SessionErrorKind,
    pub session_id: String,
    /// The turn that the error ended, where the log names it.
    pub turn_id: Option<String>,
    pub message: String,
    pub detected_at: Moment,
}

/// What a `DetectedSessionError` says.
pub struct ErrorView {
    pub kind: SessionErrorKind,
    pub session_id: Seq<char>,
    pub turn_id: Option<Seq<char>>,
    pub message: Seq<char>,
    pub detected_at: Moment,
}

impl View for DetectedSessionError {
    type V = ErrorView;

    open spec fn view(&self) -> ErrorView {
        ErrorView {
            kind: self.kind,
            session_id: self.session_id@,
            turn_id: text::opt_text(self.turn_id),
            message: self.message@,
            detected_at: self.detected_at,
        }
    }
}

/// What an optional error says.
pub open spec fn opt_error(error: Option<DetectedSessionError>) -> Option<ErrorView> {
    match error {
        Some(e) => Some(e@),
        None => None,
    }
}

/// A copy of an optional string.
pub fn clone_text(s: &Option<String>) -> (r: Option<String>)
    ensures
        r == *s,
{
    match s {
        Some(t) => Some(t.clone()),
        None => None,
    }
}

impl Clone for DetectedSessionError {
    fn clone(&self) -> (r: Self)
        ensures
            r == *self,
    {
        DetectedSessionError {
            kind: self.kind,
            session_id: self.session_id.clone(),
            turn_id: clone_text(&self.turn_id),
            message: self.message.clone(),
            detected_at: self.detected_at,
        }
    }
}

/// A running session.
#[derive(Debug)]
pub struct ActiveCodexSession {
    pub session_id: String,
    pub pid: u32,
    pub cwd: Option<String>,
    /// Where its event log is, where it is known.
    pub rollout_path: Option<String>,
    pub last_error: Option<DetectedSessionError>,
    /// Its process was launched from here.
    pub is_managed: bool,
    /// It runs in the desktop app, not in a terminal.
    pub is_desktop: bool,
}

/// What an `ActiveCodexSession` says.
pub struct SessionView {
    pub session_id: Seq<char>,
    pub pid: u32,
    pub cwd: Option<Seq<char>>,
    pub rollout_path: Option<Seq<char>>,
    pub last_error: Option<ErrorView>,
    pub is_managed: bool,
    pub is_desktop: bool,
}

impl View for ActiveCodexSession {
    type V = SessionView;

    open spec fn view(&self) -> SessionView {
        SessionView {
            session_id: self.session_id@,
            pid: self.pid,
            cwd: text::opt_text(self.cwd),
            rollout_path: text::opt_text(self.rollout_path),
            last_error: opt_error(self.last_error),
            is_managed: self.is_managed,
            is_desktop: self.is_desktop,
        }
    }
}

impl Clone for ActiveCodexSession {
    fn clone(&self) -> (r: Self)
        ensures
            r == *self,
    {
        ActiveCodexSession {
            session_id: self.session_id.clone(),
            pid: self.pid,
            cwd: clone_text(&self.cwd),
            rollout_path: clone_text(&self.rollout_path),
            last_error: match &self.last_error {
                Some(error) => Some(error.clone()),
                None => None,
            },
            is_managed: self.is_managed,
            is_desktop: self.is_desktop,
        }
    }
}

impl SessionView {
    /// The turn that the last error ended; `default` where there is no error or no turn is named.
    pub open spec fn turn_key(self) -> Seq<char> {
        match self.last_error {
            Some(error) => match error.turn_id {
                Some(turn) => turn,
                None => "default"@,
            },
            None => "default"@,
        }
    }
}

impl ActiveCodexSession {
    /// The turn that the last error ended; `default` where there is no error or no turn is named.
    pub fn turn_key(&self) -> (r: String)
        ensures
            r@ == self@.turn_key(),
    {
        match &self.last_error {
            Some(error) => match &error.turn_id {
                Some(turn) => turn.clone(),
                None => "default".to_owned(),
            },
            None => "default".to_owned(),
        }
    }
}

/// What is reported of a recovery.
#[derive(Debug)]
pub struct RecoveryEventNotification {
    pub event_type: String,
    pub session_id: String,
    pub message: String,
    pub timestamp: Moment,
}

/// What a `RecoveryEventNotification` says.
pub struct EventView {
    pub event_type: Seq<char>,
    pub session_id: Seq<char>,
    pub message: Seq<char>,
    pub timestamp: Moment,
}

impl View for RecoveryEventNotification {
    type V = EventView;

    open spec fn view(&self) -> EventView {
        EventView {
            event_type: self.event_type@,
            session_id: self.session_id@,
            message: self.message@,
            timestamp: self.timestamp,
        }
    }
}

/// What an optional report says.
pub open spec fn opt_event(event: Option<RecoveryEventNotification>) -> Option<EventView> {
    match event {
        Some(e) => Some(e@),
        None => None,
    }
}

impl Clone for RecoveryEventNotification {
    fn clone(&self) -> (r: Self)
        ensures
            r == *self,
    {
        RecoveryEventNotification {
            event_type: self.event_type.clone(),
            session_id: self.session_id.clone(),
            message: self.message.clone(),
            timestamp: self.timestamp,
        }
    }
}

} // verus!
