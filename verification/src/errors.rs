//! Why a recovery is given up.

use vstd::prelude::*;

verus! {

/// Why a recovery is given up.
#[derive(Debug)]
pub enum RecoveryError {
    /// There is no other account to switch to.
    NoEligibleAccount,
    /// The session runs in the desktop app, on a platform where it cannot be resumed there.
    DesktopUnsupported,
    /// The account in use was changed by someone else meanwhile.
    ActiveAccountChanged,
    /// Another session runs in a terminal.
    AnotherCliOpen,
    /// The event log of another session in the desktop app was not found.
    HistoryUnavailable,
    /// The end of the event log of another session in the desktop app is no text.
    HistoryNoText,
    /// The event log of another session tells of no turn.
    TurnUnknown,
    /// Another session in the desktop app is at work.
    AnotherTurnActive,
    /// The desktop app is not the one process that runs.
    NotOneDesktop,
    /// The desktop app was closed, and how to open it again is not known.
    DesktopNotRecorded,
    /// A process of the desktop app did not end.
    DesktopNotClean,
    /// Beside the session and the desktop app another process runs.
    AnotherProcess,
    /// The desktop app refused to quit.
    DesktopNotQuit,
    /// The desktop app did not quit in time.
    DesktopNotClosed,
    /// No session in the desktop app could be told to continue.
    NothingStarted,
    /// What an outside service or program reported.
    Outside(String),
}

impl RecoveryError {
    /// What the error is reported as.
    pub open spec fn text(self) -> Seq<char> {
        match self {
            RecoveryError::NoEligibleAccount =>
                "No eligible fallback account found with available limits"@,
            RecoveryError::DesktopUnsupported =>
                "Desktop recovery is not supported on this platform"@,
            RecoveryError::ActiveAccountChanged => "Active account changed during auto recovery"@,
            RecoveryError::AnotherCliOpen =>
                "Another CLI session is open; deferring desktop account handoff"@,
            RecoveryError::HistoryUnavailable => "Desktop session history is unavailable"@,
            RecoveryError::HistoryNoText => "stream did not contain valid UTF-8"@,
            RecoveryError::TurnUnknown =>
                "Cannot determine whether another Codex turn is active"@,
            RecoveryError::AnotherTurnActive =>
                "Another desktop turn is active; deferring account handoff"@,
            RecoveryError::NotOneDesktop =>
                "Expected one Codex desktop process; deferring account handoff"@,
            RecoveryError::DesktopNotRecorded =>
                "Could not record Codex desktop for reopening"@,
            RecoveryError::DesktopNotClean =>
                "Codex desktop did not close cleanly; account was not switched"@,
            RecoveryError::AnotherProcess =>
                "Another Codex process is running; deferring CLI account handoff"@,
            RecoveryError::DesktopNotQuit => "Could not gracefully close Codex desktop"@,
            RecoveryError::DesktopNotClosed =>
                "Codex desktop did not close; account was not switched"@,
            RecoveryError::NothingStarted =>
                "Codex could not start a continuation in any desktop session"@,
            RecoveryError::Outside(message) => message@,
        }
    }

    /// What the error is reported as.
    pub fn message(&self) -> (r: String)
        ensures
            r@ == self.text(),
    {
        match self {
            RecoveryError::NoEligibleAccount =>
                "No eligible fallback account found with available limits".to_owned(),
            RecoveryError::DesktopUnsupported =>
                "Desktop recovery is not supported on this platform".to_owned(),
            RecoveryError::ActiveAccountChanged =>
                "Active account changed during auto recovery".to_owned(),
            RecoveryError::AnotherCliOpen =>
                "Another CLI session is open; deferring desktop account handoff".to_owned(),
            RecoveryError::HistoryUnavailable =>
                "Desktop session history is unavailable".to_owned(),
            RecoveryError::HistoryNoText => "stream did not contain valid UTF-8".to_owned(),
            RecoveryError::TurnUnknown =>
                "Cannot determine whether another Codex turn is active".to_owned(),
            RecoveryError::AnotherTurnActive =>
                "Another desktop turn is active; deferring account handoff".to_owned(),
            RecoveryError::NotOneDesktop =>
                "Expected one Codex desktop process; deferring account handoff".to_owned(),
            RecoveryError::DesktopNotRecorded =>
                "Could not record Codex desktop for reopening".to_owned(),
            RecoveryError::DesktopNotClean =>
                "Codex desktop did not close cleanly; account was not switched".to_owned(),
            RecoveryError::AnotherProcess =>
                "Another Codex process is running; deferring CLI account handoff".to_owned(),
            RecoveryError::DesktopNotQuit =>
                "Could not gracefully close Codex desktop".to_owned(),
            RecoveryError::DesktopNotClosed =>
                "Codex desktop did not close; account was not switched".to_owned(),
            RecoveryError::NothingStarted =>
                "Codex could not start a continuation in any desktop session".to_owned(),
            RecoveryError::Outside(message) => message.clone(),
        }
    }
}

} // verus!
