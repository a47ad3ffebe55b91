//! Telling a session to continue that found the servers overloaded, and the report on all
//! sessions.

use crate::errors::RecoveryError;
use crate::moment;
use crate::moment::Moment;
use crate::sessions::{ActiveCodexSession, EventView, RecoveryEventNotification};
use crate::settings;
use crate::settings::AppSettings;
use crate::text;
use crate::tracker::SessionTracker;
use vstd::prelude::*;

verus! {

/// Whether the session has an unfinished goal is to be looked up, before it is told to continue.
pub struct RetryStage {
    pub session: ActiveCodexSession,
    pub settings: AppSettings,
    /// For which time in a row.
    pub attempt: u32,
}

/// The phrase is to be queued for the session.
pub struct RetryQueueStage {
    pub retry: RetryStage,
    pub phrase: String,
}

impl RetryStage {
    /// It was looked up whether the session has an unfinished goal.
    pub fn looked_up(self, goal_active: bool) -> (r: RetryQueueStage)
        ensures
            r.retry == self,
            r.phrase@ == settings::resume_phrase(
                self.session.session_id@,
                self.settings.continue_phrase@,
                goal_active,
            ),
    {
        let phrase = settings::resolve_session_resume_phrase(
            self.session.session_id.as_str(),
            self.settings.continue_phrase.as_str(),
            goal_active,
        );
        RetryQueueStage { retry: self, phrase }
    }
}

impl RetryQueueStage {
    /// What is reported.
    pub open spec fn event(self, now: Moment) -> EventView {
        EventView {
            event_type: "capacity_retry"@,
            session_id: self.retry.session.session_id@,
            message: "Server overloaded. Sent automatic retry (attempt "@ + text::decimal_of(
                self.retry.attempt as nat,
            ) + "/"@ + text::decimal_of(
                self.retry.settings.auto_retry_capacity_max_attempts as nat,
            ) + ") with '"@ + self.phrase@ + "'"@,
            timestamp: now,
        }
    }

    /// The phrase was queued at the given time, or not.
    pub fn queued_at(
        self,
        outcome: Result<(), String>,
        tracker: &mut SessionTracker,
        now: Moment,
    ) -> (r: Result<RecoveryEventNotification, RecoveryError>)
        requires
            old(tracker).wf(),
        ensures
            final(tracker).wf(),
            match outcome {
                Err(message) => r == Err::<RecoveryEventNotification, RecoveryError>(
                    RecoveryError::Outside(message),
                ) && final(tracker)@ == old(tracker)@,
                Ok(_) => {
                    &&& r matches Ok(event)
                    &&& event@ == self.event(now)
                    &&& final(tracker)@ == old(tracker)@.with_event(event@)
                },
            },
    {
        if let Err(message) = outcome {
            return Err(RecoveryError::Outside(message));
        }
        let max = self.retry.settings.auto_retry_capacity_max_attempts;
        let mut message = "Server overloaded. Sent automatic retry (attempt ".to_owned();
        message.append(text::decimal(self.retry.attempt as u64).as_str());
        message.append("/");
        message.append(text::decimal(max as u64).as_str());
        message.append(") with '");
        message.append(self.phrase.as_str());
        message.append("'");
        let event = RecoveryEventNotification {
            event_type: "capacity_retry".to_owned(),
            session_id: self.retry.session.session_id,
            message,
            timestamp: now,
        };
        tracker.note_event(&event);
        Ok(event)
    }

    /// The phrase was queued just now, or not.
    pub fn queued(self, outcome: Result<(), String>, tracker: &mut SessionTracker) -> (r: Result<
        RecoveryEventNotification,
        RecoveryError,
    >)
        requires
            old(tracker).wf(),
        ensures
            final(tracker).wf(),
            match outcome {
                Err(message) => r == Err::<RecoveryEventNotification, RecoveryError>(
                    RecoveryError::Outside(message),
                ) && final(tracker)@ == old(tracker)@,
                Ok(_) => {
                    &&& r matches Ok(event)
                    &&& event.timestamp.wf()
                    &&& event@ == self.event(event.timestamp)
                    &&& final(tracker)@ == old(tracker)@.with_event(event@)
                },
            },
    {
        let now = moment::utc_now();
        self.queued_at(outcome, tracker, now)
    }
}

// ---------------------------------------------------------------------------
// The report
// ---------------------------------------------------------------------------

/// The state of the recovery.
#[derive(Debug)]
pub struct AutoRecoveryStatus {
    pub active_sessions_count: usize,
    pub monitored_sessions: Vec<ActiveCodexSession>,
    pub last_recovery_event: Option<RecoveryEventNotification>,
}

/// The state of the recovery: the running sessions, and the last event.
pub fn get_auto_recovery_status(
    list: Vec<ActiveCodexSession>,
    tracker: &SessionTracker,
) -> (r: AutoRecoveryStatus)
    ensures
        r.active_sessions_count == list@.len(),
        r.monitored_sessions == list,
        r.last_recovery_event == tracker.last_event,
{
    AutoRecoveryStatus {
        active_sessions_count: list.len(),
        monitored_sessions: list,
        last_recovery_event: match &tracker.last_event {
            Some(event) => Some(event.clone()),
            None => None,
        },
    }
}

} // verus!
