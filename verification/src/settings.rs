//! The settings of the recovery, and the phrase that a session is resumed with.

use crate::accounts::AutoSwitchStrategy;
use crate::json;
use crate::sessions;
use crate::text;
use vstd::prelude::*;

verus! {

/// The settings of the recovery.
#[derive(Debug)]
pub struct AppSettings {
    /// A session that found the servers overloaded is told to continue.
    pub auto_retry_capacity_enabled: bool,
    /// How often in a row.
    pub auto_retry_capacity_max_attempts: u32,
    /// The seconds before the first time; before the second it is twice as long, and so on.
    pub auto_retry_capacity_initial_delay_sec: u32,
    /// After the last time the account is switched.
    pub auto_retry_capacity_escalate_to_switch: bool,
    /// The account of a session that hit its usage limit is switched.
    pub auto_switch_limit_enabled: bool,
    pub auto_switch_strategy: AutoSwitchStrategy,
    /// A reset credit of the account in use is redeemed before the account is switched.
    pub auto_redeem_reset_credits: bool,
    /// What a session is told to continue.
    pub continue_phrase: String,
    /// A reset credit that expires within these days is used with priority.
    pub reset_credit_warning_days: u32,
    pub preferred_terminal: Option<String>,
}

impl Clone for AppSettings {
    fn clone(&self) -> (r: Self)
        ensures
            r == *self,
    {
        AppSettings {
            auto_retry_capacity_enabled: self.auto_retry_capacity_enabled,
            auto_retry_capacity_max_attempts: self.auto_retry_capacity_max_attempts,
            auto_retry_capacity_initial_delay_sec: self.auto_retry_capacity_initial_delay_sec,
            auto_retry_capacity_escalate_to_switch: self.auto_retry_capacity_escalate_to_switch,
            auto_switch_limit_enabled: self.auto_switch_limit_enabled,
            auto_switch_strategy: self.auto_switch_strategy,
            auto_redeem_reset_credits: self.auto_redeem_reset_credits,
            continue_phrase: self.continue_phrase.clone(),
            reset_credit_warning_days: self.reset_credit_warning_days,
            preferred_terminal: sessions::clone_text(&self.preferred_terminal),
        }
    }
}

// ---------------------------------------------------------------------------
// The phrase
// ---------------------------------------------------------------------------

/// The phrase without the white space around it; `continue` where nothing else is left.
pub open spec fn plain_phrase(phrase: Seq<char>) -> Seq<char> {
    if text::trimmed(phrase).len() == 0 {
        "continue"@
    } else {
        text::trimmed(phrase)
    }
}

/// What a session is told to continue: a session with an unfinished goal resumes its goal.
pub open spec fn resume_phrase(
    session_id: Seq<char>,
    phrase: Seq<char>,
    goal_active: bool,
) -> Seq<char> {
    if session_id.len() > 0 && goal_active {
        "/goal resume"@
    } else {
        plain_phrase(phrase)
    }
}

/// What a session is launched with: the prompt, where there is one.
pub open spec fn launch_phrase(
    session_id: Seq<char>,
    prompt: Option<Seq<char>>,
    phrase: Seq<char>,
    goal_active: bool,
) -> Seq<char> {
    match prompt {
        Some(words) => words,
        None => resume_phrase(session_id, phrase, goal_active),
    }
}

/// The phrase without the white space around it; `continue` where nothing else is left.
pub fn normalize_phrase(phrase: &str) -> (r: String)
    ensures
        r@ == plain_phrase(phrase@),
{
    let trimmed = text::trim(phrase);
    if trimmed.as_str().is_empty() {
        "continue".to_owned()
    } else {
        trimmed
    }
}

/// What a session is told to continue. `goal_active` says whether it has an unfinished goal.
pub fn resolve_session_resume_phrase(
    session_id: &str,
    user_continue_phrase: &str,
    goal_active: bool,
) -> (r: String)
    ensures
        r@ == resume_phrase(session_id@, user_continue_phrase@, goal_active),
{
    if !session_id.is_empty() && goal_active {
        "/goal resume".to_owned()
    } else {
        normalize_phrase(user_continue_phrase)
    }
}

/// What a session is launched with, and its id, which is empty for a new one.
pub fn launch_codex_session(
    session_id: Option<String>,
    prompt: Option<String>,
    continue_phrase: &str,
    goal_active: bool,
) -> (r: (String, String))
    ensures
        r.0@ == (match session_id {
            Some(id) => id@,
            None => Seq::empty(),
        }),
        r.1@ == launch_phrase(r.0@, text::opt_text(prompt), continue_phrase@, goal_active),
{
    let id = match session_id {
        Some(id) => id,
        None => String::new(),
    };
    let phrase = match prompt {
        Some(words) => words,
        None => resolve_session_resume_phrase(id.as_str(), continue_phrase, goal_active),
    };
    (id, phrase)
}

/// A phrase to resume with is never blank, and has no white space around it.
pub proof fn resume_phrase_is_never_blank(
    session_id: Seq<char>,
    phrase: Seq<char>,
    goal_active: bool,
)
    ensures
        resume_phrase(session_id, phrase, goal_active).len() > 0,
        text::trimmed(resume_phrase(session_id, phrase, goal_active)) == resume_phrase(
            session_id,
            phrase,
            goal_active,
        ),
{
    reveal_strlit("continue");
    reveal_strlit("/goal resume");
    text::trimming_is_idempotent(phrase);
}

/// A phrase that is kept is kept as it is from then on.
pub proof fn plain_phrase_is_stable(phrase: Seq<char>)
    ensures
        plain_phrase(plain_phrase(phrase)) == plain_phrase(phrase),
{
    reveal_strlit("continue");
    text::trimming_is_idempotent(phrase);
}

// ---------------------------------------------------------------------------
// Goals
// ---------------------------------------------------------------------------

/// The query for the status of the goal of a session, whose id is its parameter.
pub const GOAL_STATUS_QUERY: &'static str = "SELECT status FROM thread_goals WHERE thread_id = ?1";

/// The name of the file that goals are kept in.
pub const PRIMARY_GOAL_DATABASE: &'static str = "goals_1.sqlite";

/// A goal of such a status is unfinished; one of another status, or of none, is not.
pub open spec fn unfinished(status: Option<Seq<char>>) -> bool {
    status matches Some(name) && (name == "active"@ || name == "paused"@ || name
        == "usage_limited"@ || name == "blocked"@ || name == "budget_limited"@)
}

/// A file of another generation of goals has such a name.
pub open spec fn is_other_goal_database(file_name: Seq<char>) -> bool {
    &&& text::starts_with_text(file_name, "goals_"@)
    &&& text::ends_with_text(file_name, ".sqlite"@)
    &&& file_name != PRIMARY_GOAL_DATABASE@
}

/// Whether the goal is unfinished whose status was found in a file of goals; none is found where
/// the file cannot be read or knows no goal of the session.
pub fn is_session_goal_active_in_db(status: Option<&str>) -> (r: bool)
    ensures
        r == unfinished(json::opt_str(status)),
{
    match status {
        Some(name) => text::same_text(name, "active") || text::same_text(name, "paused")
            || text::same_text(name, "usage_limited") || text::same_text(name, "blocked")
            || text::same_text(name, "budget_limited"),
        None => false,
    }
}

/// Whether a file name is that of another generation of goals.
pub fn other_goal_database(file_name: &str) -> (r: bool)
    ensures
        r == is_other_goal_database(file_name@),
{
    text::starts_with(file_name, "goals_") && text::ends_with(file_name, ".sqlite")
        && !text::same_text(file_name, PRIMARY_GOAL_DATABASE)
}

/// A file of the directory of goals, with the status of the goal of a session that was found in
/// it.
#[derive(Debug)]
pub struct GoalFinding {
    pub file_name: String,
    pub status: Option<String>,
}

impl GoalFinding {
    /// The file is one of goals, and the goal of the session in it is unfinished.
    pub open spec fn tells_of_unfinished_goal(self) -> bool {
        is_other_goal_database(self.file_name@) && unfinished(text::opt_text(self.status))
    }
}

/// One of the files tells of an unfinished goal.
pub open spec fn any_unfinished(others: Seq<GoalFinding>) -> bool {
    exists|i: int| 0 <= i < others.len() && (#[trigger] others[i]).tells_of_unfinished_goal()
}

/// Whether a session has an unfinished goal: `primary` is its status in the primary file,
/// `others` are the files beside that one.
pub fn is_session_goal_active(primary: Option<&str>, others: &Vec<GoalFinding>) -> (r: bool)
    ensures
        r == (unfinished(json::opt_str(primary)) || exists|i: int|
            0 <= i < others@.len() && (#[trigger] others@[i]).tells_of_unfinished_goal()),
        r == (unfinished(json::opt_str(primary)) || any_unfinished(others@)),
{
    if is_session_goal_active_in_db(primary) {
        return true;
    }
    for i in 0..others.len()
        invariant
            forall|k: int| 0 <= k < i ==> !(#[trigger] others@[k]).tells_of_unfinished_goal(),
    {
        let status = match &others[i].status {
            Some(name) => Some(name.as_str()),
            None => None,
        };
        if other_goal_database(others[i].file_name.as_str()) && is_session_goal_active_in_db(
            status,
        ) {
            assert(others@[i as int].tells_of_unfinished_goal());
            return true;
        }
    }
    false
}

// ---------------------------------------------------------------------------
// Changing the settings
// ---------------------------------------------------------------------------

/// The settings with the given choices: the phrase is kept without the white space around it, and
/// the days of warning are at least one.
pub fn save_auto_recovery_settings(
    settings: AppSettings,
    auto_retry_capacity_enabled: bool,
    auto_retry_capacity_max_attempts: u32,
    auto_retry_capacity_initial_delay_sec: u32,
    auto_retry_capacity_escalate_to_switch: bool,
    auto_switch_limit_enabled: bool,
    auto_switch_strategy: AutoSwitchStrategy,
    auto_redeem_reset_credits: bool,
    continue_phrase: String,
    reset_credit_warning_days: u32,
    preferred_terminal: Option<String>,
) -> (r: AppSettings)
    ensures
        r.auto_retry_capacity_enabled == auto_retry_capacity_enabled,
        r.auto_retry_capacity_max_attempts == auto_retry_capacity_max_attempts,
        r.auto_retry_capacity_initial_delay_sec == auto_retry_capacity_initial_delay_sec,
        r.auto_retry_capacity_escalate_to_switch == auto_retry_capacity_escalate_to_switch,
        r.auto_switch_limit_enabled == auto_switch_limit_enabled,
        r.auto_switch_strategy == auto_switch_strategy,
        r.auto_redeem_reset_credits == auto_redeem_reset_credits,
        r.continue_phrase@ == plain_phrase(continue_phrase@),
        r.reset_credit_warning_days == if reset_credit_warning_days == 0 {
            1
        } else {
            reset_credit_warning_days as int
        },
        r.preferred_terminal == preferred_terminal,
{
    let mut settings = settings;
    settings.auto_retry_capacity_enabled = auto_retry_capacity_enabled;
    settings.auto_retry_capacity_max_attempts = auto_retry_capacity_max_attempts;
    settings.auto_retry_capacity_initial_delay_sec = auto_retry_capacity_initial_delay_sec;
    settings.auto_retry_capacity_escalate_to_switch = auto_retry_capacity_escalate_to_switch;
    settings.auto_switch_limit_enabled = auto_switch_limit_enabled;
    settings.auto_switch_strategy = auto_switch_strategy;
    settings.auto_redeem_reset_credits = auto_redeem_reset_credits;
    settings.continue_phrase = normalize_phrase(continue_phrase.as_str());
    settings.reset_credit_warning_days = if reset_credit_warning_days == 0 {
        1
    } else {
        reset_credit_warning_days
    };
    settings.preferred_terminal = preferred_terminal;
    settings
}

} // verus!
