//! Accounts, what they have used, and what is banked for them.

use crate::moment::Moment;
use vstd::prelude::*;

verus! {

/// One percent, in the units of `Percent`.
pub const PERCENT: i128 = 1_152_921_504_606_846_976;

/// A percentage in fixed point, with sixty binary places.
#[derive(Clone, Copy, Debug, PartialEq, Eq, Structural)]
pub struct Percent {
    pub units: i128,
}

/// How the next account is chosen.
#[derive(Clone, Copy, Debug, PartialEq, Eq, Structural)]
pub enum AutoSwitchStrategy {
    SmartBalanced,
    ResetsFirst,
    ExpiringSubscriptionFirst,
    MostRemainingQuota,
    RoundRobin,
}

/// An account that a session can be moved to.
#[derive(Debug)]
pub struct StoredAccount {
    pub id: String,
    pub name: String,
    pub plan_type: Option<String>,
    pub subscription_expires_at: Option<Moment>,
}

impl StoredAccount {
    /// The end of the subscription, where it is known, is a date of the calendar.
    pub open spec fn wf(&self) -> bool {
        self.subscription_expires_at matches Some(end) ==> end.wf()
    }
}

impl Clone for StoredAccount {
    fn clone(&self) -> (r: Self)
        ensures
            r == *self,
    {
        StoredAccount {
            id: self.id.clone(),
            name: self.name.clone(),
            plan_type: match &self.plan_type {
                Some(plan) => Some(plan.clone()),
                None => None,
            },
            subscription_expires_at: self.subscription_expires_at,
        }
    }
}

/// What an account has used of its session window (primary) and its weekly window (secondary).
#[derive(Debug)]
pub struct UsageInfo {
    pub account_id: String,
    pub plan_type: Option<String>,
    pub primary_used_percent: Option<Percent>,
    pub primary_window_minutes: Option<i64>,
    pub primary_resets_at: Option<i64>,
    pub secondary_used_percent: Option<Percent>,
    pub secondary_window_minutes: Option<i64>,
    pub secondary_resets_at: Option<i64>,
}

/// A credit that resets the limits of an account once.
#[derive(Debug)]
pub struct AccountResetCredit {
    pub id: String,
    pub reset_type: String,
    pub status: String,
    pub expires_at: Option<String>,
}

/// The reset credits of an account.
#[derive(Debug)]
pub struct AccountResetCredits {
    pub available_count: u32,
    pub next_expires_at: Option<String>,
    pub credits: Vec<AccountResetCredit>,
}

} // verus!
