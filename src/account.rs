//! Account records: the tiers, statuses and fields that every entitlement
//! decision reads. Times are whole seconds since the Unix epoch.
use vstd::prelude::*;

verus! {

/// Seconds in one day.
pub const DAY_SECS: i64 = 86_400;

/// The largest timestamp the engine accepts as "now" (the end of year 9999).
pub const MAX_TIME: i64 = 253_402_300_799;

/// A clock reading the engine can do arithmetic on without overflow.
pub open spec fn valid_time(t: i64) -> bool {
    0 <= t <= MAX_TIME
}

/// The tier of an account.
#[derive(Clone, Copy, Debug, PartialEq, Eq, Structural)]
pub enum AccountType {
    TrialUnregistered,
    TrialRegistered,
    Individual,
    Professional,
    Team,
    /// Legacy tier, treated as `Professional`.
    Premium,
}

/// Whether an account may be used.
#[derive(Clone, Copy, Debug, PartialEq, Eq, Structural)]
pub enum AccountStatus {
    Active,
    Suspended,
    Deleted,
}

/// The billing cadence of a subscription.
#[derive(Clone, Copy, Debug, PartialEq, Eq, Structural)]
pub enum BillingPeriod {
    Monthly,
    Yearly,
}

/// The state of a subscription as the billing side reports it.
#[derive(Clone, Copy, Debug, PartialEq, Eq, Structural)]
pub enum SubscriptionState {
    Active,
    Cancelled,
    Expired,
}

/// Tiers whose paid window grants unlimited messages.
pub open spec fn is_unlimited_tier(t: AccountType) -> bool {
    t == AccountType::Professional || t == AccountType::Team || t == AccountType::Premium
}

impl AccountType {
    /// True for the tiers that carry no message quota while paid.
    pub fn is_unlimited(&self) -> (r: bool)
        ensures
            r == is_unlimited_tier(*self),
    {
        match self {
            AccountType::Professional | AccountType::Team | AccountType::Premium => true,
            _ => false,
        }
    }

    /// The tier as the client sees it: the legacy tier shows as professional
    /// and both trial tiers show as a trial.
    pub fn access_type(&self) -> (r: AccountType)
        ensures
            r == access_type_of(*self),
    {
        match self {
            AccountType::Premium => AccountType::Professional,
            AccountType::TrialUnregistered => AccountType::TrialRegistered,
            other => *other,
        }
    }
}

pub open spec fn access_type_of(t: AccountType) -> AccountType {
    match t {
        AccountType::Premium => AccountType::Professional,
        AccountType::TrialUnregistered => AccountType::TrialRegistered,
        other => other,
    }
}

/// One account row.
#[derive(Debug)]
pub struct Account {
    pub id: u128,
    /// The identity provider's id for this person, when one is linked.
    pub auth_user_id: Option<u128>,
    pub email: String,
    pub email_verified: bool,
    pub oauth_provider: Option<String>,
    /// The stable identifier of an anonymous trial install.
    pub device_fingerprint: Option<String>,
    pub account_type: AccountType,
    pub account_status: AccountStatus,
    pub team_id: Option<u128>,
    /// Messages left; `None` means no quota is tracked.
    pub trial_messages_remaining: Option<u32>,
    pub premium_expires_at: Option<i64>,
    pub subscription_type: Option<BillingPeriod>,
    pub subscription_status: Option<SubscriptionState>,
    pub subscription_started_at: Option<i64>,
    pub next_billing_date: Option<i64>,
    pub created_at: i64,
    pub updated_at: i64,
    pub last_login: Option<i64>,
    pub deleted_at: Option<i64>,
}

/// The characters of an optional string.
pub open spec fn opt_text(o: Option<String>) -> Option<Seq<char>> {
    match o {
        Some(s) => Some(s@),
        None => None,
    }
}

/// Copies an optional string.
pub fn copy_opt_text(a: &Option<String>) -> (r: Option<String>)
    ensures
        r == *a,
{
    match a {
        Some(s) => Some(s.clone()),
        None => None,
    }
}

/// Equality of two string slices by content.
pub fn text_eq(a: &str, b: &str) -> (r: bool)
    ensures
        r == (a@ == b@),
{
    a.to_owned() == b.to_owned()
}

impl Account {
    /// The record's own consistency: a deleted account carries the time of
    /// its deletion.
    pub open spec fn wf(&self) -> bool {
        self.account_status == AccountStatus::Deleted ==> self.deleted_at.is_some()
    }

    /// A fresh registered account with the trial quota of five messages.
    pub fn new_registered(id: u128, auth_user_id: Option<u128>, email: String, email_verified: bool,
        oauth_provider: Option<String>, now: i64) -> (r: Account)
        ensures
            r.id == id,
            r.auth_user_id == auth_user_id,
            r.email == email,
            r.account_type == AccountType::TrialRegistered,
            r.account_status == AccountStatus::Active,
            r.trial_messages_remaining == Some(crate::entitlement::TRIAL_MESSAGES),
            r.premium_expires_at.is_none(),
            r.subscription_started_at.is_none(),
            r.deleted_at.is_none(),
            r.created_at == now,
            r.updated_at == now,
            r.wf(),
    {
        Account {
            id,
            auth_user_id,
            email,
            email_verified,
            oauth_provider,
            device_fingerprint: None,
            account_type: AccountType::TrialRegistered,
            account_status: AccountStatus::Active,
            team_id: None,
            trial_messages_remaining: Some(crate::entitlement::TRIAL_MESSAGES),
            premium_expires_at: None,
            subscription_type: None,
            subscription_status: None,
            subscription_started_at: None,
            next_billing_date: None,
            created_at: now,
            updated_at: now,
            last_login: None,
            deleted_at: None,
        }
    }

    /// A field-by-field copy.
    pub fn snapshot(&self) -> (r: Account)
        ensures
            r == *self,
    {
        Account {
            id: self.id,
            auth_user_id: self.auth_user_id,
            email: self.email.clone(),
            email_verified: self.email_verified,
            oauth_provider: copy_opt_text(&self.oauth_provider),
            device_fingerprint: copy_opt_text(&self.device_fingerprint),
            account_type: self.account_type,
            account_status: self.account_status,
            team_id: self.team_id,
            trial_messages_remaining: self.trial_messages_remaining,
            premium_expires_at: self.premium_expires_at,
            subscription_type: self.subscription_type,
            subscription_status: self.subscription_status,
            subscription_started_at: self.subscription_started_at,
            next_billing_date: self.next_billing_date,
            created_at: self.created_at,
            updated_at: self.updated_at,
            last_login: self.last_login,
            deleted_at: self.deleted_at,
        }
    }

    /// True for every tier that belongs to a registered person.
    pub fn is_registered(&self) -> (r: bool)
        ensures
            r == (self.account_type != AccountType::TrialUnregistered),
    {
        match self.account_type {
            AccountType::TrialUnregistered => false,
            _ => true,
        }
    }

    /// Document upload is reserved for the unlimited tiers.
    pub fn can_upload_documents(&self) -> (r: bool)
        ensures
            r == is_unlimited_tier(self.account_type),
    {
        self.account_type.is_unlimited()
    }

    /// The quota shown to the client: `None` (unlimited) for the unlimited
    /// tiers, the stored counter otherwise.
    pub fn messages_remaining(&self) -> (r: Option<u32>)
        ensures
            r == (if is_unlimited_tier(self.account_type) {
                None
            } else {
                self.trial_messages_remaining
            }),
    {
        if self.account_type.is_unlimited() {
            None
        } else {
            self.trial_messages_remaining
        }
    }
}

} // verus!
