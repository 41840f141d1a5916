//! Plan purchases and changes made through the service itself: the price
//! list, and what subscribing, switching plan and switching billing period
//! do to an account.
use vstd::prelude::*;
use crate::account::{
    text_eq, valid_time, Account, AccountStatus, AccountType, BillingPeriod,
    SubscriptionState, DAY_SECS,
};
use crate::entitlement::INDIVIDUAL_MONTHLY_MESSAGES;

verus! {

pub struct ChangePlanRequest {
    pub plan_id: String,
    pub billing_period: String,
}

pub struct ChangeBillingPeriodRequest {
    pub billing_period: String,
}

pub struct MessageResponse {
    pub success: bool,
    pub message: String,
}

/// Why a plan operation was refused.
#[derive(Clone, Copy, Debug, PartialEq, Eq, Structural)]
pub enum PlanError {
    InvalidPlan,
    InvalidBillingPeriod,
    /// The account's tier has no price (a trial).
    InvalidPlanType,
    /// No active account with this id.
    NotFound,
}

/// The billing period a text names.
pub open spec fn period_of(s: Seq<char>) -> Option<BillingPeriod> {
    if s == "monthly"@ {
        Some(BillingPeriod::Monthly)
    } else if s == "yearly"@ {
        Some(BillingPeriod::Yearly)
    } else {
        None
    }
}

pub fn parse_billing_period(s: &str) -> (r: Option<BillingPeriod>)
    ensures
        r == period_of(s@),
{
    if text_eq(s, "monthly") {
        Some(BillingPeriod::Monthly)
    } else if text_eq(s, "yearly") {
        Some(BillingPeriod::Yearly)
    } else {
        None
    }
}

/// The paid tier a plan id names; the legacy id is not offered.
pub open spec fn plan_of(s: Seq<char>) -> Option<AccountType> {
    if s == "individual"@ {
        Some(AccountType::Individual)
    } else if s == "professional"@ {
        Some(AccountType::Professional)
    } else if s == "team"@ {
        Some(AccountType::Team)
    } else {
        None
    }
}

pub fn parse_plan_id(s: &str) -> (r: Option<AccountType>)
    ensures
        r == plan_of(s@),
{
    if text_eq(s, "individual") {
        Some(AccountType::Individual)
    } else if text_eq(s, "professional") {
        Some(AccountType::Professional)
    } else if text_eq(s, "team") {
        Some(AccountType::Team)
    } else {
        None
    }
}

/// Price in dinars of a tier for a period; the legacy tier is priced as
/// professional, trials have no price.
pub open spec fn price_of(t: AccountType, p: BillingPeriod) -> Option<u32> {
    let yearly = p == BillingPeriod::Yearly;
    match t {
        AccountType::Individual => Some(if yearly { 34000u32 } else { 3400u32 }),
        AccountType::Professional | AccountType::Premium => Some(if yearly { 64000u32 } else { 6400u32 }),
        AccountType::Team => Some(if yearly { 249000u32 } else { 24900u32 }),
        _ => None,
    }
}

pub fn plan_price_rsd(t: AccountType, p: BillingPeriod) -> (r: Option<u32>)
    ensures
        r == price_of(t, p),
{
    let yearly = p == BillingPeriod::Yearly;
    match t {
        AccountType::Individual => Some(if yearly { 34000 } else { 3400 }),
        AccountType::Professional | AccountType::Premium => Some(if yearly { 64000 } else { 6400 }),
        AccountType::Team => Some(if yearly { 249000 } else { 24900 }),
        _ => None,
    }
}

/// Length of a billing period: thirty days or a year of 365 days.
pub open spec fn period_secs(p: BillingPeriod) -> int {
    match p {
        BillingPeriod::Monthly => 30 * DAY_SECS,
        BillingPeriod::Yearly => 365 * DAY_SECS,
    }
}

/// The account after switching to a paid plan: a new cycle starts now and
/// the individual plan gets its monthly quota, the others none.
pub open spec fn plan_switched(a: Account, t: AccountType, p: BillingPeriod, team_id: u128, now: i64) -> Account {
    Account {
        account_type: t,
        subscription_type: Some(p),
        subscription_started_at: Some(now),
        next_billing_date: Some((now + period_secs(p)) as i64),
        subscription_status: Some(SubscriptionState::Active),
        team_id: if t == AccountType::Team {
            Some(team_id)
        } else {
            None
        },
        trial_messages_remaining: if t == AccountType::Individual {
            Some(INDIVIDUAL_MONTHLY_MESSAGES)
        } else {
            None
        },
        updated_at: now,
        ..a
    }
}

/// The accepted outcome of a plan operation.
#[derive(Clone, Copy, Debug, PartialEq, Eq, Structural)]
pub struct PlanChange {
    pub account_type: AccountType,
    pub billing_period: BillingPeriod,
    pub price_rsd: u32,
    /// The next billing date.
    pub expires_at: i64,
}

/// Switches the account to a paid plan for a billing period; `team_id`
/// becomes the account's team when the plan is the team plan.
pub fn change_plan(
    a: &mut Account,
    plan_id: &str,
    billing_period: &str,
    team_id: u128,
    now: i64,
) -> (r: Result<PlanChange, PlanError>)
    requires
        valid_time(now),
    ensures
        plan_of(plan_id@) is None ==> r == Err::<PlanChange, PlanError>(PlanError::InvalidPlan)
            && *final(a) == *old(a),
        plan_of(plan_id@) is Some && period_of(billing_period@) is None ==> r == Err::<
            PlanChange,
            PlanError,
        >(PlanError::InvalidBillingPeriod) && *final(a) == *old(a),
        plan_of(plan_id@) is Some && period_of(billing_period@) is Some ==> {
            let t = plan_of(plan_id@).unwrap();
            let p = period_of(billing_period@).unwrap();
            &&& r == Ok::<PlanChange, PlanError>(
                PlanChange {
                    account_type: t,
                    billing_period: p,
                    price_rsd: price_of(t, p).unwrap(),
                    expires_at: (now + period_secs(p)) as i64,
                },
            )
            &&& *final(a) == plan_switched(*old(a), t, p, team_id, now)
        },
{
    let t = match parse_plan_id(plan_id) {
        None => return Err(PlanError::InvalidPlan),
        Some(t) => t,
    };
    let p = match parse_billing_period(billing_period) {
        None => return Err(PlanError::InvalidBillingPeriod),
        Some(p) => p,
    };
    let price = match plan_price_rsd(t, p) {
        Some(x) => x,
        None => return Err(PlanError::InvalidPlan),
    };
    let next = match p {
        BillingPeriod::Monthly => now + 30 * DAY_SECS,
        BillingPeriod::Yearly => now + 365 * DAY_SECS,
    };
    a.account_type = t;
    a.subscription_type = Some(p);
    a.subscription_started_at = Some(now);
    a.next_billing_date = Some(next);
    a.subscription_status = Some(SubscriptionState::Active);
    a.team_id = if t == AccountType::Team {
        Some(team_id)
    } else {
        None
    };
    a.trial_messages_remaining = if t == AccountType::Individual {
        Some(INDIVIDUAL_MONTHLY_MESSAGES)
    } else {
        None
    };
    a.updated_at = now;
    Ok(PlanChange { account_type: t, billing_period: p, price_rsd: price, expires_at: next })
}

/// Moves an active paid account to another billing period, starting a new
/// billing date from now.
pub fn change_billing_period(a: &mut Account, billing_period: &str, now: i64) -> (r: Result<PlanChange, PlanError>)
    requires
        valid_time(now),
    ensures
        period_of(billing_period@) is None ==> r == Err::<PlanChange, PlanError>(
            PlanError::InvalidBillingPeriod,
        ) && *final(a) == *old(a),
        period_of(billing_period@) is Some && old(a).account_status != AccountStatus::Active ==> r
            == Err::<PlanChange, PlanError>(PlanError::NotFound) && *final(a) == *old(a),
        period_of(billing_period@) is Some && old(a).account_status == AccountStatus::Active && price_of(
            old(a).account_type,
            period_of(billing_period@).unwrap(),
        ) is None ==> r == Err::<PlanChange, PlanError>(PlanError::InvalidPlanType) && *final(a)
            == *old(a),
        period_of(billing_period@) is Some && old(a).account_status == AccountStatus::Active && price_of(
            old(a).account_type,
            period_of(billing_period@).unwrap(),
        ) is Some ==> {
            let p = period_of(billing_period@).unwrap();
            let next = (now + period_secs(p)) as i64;
            &&& r == Ok::<PlanChange, PlanError>(
                PlanChange {
                    account_type: old(a).account_type,
                    billing_period: p,
                    price_rsd: price_of(old(a).account_type, p).unwrap(),
                    expires_at: next,
                },
            )
            &&& *final(a) == Account {
                subscription_type: Some(p),
                next_billing_date: Some(next),
                updated_at: now,
                ..*old(a)
            }
        },
{
    let p = match parse_billing_period(billing_period) {
        None => return Err(PlanError::InvalidBillingPeriod),
        Some(p) => p,
    };
    if a.account_status != AccountStatus::Active {
        return Err(PlanError::NotFound);
    }
    let price = match plan_price_rsd(a.account_type, p) {
        None => return Err(PlanError::InvalidPlanType),
        Some(x) => x,
    };
    let next = match p {
        BillingPeriod::Monthly => now + 30 * DAY_SECS,
        BillingPeriod::Yearly => now + 365 * DAY_SECS,
    };
    a.subscription_type = Some(p);
    a.next_billing_date = Some(next);
    a.updated_at = now;
    Ok(PlanChange { account_type: a.account_type, billing_period: p, price_rsd: price, expires_at: next })
}

/// The tier a purchase request's plan id buys: the legacy id and unknown
/// ids buy professional.
pub open spec fn purchased_tier(s: Seq<char>) -> AccountType {
    match plan_of(s) {
        Some(t) => t,
        None => AccountType::Professional,
    }
}

/// The list price of a purchase request's plan: unknown ids are priced as
/// a professional month whatever the period.
pub open spec fn list_price(s: Seq<char>, p: BillingPeriod) -> u32 {
    match plan_of(s) {
        Some(t) => price_of(t, p).unwrap(),
        None => if s == "premium"@ {
            price_of(AccountType::Professional, p).unwrap()
        } else {
            6400u32
        },
    }
}

/// The account after a purchase: paid access and billing both run one
/// period from now.
pub open spec fn activated(a: Account, t: AccountType, p: BillingPeriod, team_id: u128, now: i64) -> Account {
    Account {
        premium_expires_at: Some((now + period_secs(p)) as i64),
        ..plan_switched(a, t, p, team_id, now)
    }
}

/// The accepted outcome of a purchase.
#[derive(Clone, Copy, Debug, PartialEq, Eq, Structural)]
pub struct Activation {
    pub account_type: AccountType,
    pub billing_period: BillingPeriod,
    /// The price quoted by the client, or the list price.
    pub price_rsd: i64,
    pub expires_at: i64,
}

/// Activates a purchased plan. The billing period must be monthly or
/// yearly; the plan id decides the tier (see `purchased_tier`); `team_id`
/// becomes the account's team when the id is the team plan's.
pub fn create_subscription(
    a: &mut Account,
    plan_id: &str,
    billing_period: &str,
    quoted_price: Option<i64>,
    team_id: u128,
    now: i64,
) -> (r: Result<Activation, PlanError>)
    requires
        valid_time(now),
    ensures
        period_of(billing_period@) is None ==> r == Err::<Activation, PlanError>(
            PlanError::InvalidBillingPeriod,
        ) && *final(a) == *old(a),
        period_of(billing_period@) is Some ==> {
            let p = period_of(billing_period@).unwrap();
            let t = purchased_tier(plan_id@);
            &&& r == Ok::<Activation, PlanError>(
                Activation {
                    account_type: t,
                    billing_period: p,
                    price_rsd: match quoted_price {
                        Some(x) => x,
                        None => list_price(plan_id@, p) as i64,
                    },
                    expires_at: (now + period_secs(p)) as i64,
                },
            )
            &&& *final(a) == activated(*old(a), t, p, team_id, now)
        },
{
    let p = match parse_billing_period(billing_period) {
        None => return Err(PlanError::InvalidBillingPeriod),
        Some(p) => p,
    };
    let (t, listed) = match parse_plan_id(plan_id) {
        Some(t) => (t, plan_price_rsd(t, p)),
        None => if text_eq(plan_id, "premium") {
            (AccountType::Professional, plan_price_rsd(AccountType::Professional, p))
        } else {
            (AccountType::Professional, Some(6400u32))
        },
    };
    let list = match listed {
        Some(x) => x,
        None => 6400,
    };
    let price: i64 = match quoted_price {
        Some(x) => x,
        None => list as i64,
    };
    let end = match p {
        BillingPeriod::Monthly => now + 30 * DAY_SECS,
        BillingPeriod::Yearly => now + 365 * DAY_SECS,
    };
    a.account_type = t;
    a.premium_expires_at = Some(end);
    a.subscription_type = Some(p);
    a.subscription_started_at = Some(now);
    a.next_billing_date = Some(end);
    a.subscription_status = Some(SubscriptionState::Active);
    a.team_id = if t == AccountType::Team {
        Some(team_id)
    } else {
        None
    };
    a.trial_messages_remaining = if t == AccountType::Individual {
        Some(INDIVIDUAL_MONTHLY_MESSAGES)
    } else {
        None
    };
    a.updated_at = now;
    Ok(Activation { account_type: t, billing_period: p, price_rsd: price, expires_at: end })
}

/// What a subscription status query reports: the client-facing tier, the
/// recorded subscription state (active when none is recorded) and the
/// price of the current period; a trial reports itself active at no price.
pub open spec fn plan_summary(a: Account) -> (AccountType, SubscriptionState, u32) {
    let p = match a.subscription_type {
        Some(x) => x,
        None => BillingPeriod::Monthly,
    };
    let st = match a.subscription_status {
        Some(x) => x,
        None => SubscriptionState::Active,
    };
    match price_of(a.account_type, p) {
        Some(price) => (crate::account::access_type_of(a.account_type), st, price),
        None => (AccountType::TrialRegistered, SubscriptionState::Active, 0u32),
    }
}

pub fn subscription_summary(a: &Account) -> (r: (AccountType, SubscriptionState, u32))
    ensures
        r == plan_summary(*a),
{
    let p = match a.subscription_type {
        Some(x) => x,
        None => BillingPeriod::Monthly,
    };
    let st = match a.subscription_status {
        Some(x) => x,
        None => SubscriptionState::Active,
    };
    match plan_price_rsd(a.account_type, p) {
        Some(price) => (a.account_type.access_type(), st, price),
        None => (AccountType::TrialRegistered, SubscriptionState::Active, 0),
    }
}

} // verus!
