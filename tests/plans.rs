use norma_backend::account::{Account, AccountStatus, AccountType, BillingPeriod, SubscriptionState};
use norma_backend::plans::{
    change_billing_period, change_plan, create_subscription, parse_billing_period, parse_plan_id,
    plan_price_rsd, subscription_summary, Activation, PlanChange, PlanError,
};
use norma_backend::store::{AccountStore, InsertError};

const NOW: i64 = 1_700_000_000;
const DAY: i64 = 86_400;

fn account() -> Account {
    Account::new_registered(1, None, "a@example.com".to_string(), true, None, NOW - DAY)
}

#[test]
fn price_list() {
    assert_eq!(plan_price_rsd(AccountType::Individual, BillingPeriod::Monthly), Some(3400));
    assert_eq!(plan_price_rsd(AccountType::Individual, BillingPeriod::Yearly), Some(34000));
    assert_eq!(plan_price_rsd(AccountType::Professional, BillingPeriod::Monthly), Some(6400));
    assert_eq!(plan_price_rsd(AccountType::Premium, BillingPeriod::Yearly), Some(64000));
    assert_eq!(plan_price_rsd(AccountType::Team, BillingPeriod::Monthly), Some(24900));
    assert_eq!(plan_price_rsd(AccountType::Team, BillingPeriod::Yearly), Some(249000));
    assert_eq!(plan_price_rsd(AccountType::TrialRegistered, BillingPeriod::Monthly), None);
    assert_eq!(parse_billing_period("yearly"), Some(BillingPeriod::Yearly));
    assert_eq!(parse_billing_period("weekly"), None);
    assert_eq!(parse_plan_id("team"), Some(AccountType::Team));
    assert_eq!(parse_plan_id("premium"), None);
}

#[test]
fn change_plan_to_individual_and_team() {
    let mut a = account();
    let r = change_plan(&mut a, "individual", "monthly", 9, NOW);
    assert_eq!(r, Ok(PlanChange { account_type: AccountType::Individual, billing_period: BillingPeriod::Monthly, price_rsd: 3400, expires_at: NOW + 30 * DAY }));
    assert_eq!(a.trial_messages_remaining, Some(20));
    assert_eq!(a.team_id, None);
    assert_eq!(a.subscription_started_at, Some(NOW));
    assert_eq!(a.subscription_status, Some(SubscriptionState::Active));
    let r = change_plan(&mut a, "team", "yearly", 9, NOW);
    assert_eq!(r.unwrap().price_rsd, 249000);
    assert_eq!(a.team_id, Some(9));
    assert_eq!(a.trial_messages_remaining, None);
    assert_eq!(a.next_billing_date, Some(NOW + 365 * DAY));
}

#[test]
fn change_plan_rejects_bad_input() {
    let mut a = account();
    assert_eq!(change_plan(&mut a, "premium", "monthly", 1, NOW), Err(PlanError::InvalidPlan));
    assert_eq!(change_plan(&mut a, "individual", "weekly", 1, NOW), Err(PlanError::InvalidBillingPeriod));
    assert_eq!(a.account_type, AccountType::TrialRegistered);
}

#[test]
fn change_billing_period_rules() {
    let mut trial = account();
    assert_eq!(change_billing_period(&mut trial, "yearly", NOW), Err(PlanError::InvalidPlanType));
    assert_eq!(change_billing_period(&mut trial, "daily", NOW), Err(PlanError::InvalidBillingPeriod));
    let mut pro = account();
    pro.account_type = AccountType::Premium;
    let r = change_billing_period(&mut pro, "yearly", NOW).unwrap();
    assert_eq!(r.price_rsd, 64000);
    assert_eq!(pro.subscription_type, Some(BillingPeriod::Yearly));
    assert_eq!(pro.next_billing_date, Some(NOW + 365 * DAY));
    pro.account_status = AccountStatus::Suspended;
    assert_eq!(change_billing_period(&mut pro, "monthly", NOW), Err(PlanError::NotFound));
}

#[test]
fn purchase_activates_paid_window() {
    let mut a = account();
    let r = create_subscription(&mut a, "premium", "monthly", None, 5, NOW);
    assert_eq!(r, Ok(Activation { account_type: AccountType::Professional, billing_period: BillingPeriod::Monthly, price_rsd: 6400, expires_at: NOW + 30 * DAY }));
    assert_eq!(a.premium_expires_at, Some(NOW + 30 * DAY));
    assert_eq!(a.trial_messages_remaining, None);
    let mut b = account();
    let r = create_subscription(&mut b, "gold", "yearly", None, 5, NOW).unwrap();
    assert_eq!(r.price_rsd, 6400);
    assert_eq!(r.account_type, AccountType::Professional);
    let mut c = account();
    let r = create_subscription(&mut c, "team", "yearly", Some(1234), 5, NOW).unwrap();
    assert_eq!(r.price_rsd, 1234);
    assert_eq!(c.team_id, Some(5));
    assert_eq!(create_subscription(&mut c, "team", "often", None, 5, NOW), Err(PlanError::InvalidBillingPeriod));
}

#[test]
fn summary_reports_tier_state_and_price() {
    let mut a = account();
    assert_eq!(subscription_summary(&a), (AccountType::TrialRegistered, SubscriptionState::Active, 0));
    a.account_type = AccountType::Premium;
    a.subscription_type = Some(BillingPeriod::Yearly);
    a.subscription_status = Some(SubscriptionState::Cancelled);
    assert_eq!(subscription_summary(&a), (AccountType::Professional, SubscriptionState::Cancelled, 64000));
}

#[test]
fn replace_writes_back_a_changed_record() {
    let mut store = AccountStore::new();
    store.insert(account()).unwrap();
    let mut a = store.peek(1).unwrap();
    change_plan(&mut a, "professional", "monthly", 0, NOW).unwrap();
    assert_eq!(store.replace_account(a), Ok(()));
    assert_eq!(store.peek(1).unwrap().account_type, AccountType::Professional);
    let mut ghost = account();
    ghost.id = 2;
    assert_eq!(store.replace_account(ghost), Err(InsertError::Missing));
    let mut broken = store.peek(1).unwrap();
    broken.account_status = AccountStatus::Deleted;
    assert_eq!(store.replace_account(broken), Err(InsertError::Malformed));
}
