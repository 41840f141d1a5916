use norma_backend::account::{Account, AccountStatus, AccountType, BillingPeriod, SubscriptionState};
use norma_backend::entitlement::{
    apply_monthly_reset, can_send_message, decrement_trial_message, estimate_llm_cost_nano_usd,
    QuotaError,
};
use norma_backend::store::AccountStore;

const NOW: i64 = 1_700_000_000;
const DAY: i64 = 86_400;

fn account(id: u128, kind: AccountType, remaining: Option<u32>) -> Account {
    let mut a = Account::new_registered(id, None, format!("user{}@example.com", id), true, None, NOW - 100 * DAY);
    a.account_type = kind;
    a.trial_messages_remaining = remaining;
    a
}

#[test]
fn debits_count_down_to_zero_and_stop() {
    let mut a = account(1, AccountType::TrialRegistered, Some(5));
    for expected in [4u32, 3, 2, 1, 0] {
        assert_eq!(decrement_trial_message(&mut a, NOW), Ok(()));
        assert_eq!(a.trial_messages_remaining, Some(expected));
        assert_eq!(a.updated_at, NOW);
    }
    for _ in 0..3 {
        assert_eq!(decrement_trial_message(&mut a, NOW + 1), Err(QuotaError::NoQuota));
        assert_eq!(a.trial_messages_remaining, Some(0));
    }
    assert_eq!(a.updated_at, NOW);
}

#[test]
fn unlimited_plans_are_never_debited() {
    for kind in [AccountType::Professional, AccountType::Team, AccountType::Premium] {
        let mut a = account(2, kind, Some(3));
        assert_eq!(decrement_trial_message(&mut a, NOW), Err(QuotaError::NoQuota));
        assert_eq!(a.trial_messages_remaining, Some(3));
    }
    let mut untracked = account(3, AccountType::Individual, None);
    assert_eq!(decrement_trial_message(&mut untracked, NOW), Err(QuotaError::NoQuota));
}

#[test]
fn last_message_race_has_one_winner() {
    let mut store = AccountStore::new();
    store.insert(account(7, AccountType::TrialRegistered, Some(1))).unwrap();
    assert_eq!(store.decrement_trial_message(Some(7), NOW), Ok(()));
    assert_eq!(store.decrement_trial_message(Some(7), NOW), Err(QuotaError::NoQuota));
    assert_eq!(store.peek(7).unwrap().trial_messages_remaining, Some(0));
    assert_eq!(store.decrement_trial_message(None, NOW), Err(QuotaError::NotAuthenticated));
    assert_eq!(store.decrement_trial_message(Some(99), NOW), Err(QuotaError::NoQuota));
}

fn individual_on_zero(updated_days_ago: i64) -> Account {
    let mut a = account(10, AccountType::Individual, Some(0));
    a.subscription_started_at = Some(NOW - 60 * DAY);
    a.subscription_type = Some(BillingPeriod::Monthly);
    a.subscription_status = Some(SubscriptionState::Active);
    a.updated_at = NOW - updated_days_ago * DAY;
    a
}

#[test]
fn monthly_reset_after_thirty_one_days() {
    let mut a = individual_on_zero(31);
    assert!(apply_monthly_reset(&mut a, NOW));
    assert_eq!(a.trial_messages_remaining, Some(20));
    assert_eq!(a.updated_at, NOW);
}

#[test]
fn no_monthly_reset_at_twenty_nine_days() {
    let mut a = individual_on_zero(29);
    assert!(!apply_monthly_reset(&mut a, NOW));
    assert_eq!(a.trial_messages_remaining, Some(0));
    assert_eq!(a.updated_at, NOW - 29 * DAY);
}

#[test]
fn monthly_reset_counts_from_the_later_anchor() {
    let mut a = individual_on_zero(40);
    a.subscription_started_at = Some(NOW - 10 * DAY);
    assert!(!apply_monthly_reset(&mut a, NOW));
    let mut exact = individual_on_zero(30);
    assert!(apply_monthly_reset(&mut exact, NOW));
}

#[test]
fn first_cycle_fills_an_untracked_individual() {
    let mut a = individual_on_zero(1);
    a.trial_messages_remaining = None;
    assert!(apply_monthly_reset(&mut a, NOW));
    assert_eq!(a.trial_messages_remaining, Some(20));
    let mut no_subscription = account(11, AccountType::Individual, None);
    assert!(!apply_monthly_reset(&mut no_subscription, NOW));
    assert_eq!(no_subscription.trial_messages_remaining, None);
}

#[test]
fn sweep_counts_refilled_accounts() {
    let mut store = AccountStore::new();
    let mut a = individual_on_zero(31);
    a.id = 1;
    let mut b = individual_on_zero(29);
    b.id = 2;
    let c = account(3, AccountType::TrialRegistered, Some(0));
    store.insert(a).unwrap();
    store.insert(b).unwrap();
    store.insert(c).unwrap();
    assert_eq!(store.auto_reset_individual_monthly_limits(NOW), 1);
    assert_eq!(store.peek(1).unwrap().trial_messages_remaining, Some(20));
    assert_eq!(store.peek(2).unwrap().trial_messages_remaining, Some(0));
    assert_eq!(store.peek(3).unwrap().trial_messages_remaining, Some(0));
}

#[test]
fn entitlement_scenario_three_accounts() {
    let mut store = AccountStore::new();
    let mut pro = account(1, AccountType::Professional, Some(0));
    pro.premium_expires_at = Some(NOW + 10 * DAY);
    let trial = account(2, AccountType::TrialRegistered, Some(0));
    let mut ind = account(3, AccountType::Individual, Some(0));
    ind.subscription_started_at = Some(NOW - 40 * DAY);
    ind.updated_at = NOW - 40 * DAY;
    store.insert(pro).unwrap();
    store.insert(trial).unwrap();
    store.insert(ind).unwrap();
    assert!(store.can_send_message(Some(1), NOW));
    assert!(!store.can_send_message(Some(2), NOW));
    assert!(store.can_send_message(Some(3), NOW));
    assert_eq!(store.peek(3).unwrap().trial_messages_remaining, Some(20));
    assert!(!store.can_send_message(None, NOW));
    assert!(!store.can_send_message(Some(42), NOW));
}

#[test]
fn expired_window_falls_back_to_counter() {
    let mut pro = account(4, AccountType::Professional, Some(0));
    pro.premium_expires_at = Some(NOW - 1);
    assert!(!can_send_message(Some(&pro), NOW));
    pro.trial_messages_remaining = Some(2);
    assert!(can_send_message(Some(&pro), NOW));
    let mut no_window = account(5, AccountType::Team, None);
    assert!(!can_send_message(Some(&no_window), NOW));
    no_window.premium_expires_at = Some(NOW + 1);
    assert!(can_send_message(Some(&no_window), NOW));
    assert!(!can_send_message(None, NOW));
}

#[test]
fn individual_with_open_window_still_uses_counter() {
    let mut a = account(6, AccountType::Individual, Some(0));
    a.premium_expires_at = Some(NOW + DAY);
    assert!(!can_send_message(Some(&a), NOW));
}

#[test]
fn suspended_account_cannot_send() {
    let mut store = AccountStore::new();
    let mut a = account(8, AccountType::TrialRegistered, Some(3));
    a.account_status = AccountStatus::Suspended;
    store.insert(a).unwrap();
    assert!(!store.can_send_message(Some(8), NOW));
    assert!(store.get_user(Some(8), NOW).is_none());
}

#[test]
fn cost_estimate_in_billionths() {
    assert_eq!(estimate_llm_cost_nano_usd(0, 0), 0);
    assert_eq!(estimate_llm_cost_nano_usd(4000, 400), 1000 * 1250 + 100 * 10000);
    assert_eq!(estimate_llm_cost_nano_usd(7, 3), 1250);
}

#[test]
fn account_tier_helpers() {
    let trial = account(1, AccountType::TrialUnregistered, Some(5));
    assert!(!trial.is_registered());
    assert!(!trial.can_upload_documents());
    assert_eq!(trial.messages_remaining(), Some(5));
    let pro = account(2, AccountType::Premium, Some(5));
    assert!(pro.is_registered());
    assert!(pro.can_upload_documents());
    assert_eq!(pro.messages_remaining(), None);
    assert_eq!(AccountType::Premium.access_type(), AccountType::Professional);
    assert_eq!(AccountType::TrialUnregistered.access_type(), AccountType::TrialRegistered);
}
