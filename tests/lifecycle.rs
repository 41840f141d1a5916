use norma_backend::account::{Account, AccountStatus, AccountType, BillingPeriod, SubscriptionState};
use norma_backend::lifecycle::{restore, soft_delete, RestoreError};
use norma_backend::store::{AccountStore, DeleteError, InsertError, LinkError};

const NOW: i64 = 1_700_000_000;
const DAY: i64 = 86_400;

fn account(id: u128) -> Account {
    Account::new_registered(id, Some(id + 1000), format!("user{}@example.com", id), true, None, NOW - 100 * DAY)
}

#[test]
fn restore_within_twenty_nine_days() {
    let mut a = account(1);
    let ends = soft_delete(&mut a, NOW);
    assert_eq!(ends, NOW + 30 * DAY);
    assert_eq!(a.account_status, AccountStatus::Deleted);
    assert_eq!(a.deleted_at, Some(NOW));
    assert_eq!(restore(&mut a, NOW + 29 * DAY), Ok(()));
    assert_eq!(a.account_status, AccountStatus::Active);
    assert_eq!(a.deleted_at, None);
}

#[test]
fn restore_on_day_thirty_one_is_refused() {
    let mut a = account(2);
    soft_delete(&mut a, NOW);
    assert_eq!(restore(&mut a, NOW + 31 * DAY), Err(RestoreError::GracePeriodExpired));
    assert_eq!(a.account_status, AccountStatus::Deleted);
    assert_eq!(restore(&mut a, NOW + 30 * DAY), Err(RestoreError::GracePeriodExpired));
    let mut active = account(3);
    assert_eq!(restore(&mut active, NOW), Err(RestoreError::GracePeriodExpired));
}

#[test]
fn soft_delete_cancels_active_subscription() {
    let mut a = account(4);
    a.account_type = AccountType::Professional;
    a.subscription_status = Some(SubscriptionState::Active);
    a.next_billing_date = Some(NOW + 12 * DAY);
    a.premium_expires_at = Some(NOW + 40 * DAY);
    a.subscription_started_at = Some(NOW - 18 * DAY);
    soft_delete(&mut a, NOW);
    assert_eq!(a.premium_expires_at, Some(NOW + 12 * DAY));
    assert_eq!(a.next_billing_date, None);
    assert_eq!(a.subscription_started_at, None);
    assert_eq!(a.subscription_type, None);
    assert_eq!(a.subscription_status, Some(SubscriptionState::Cancelled));
}

#[test]
fn store_restore_and_grace_queries() {
    let mut store = AccountStore::new();
    store.insert(account(1)).unwrap();
    assert_eq!(store.soft_delete_user(1, NOW), Some(NOW));
    assert_eq!(store.soft_delete_user(9, NOW), None);
    assert!(store.is_within_grace_period(1, NOW + 10 * DAY));
    assert!(!store.is_within_grace_period(1, NOW + 30 * DAY));
    assert_eq!(store.restore_user(9, NOW).err(), Some(RestoreError::NotFound));
    assert_eq!(store.restore_user(1, NOW + 31 * DAY).err(), Some(RestoreError::GracePeriodExpired));
    let back = store.restore_user(1, NOW + 5 * DAY).unwrap();
    assert_eq!(back.account_status, AccountStatus::Active);
    assert_eq!(back.deleted_at, None);
    assert_eq!(back.updated_at, NOW + 5 * DAY);
}

#[test]
fn loading_a_deleted_account_restores_it_in_grace() {
    let mut store = AccountStore::new();
    store.insert(account(1)).unwrap();
    store.insert(account(2)).unwrap();
    store.soft_delete_user(1, NOW);
    store.soft_delete_user(2, NOW - 40 * DAY);
    let a = store.get_user(Some(1), NOW + DAY).unwrap();
    assert_eq!(a.account_status, AccountStatus::Active);
    assert_eq!(store.peek(1).unwrap().account_status, AccountStatus::Active);
    assert!(store.get_user(Some(2), NOW).is_none());
    assert_eq!(store.peek(2).unwrap().account_status, AccountStatus::Deleted);
    assert!(store.get_user(None, NOW).is_none());
}

#[test]
fn purge_erases_only_closed_windows() {
    let mut store = AccountStore::new();
    for id in 1..=4u128 {
        store.insert(account(id)).unwrap();
    }
    store.soft_delete_user(1, NOW - 31 * DAY);
    store.soft_delete_user(2, NOW - 30 * DAY);
    store.soft_delete_user(3, NOW - 29 * DAY);
    assert_eq!(store.get_expired_deleted_users(NOW), vec![1u128, 2]);
    assert_eq!(store.purge_expired_deleted_users(NOW), 2);
    assert_eq!(store.len(), 2);
    assert!(store.peek(1).is_none());
    assert!(store.peek(2).is_none());
    assert!(store.peek(3).is_some());
    assert!(store.peek(4).is_some());
    assert!(store.permanently_delete_user(4));
    assert!(!store.permanently_delete_user(4));
    assert_eq!(store.len(), 1);
}

#[test]
fn delete_request_guards() {
    let mut store = AccountStore::new();
    let mut admin = account(1);
    admin.account_type = AccountType::Team;
    admin.team_id = Some(77);
    let mut member = account(2);
    member.team_id = Some(77);
    store.insert(admin).unwrap();
    store.insert(member).unwrap();
    store.insert(account(3)).unwrap();
    assert!(store.is_team_admin(1));
    assert!(!store.is_team_admin(2));
    assert_eq!(store.request_delete_account(9, true, NOW), Err(DeleteError::NotFound));
    assert_eq!(store.request_delete_account(3, false, NOW), Err(DeleteError::ConfirmationRequired));
    assert_eq!(store.request_delete_account(1, true, NOW), Err(DeleteError::TeamAdmin));
    assert_eq!(store.request_delete_account(3, true, NOW), Ok(NOW + 30 * DAY));
    assert_eq!(store.peek(3).unwrap().account_status, AccountStatus::Deleted);
    assert_eq!(store.request_delete_account(3, true, NOW), Err(DeleteError::NotFound));
    assert_eq!(store.request_delete_account(2, true, NOW), Ok(NOW + 30 * DAY));
    assert!(!store.is_team_admin(1));
    assert_eq!(store.request_delete_account(1, true, NOW), Ok(NOW + 30 * DAY));
}

#[test]
fn insert_refuses_duplicates_and_malformed_rows() {
    let mut store = AccountStore::new();
    store.insert(account(1)).unwrap();
    assert_eq!(store.insert(account(1)), Err(InsertError::DuplicateId));
    let mut broken = account(2);
    broken.account_status = AccountStatus::Deleted;
    assert_eq!(store.insert(broken), Err(InsertError::Malformed));
    assert_eq!(store.len(), 1);
}

#[test]
fn cancel_subscription_keeps_paid_period() {
    let mut store = AccountStore::new();
    let mut a = account(1);
    a.next_billing_date = Some(NOW + 3 * DAY);
    store.insert(a).unwrap();
    assert!(store.cancel_subscription(1, NOW));
    assert!(!store.cancel_subscription(2, NOW));
    let a = store.peek(1).unwrap();
    assert_eq!(a.premium_expires_at, Some(NOW + 3 * DAY));
    assert_eq!(a.subscription_status, Some(SubscriptionState::Cancelled));
}

#[test]
fn link_user_creates_restores_or_refuses() {
    let mut store = AccountStore::new();
    let created = store.link_user(500, "new@example.com".to_string(), Some("google".to_string()), 1, NOW);
    assert_eq!(created, Ok((1, true)));
    let a = store.peek(1).unwrap();
    assert_eq!(a.account_type, AccountType::TrialRegistered);
    assert_eq!(a.trial_messages_remaining, Some(5));
    assert!(a.email_verified);
    assert_eq!(store.link_user(500, "new@example.com".to_string(), None, 2, NOW), Ok((1, false)));
    store.soft_delete_user(1, NOW);
    assert_eq!(store.link_user(500, "x".to_string(), None, 2, NOW + DAY), Ok((1, false)));
    assert_eq!(store.peek(1).unwrap().account_status, AccountStatus::Active);
    store.soft_delete_user(1, NOW);
    assert_eq!(
        store.link_user(500, "x".to_string(), None, 2, NOW + 31 * DAY),
        Err(LinkError::AccountPermanentlyDeleted)
    );
    assert_eq!(store.link_user(600, "y".to_string(), None, 1, NOW), Err(LinkError::DuplicateId));
    let email_user = store.link_user(700, "z".to_string(), Some("email".to_string()), 3, NOW);
    assert_eq!(email_user, Ok((3, true)));
    assert!(!store.peek(3).unwrap().email_verified);
}

#[test]
fn user_status_reports_tier_and_quota() {
    let mut store = AccountStore::new();
    let mut pro = account(1);
    pro.account_type = AccountType::Premium;
    pro.subscription_type = Some(BillingPeriod::Yearly);
    store.insert(pro).unwrap();
    store.insert(account(2)).unwrap();
    let st = store.get_user_status_optimized(Some(1), 12, NOW);
    assert!(st.is_authenticated);
    assert_eq!(st.user_id, Some(1));
    assert_eq!(st.access_type, AccountType::Professional);
    assert_eq!(st.account_type, AccountType::Premium);
    assert_eq!(st.messages_remaining, None);
    assert_eq!(st.total_messages_sent, 12);
    assert_eq!(st.subscription_type, Some(BillingPeriod::Yearly));
    let trial = store.get_user_status_optimized(Some(2), 0, NOW);
    assert_eq!(trial.access_type, AccountType::TrialRegistered);
    assert_eq!(trial.messages_remaining, Some(5));
    assert_eq!(trial.email.as_deref(), Some("user2@example.com"));
    let nobody = store.get_user_status_optimized(None, 7, NOW);
    assert!(!nobody.is_authenticated);
    assert_eq!(nobody.total_messages_sent, 0);
    assert_eq!(nobody.messages_remaining, None);
    store.soft_delete_user(2, NOW);
    let restored = store.get_user_status_optimized(Some(2), 0, NOW + DAY);
    assert_eq!(restored.user_id, Some(2));
    assert_eq!(store.peek(2).unwrap().account_status, AccountStatus::Active);
}
