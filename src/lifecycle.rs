//! The soft-delete lifecycle of one account: deletion with a grace window,
//! restoration inside it, and the point after which the account is purged.
use vstd::prelude::*;
use crate::account::{valid_time, Account, AccountStatus, SubscriptionState};

verus! {

/// Length of the window in which a deleted account can come back.
pub const GRACE_SECS: i64 = 2_592_000;

/// The account is deleted and its grace window has not closed.
pub open spec fn within_grace(a: Account, now: i64) -> bool {
    a.account_status == AccountStatus::Deleted && match a.deleted_at {
        Some(d) => now < d + GRACE_SECS,
        None => false,
    }
}

/// The account is deleted and its grace window has closed.
pub open spec fn purge_due(a: Account, now: i64) -> bool {
    a.account_status == AccountStatus::Deleted && match a.deleted_at {
        Some(d) => d + GRACE_SECS <= now,
        None => false,
    }
}

/// The account after a restore.
pub open spec fn restored(a: Account, now: i64) -> Account {
    Account { account_status: AccountStatus::Active, deleted_at: None, updated_at: now, ..a }
}

/// The account after its subscription has been cancelled: paid access runs
/// to the already billed date and the forward-looking fields are cleared.
pub open spec fn subscription_cancelled(a: Account, now: i64) -> Account {
    Account {
        premium_expires_at: a.next_billing_date,
        subscription_type: None,
        subscription_started_at: None,
        next_billing_date: None,
        subscription_status: Some(SubscriptionState::Cancelled),
        updated_at: now,
        ..a
    }
}

/// The account after a soft delete: an active subscription is cancelled
/// first, then the account is marked deleted as of `now`.
pub open spec fn soft_deleted(a: Account, now: i64) -> Account {
    let b = if a.subscription_status == Some(SubscriptionState::Active) {
        subscription_cancelled(a, now)
    } else {
        a
    };
    Account { account_status: AccountStatus::Deleted, deleted_at: Some(now), updated_at: now, ..b }
}

/// A user's request to delete their account.
pub struct DeleteAccountRequest {
    pub confirmation: bool,
}

pub struct DeleteAccountResponse {
    pub success: bool,
    pub message: String,
    /// When the account will be erased, as RFC 3339 text.
    pub grace_period_ends: Option<String>,
}

/// Why a restore was refused.
#[derive(Clone, Copy, Debug, PartialEq, Eq, Structural)]
pub enum RestoreError {
    /// No such account.
    NotFound,
    /// The account is not deleted, or its grace window has closed.
    GracePeriodExpired,
}

/// Whether the account is deleted and can still be restored.
pub fn is_within_grace_period(a: &Account, now: i64) -> (r: bool)
    requires
        valid_time(now),
    ensures
        r == within_grace(*a, now),
{
    match a.account_status {
        AccountStatus::Deleted => match a.deleted_at {
            Some(d) => d > now - GRACE_SECS,
            None => false,
        },
        _ => false,
    }
}

/// Whether the grace window of a deleted account has closed.
pub fn purge_is_due(a: &Account, now: i64) -> (r: bool)
    requires
        valid_time(now),
    ensures
        r == purge_due(*a, now),
{
    match a.account_status {
        AccountStatus::Deleted => match a.deleted_at {
            Some(d) => d <= now - GRACE_SECS,
            None => false,
        },
        _ => false,
    }
}

/// Cancels the subscription, keeping paid access through the billed period.
pub fn cancel_subscription(a: &mut Account, now: i64)
    ensures
        *final(a) == subscription_cancelled(*old(a), now),
{
    a.premium_expires_at = a.next_billing_date;
    a.subscription_type = None;
    a.subscription_started_at = None;
    a.next_billing_date = None;
    a.subscription_status = Some(SubscriptionState::Cancelled);
    a.updated_at = now;
}

/// Marks the account deleted as of `now`, cancelling an active
/// subscription; returns the end of the grace window.
pub fn soft_delete(a: &mut Account, now: i64) -> (r: i64)
    requires
        valid_time(now),
    ensures
        *final(a) == soft_deleted(*old(a), now),
        final(a).wf(),
        r == now + GRACE_SECS,
{
    if a.subscription_status == Some(SubscriptionState::Active) {
        cancel_subscription(a, now);
    }
    a.account_status = AccountStatus::Deleted;
    a.deleted_at = Some(now);
    a.updated_at = now;
    now + GRACE_SECS
}

/// Brings a deleted account back while its grace window is open; refuses
/// otherwise and leaves the account as it was.
pub fn restore(a: &mut Account, now: i64) -> (r: Result<(), RestoreError>)
    requires
        valid_time(now),
        old(a).wf(),
    ensures
        within_grace(*old(a), now) ==> r is Ok && *final(a) == restored(*old(a), now),
        !within_grace(*old(a), now) ==> r == Err::<(), RestoreError>(
            RestoreError::GracePeriodExpired,
        ) && *final(a) == *old(a),
        final(a).wf(),
{
    if !is_within_grace_period(a, now) {
        return Err(RestoreError::GracePeriodExpired);
    }
    a.account_status = AccountStatus::Active;
    a.deleted_at = None;
    a.updated_at = now;
    Ok(())
}

} // verus!
