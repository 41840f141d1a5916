//! The entitlement rules of one account: who may send a message, how the
//! quota is debited, and when an individual plan's monthly quota refills.
use vstd::prelude::*;
use crate::account::{is_unlimited_tier, valid_time, Account, AccountType};

verus! {

/// Messages granted to an individual plan for each monthly cycle.
pub const INDIVIDUAL_MONTHLY_MESSAGES: u32 = 20;

/// Messages granted to a new trial.
pub const TRIAL_MESSAGES: u32 = 5;

/// Length of the rolling monthly window.
pub const MONTH_SECS: i64 = 2_592_000;

/// Why a debit did not take place.
#[derive(Clone, Copy, Debug, PartialEq, Eq, Structural)]
pub enum QuotaError {
    /// The caller is not identified.
    NotAuthenticated,
    /// No message is left, or the plan carries no quota to debit.
    NoQuota,
}

/// The paid window is open: its end lies after `now`.
pub open spec fn paid_window_open(a: Account, now: i64) -> bool {
    match a.premium_expires_at {
        Some(e) => now < e,
        None => false,
    }
}

/// At least one message is left on the counter.
pub open spec fn has_messages(a: Account) -> bool {
    match a.trial_messages_remaining {
        Some(n) => n > 0,
        None => false,
    }
}

/// An open paid window on an unlimited tier allows everything; otherwise
/// the account lives on its counter.
pub open spec fn may_send(a: Account, now: i64) -> bool {
    (paid_window_open(a, now) && is_unlimited_tier(a.account_type)) || has_messages(a)
}

/// The guard of a debit.
pub open spec fn debit_allowed(a: Account) -> bool {
    !is_unlimited_tier(a.account_type) && has_messages(a)
}

/// The account after one message has been debited.
pub open spec fn debited(a: Account, now: i64) -> Account {
    Account {
        trial_messages_remaining: Some((a.trial_messages_remaining.unwrap() - 1) as u32),
        updated_at: now,
        ..a
    }
}

/// The later of the two moments the monthly window counts from.
pub open spec fn cycle_anchor(updated_at: i64, started_at: i64) -> i64 {
    if updated_at >= started_at {
        updated_at
    } else {
        started_at
    }
}

/// An individual plan refills when it has never been filled, or when it is
/// empty and a full window has passed since the later of its last update
/// and the start of its subscription.
pub open spec fn monthly_reset_due(a: Account, now: i64) -> bool {
    a.account_type == AccountType::Individual && match a.subscription_started_at {
        Some(s) => match a.trial_messages_remaining {
            None => true,
            Some(n) => n == 0 && now - cycle_anchor(a.updated_at, s) >= MONTH_SECS,
        },
        None => false,
    }
}

/// The account after a monthly refill.
pub open spec fn refilled(a: Account, now: i64) -> Account {
    Account { trial_messages_remaining: Some(INDIVIDUAL_MONTHLY_MESSAGES), updated_at: now, ..a }
}

/// The account after the sweep has looked at it.
pub open spec fn swept(a: Account, now: i64) -> Account {
    if monthly_reset_due(a, now) {
        refilled(a, now)
    } else {
        a
    }
}

/// Whether the resolved account may send a message now. An absent account
/// may not.
pub fn can_send_message(account: Option<&Account>, now: i64) -> (r: bool)
    ensures
        r == match account {
            Some(a) => may_send(*a, now),
            None => false,
        },
{
    match account {
        None => false,
        Some(a) => {
            let window_open = match a.premium_expires_at {
                Some(e) => now < e,
                None => false,
            };
            if window_open && a.account_type.is_unlimited() {
                true
            } else {
                match a.trial_messages_remaining {
                    Some(n) => n > 0,
                    None => false,
                }
            }
        },
    }
}

/// Debits one message when the guard holds; otherwise leaves the account
/// as it was and reports that no quota is left.
pub fn decrement_trial_message(account: &mut Account, now: i64) -> (r: Result<(), QuotaError>)
    ensures
        debit_allowed(*old(account)) ==> r is Ok && *final(account) == debited(*old(account), now),
        !debit_allowed(*old(account)) ==> r == Err::<(), QuotaError>(QuotaError::NoQuota)
            && *final(account) == *old(account),
{
    if account.account_type.is_unlimited() {
        return Err(QuotaError::NoQuota);
    }
    let left: u32 = match account.trial_messages_remaining {
        Some(n) => n,
        None => 0,
    };
    if left == 0 {
        return Err(QuotaError::NoQuota);
    }
    account.trial_messages_remaining = Some(left - 1);
    account.updated_at = now;
    Ok(())
}

/// Whether the monthly sweep refills this account now.
pub fn monthly_reset_is_due(account: &Account, now: i64) -> (r: bool)
    requires
        valid_time(now),
    ensures
        r == monthly_reset_due(*account, now),
{
    if account.account_type != AccountType::Individual {
        return false;
    }
    match account.subscription_started_at {
        None => false,
        Some(s) => match account.trial_messages_remaining {
            None => true,
            Some(n) => {
                if n != 0 {
                    false
                } else {
                    let anchor = if account.updated_at >= s {
                        account.updated_at
                    } else {
                        s
                    };
                    // `anchor > now - MONTH_SECS` says the window has not passed,
                    // without subtracting from a stored time.
                    !(anchor > now - MONTH_SECS)
                }
            },
        },
    }
}

/// Applies the monthly sweep to one account; true when it refilled it.
pub fn apply_monthly_reset(account: &mut Account, now: i64) -> (r: bool)
    requires
        valid_time(now),
    ensures
        r == monthly_reset_due(*old(account), now),
        *final(account) == swept(*old(account), now),
{
    if monthly_reset_is_due(account, now) {
        account.trial_messages_remaining = Some(INDIVIDUAL_MONTHLY_MESSAGES);
        account.updated_at = now;
        true
    } else {
        false
    }
}

/// Spend estimate in billionths of a US dollar: four characters count as
/// one token, input tokens cost 1250 and output tokens 10000 billionths each
/// (1.25 and 10 dollars per million).
pub open spec fn cost_nano_usd(input_chars: nat, output_chars: nat) -> nat {
    (input_chars / 4) * 1250 + (output_chars / 4) * 10000
}

pub fn estimate_llm_cost_nano_usd(input_chars: usize, output_chars: usize) -> (r: u128)
    ensures
        r as nat == cost_nano_usd(input_chars as nat, output_chars as nat),
{
    let input_tokens: u128 = (input_chars / 4) as u128;
    let output_tokens: u128 = (output_chars / 4) as u128;
    assert(input_tokens * 1250 <= 0xffff_ffff_ffff_ffffu128 * 1250) by (nonlinear_arith)
        requires input_tokens <= 0xffff_ffff_ffff_ffffu128;
    assert(output_tokens * 10000 <= 0xffff_ffff_ffff_ffffu128 * 10000) by (nonlinear_arith)
        requires output_tokens <= 0xffff_ffff_ffff_ffffu128;
    input_tokens * 1250 + output_tokens * 10000
}

} // verus!
