//! Properties that relate several operations of the engine, proved over the
//! spec functions the operations' contracts are stated in.
use vstd::prelude::*;
use crate::account::{is_unlimited_tier, Account, AccountStatus, AccountType};
use crate::entitlement::{
    debit_allowed, debited, monthly_reset_due, swept, INDIVIDUAL_MONTHLY_MESSAGES, MONTH_SECS,
};
use crate::store::{lemma_position, lemma_put_keeps_position, lookup, position, put, records_wf};
use crate::lifecycle::{restored, soft_deleted, within_grace, GRACE_SECS};
use crate::sessions::{
    active_count, is_active_for, is_stale, lemma_count_update, lemma_count_zero,
    lemma_least_recent, lemma_most_recent, lemma_pruned_count, least_recent, most_recent, opened,
    opened_new, pruned, revoked, rotated, Session, MAX_CONCURRENT_SESSIONS, SESSION_LIFETIME_SECS,
};
use crate::throttle::{trial_step, MAX_TRIALS_PER_IP};

verus! {

/// The account after `n` debit attempts, each applied only when its guard
/// holds.
pub open spec fn debit_times(a: Account, n: nat, now: i64) -> Account
    decreases n,
{
    if n == 0 {
        a
    } else {
        let b = debit_times(a, (n - 1) as nat, now);
        if debit_allowed(b) {
            debited(b, now)
        } else {
            b
        }
    }
}

/// How many of `n` debit attempts on the account succeed.
pub open spec fn debit_successes(a: Account, n: nat, now: i64) -> nat
    decreases n,
{
    if n == 0 {
        0
    } else {
        debit_successes(a, (n - 1) as nat, now) + if debit_allowed(debit_times(a, (n - 1) as nat, now)) {
            1nat
        } else {
            0nat
        }
    }
}

/// A limited account that starts with `v` messages has `max(v - n, 0)`
/// left after `n` debit attempts, of which exactly `min(n, v)` succeed; it
/// keeps its tier, and once at zero admits no further debit.
pub proof fn law_debits_floor_at_zero(a: Account, v: u32, n: nat, now: i64)
    requires
        !is_unlimited_tier(a.account_type),
        a.trial_messages_remaining == Some(v),
    ensures
        debit_times(a, n, now).account_type == a.account_type,
        debit_times(a, n, now).trial_messages_remaining == Some(
            if n >= v {
                0u32
            } else {
                (v - n) as u32
            },
        ),
        n >= v ==> !debit_allowed(debit_times(a, n, now)),
        debit_successes(a, n, now) == if n >= v {
            v as nat
        } else {
            n
        },
    decreases n,
{
    if n > 0 {
        law_debits_floor_at_zero(a, v, (n - 1) as nat, now);
    }
}

/// A debit through the table acts on the stored record alone: after it,
/// the record under the id is the account the debit produced, so debits
/// through the table chain as `debit_times` does.
pub proof fn law_table_debit_chains(s: Seq<Account>, id: u128, a: Account, now: i64)
    requires
        records_wf(s),
        lookup(s, id) == Some(a),
    ensures
        debit_allowed(a) ==> lookup(put(s, id, debited(a, now)), id) == Some(debit_times(a, 1, now)),
        debit_allowed(a) ==> records_wf(put(s, id, debited(a, now))),
{
    assert(debit_times(a, 0, now) == a);
    lemma_position(s, id);
    let p = position(s, id);
    if debit_allowed(a) {
        lemma_put_keeps_position(s, id, debited(a, now));
        let t = put(s, id, debited(a, now));
        assert forall|i: int| 0 <= i < t.len() implies (#[trigger] t[i]).wf() by {
            if i != p {
                assert(t[i] == s[i]);
            }
        }
        assert forall|i: int, j: int|
            0 <= i < t.len() && 0 <= j < t.len() && i != j implies t[i].id != t[j].id by {
            assert(t[i].id == s[i].id && t[j].id == s[j].id);
        }
    }
}

/// Two debits racing for the last message: the first succeeds and leaves
/// zero, the second finds no quota.
pub proof fn law_last_message_debited_once(a: Account, first: i64)
    requires
        !is_unlimited_tier(a.account_type),
        a.trial_messages_remaining == Some(1u32),
    ensures
        debit_allowed(a),
        debited(a, first).trial_messages_remaining == Some(0u32),
        !debit_allowed(debited(a, first)),
{
}

/// Opening a session for an account that holds the maximum of live
/// sessions, none of them stale, leaves it at the maximum: the least
/// recently seen live session is revoked and the new one added.
pub proof fn law_session_cap(s: Seq<Session>, t: Seq<Session>, acct: u128, now: i64, y: Session)
    requires
        now <= i64::MAX - SESSION_LIFETIME_SECS,
        active_count(s, acct, now) == MAX_CONCURRENT_SESSIONS,
        forall|q: int| 0 <= q < s.len() && is_active_for(#[trigger] s[q], acct, now) ==> !is_stale(s[q], now),
        opened_new(t, s, acct, now, y),
        opened(y, y.id, acct, y.token_hash@, y.device_info, y.ip_address, now),
    ensures
        active_count(t, acct, now) == MAX_CONCURRENT_SESSIONS,
        ({
            let u = pruned(s, Some(acct), now);
            let l = least_recent(u, acct, now);
            &&& 0 <= l < u.len()
            &&& is_active_for(u[l], acct, now)
            &&& t[l] == revoked(u[l])
            &&& forall|q: int|
                0 <= q < u.len() && is_active_for(#[trigger] u[q], acct, now) ==> u[l].last_seen_at
                    <= u[q].last_seen_at
        }),
{
    let u = pruned(s, Some(acct), now);
    lemma_pruned_count(s, acct, now);
    lemma_least_recent(u, acct, now);
    let l = least_recent(u, acct, now);
    if l == -1 {
        lemma_count_zero(u, acct, now);
    }
    let v = u.update(l, revoked(u[l]));
    lemma_count_update(u, l, revoked(u[l]), acct, now);
    assert(v.push(y).drop_last() =~= v);
    assert(t[l] == v[l]);
}

/// Rotating the token of the session a refresh picks (the most recently
/// seen live session, of the install when one is named) keeps the
/// session's id and the account's live count.
pub proof fn law_token_rotation_keeps_session(
    s: Seq<Session>,
    acct: u128,
    d: Option<Seq<char>>,
    now: i64,
    y: Session,
    h: Seq<char>,
    device_info: Option<crate::sessions::DeviceInfo>,
)
    requires
        now <= i64::MAX - SESSION_LIFETIME_SECS,
        most_recent(s, acct, d, now) >= 0,
        rotated(y, s[most_recent(s, acct, d, now)], h, device_info, now),
    ensures
        y.id == s[most_recent(s, acct, d, now)].id,
        active_count(s.update(most_recent(s, acct, d, now), y), acct, now) == active_count(s, acct, now),
{
    lemma_most_recent(s, acct, d, now);
    let p = most_recent(s, acct, d, now);
    lemma_count_update(s, p, y, acct, now);
}

/// A soft-deleted account comes back active with no deletion time when
/// restored before its grace window closes, and cannot be restored after.
pub proof fn law_soft_delete_then_restore(a: Account, deleted: i64, later: i64)
    ensures
        later < deleted + GRACE_SECS ==> within_grace(soft_deleted(a, deleted), later),
        later < deleted + GRACE_SECS ==> restored(soft_deleted(a, deleted), later).account_status
            == AccountStatus::Active,
        later < deleted + GRACE_SECS ==> restored(soft_deleted(a, deleted), later).deleted_at is None,
        later >= deleted + GRACE_SECS ==> !within_grace(soft_deleted(a, deleted), later),
{
}

/// An address is admitted for exactly its first three trials.
pub proof fn law_three_trials_per_address(n: nat)
    ensures
        trial_step(n).0 <==> n < MAX_TRIALS_PER_IP,
        trial_step(0).1 == 1 && trial_step(1).1 == 2 && trial_step(2).1 == 3,
        trial_step(0).0 && trial_step(1).0 && trial_step(2).0 && !trial_step(3).0,
{
}

/// An empty individual plan whose last update is not older than its
/// subscription refills exactly when a full window has passed since that
/// update, and then holds the monthly quota.
pub proof fn law_monthly_reset_window(a: Account, now: i64)
    requires
        a.account_type == AccountType::Individual,
        a.trial_messages_remaining == Some(0u32),
        a.subscription_started_at is Some,
        a.subscription_started_at.unwrap() <= a.updated_at,
    ensures
        monthly_reset_due(a, now) <==> now - a.updated_at >= MONTH_SECS,
        now - a.updated_at >= MONTH_SECS ==> swept(a, now).trial_messages_remaining == Some(
            INDIVIDUAL_MONTHLY_MESSAGES,
        ),
        now - a.updated_at < MONTH_SECS ==> swept(a, now) == a,
{
}

} // verus!
