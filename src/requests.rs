//! The decisions around one metered question: whether it may go out to the
//! completion provider, and how it is charged once the answer is in. The
//! caller performs the call in between and reports how it went.
use vstd::prelude::*;
use crate::account::valid_time;
use crate::entitlement::{debit_allowed, debited, QuotaError};
use crate::store::{lookup, put, store_after_check, store_may_send, AccountStore};
use crate::throttle::{trials_of, IpAddress, IpTrialThrottle, MAX_TRIALS_PER_IP};

verus! {

/// Whether a question may be sent on.
#[derive(Clone, Copy, Debug, PartialEq, Eq, Structural)]
pub enum QuestionGate {
    /// Go ahead and call the completion provider.
    Proceed,
    /// The source address has used up its trials.
    IpLimitExceeded,
    /// The caller may not send a message (no account, or no quota).
    QuotaExhausted,
}

/// How a question was charged.
#[derive(Clone, Copy, Debug, PartialEq, Eq, Structural)]
pub enum Settlement {
    /// The completion failed; nothing is charged.
    NotCharged,
    /// One message was debited.
    Charged,
    /// The answer stands but the debit did not take place; the caller logs
    /// this and still delivers the answer.
    ChargeFailed(QuotaError),
}

/// Decides whether a question goes on: the source address must be under
/// its trial limit, then the caller must be allowed a message (which runs
/// the monthly sweep and loads the account as `can_send_message` does).
pub fn gate_question(
    store: &mut AccountStore,
    throttle: &IpTrialThrottle,
    ip: IpAddress,
    user: Option<u128>,
    now: i64,
) -> (r: QuestionGate)
    requires
        old(store).wf(),
        valid_time(now),
    ensures
        final(store).wf(),
        trials_of(throttle@, ip) >= MAX_TRIALS_PER_IP ==> r == QuestionGate::IpLimitExceeded
            && final(store)@ == old(store)@,
        trials_of(throttle@, ip) < MAX_TRIALS_PER_IP ==> match user {
            None => r == QuestionGate::QuotaExhausted && final(store)@ == old(store)@,
            Some(u) => final(store)@ == store_after_check(old(store)@, u, now) && r == if store_may_send(
                old(store)@,
                u,
                now,
            ) {
                QuestionGate::Proceed
            } else {
                QuestionGate::QuotaExhausted
            },
        },
{
    if !throttle.check_ip_trial_limits(ip) {
        return QuestionGate::IpLimitExceeded;
    }
    if store.can_send_message(user, now) {
        QuestionGate::Proceed
    } else {
        QuestionGate::QuotaExhausted
    }
}

/// Charges a question after the completion call: nothing when it failed,
/// one debit when it succeeded. A debit that does not take place is
/// reported, never turned into a failure of the answered question.
pub fn settle_question(store: &mut AccountStore, user: Option<u128>, completion_ok: bool, now: i64) -> (r: Settlement)
    requires
        old(store).wf(),
    ensures
        final(store).wf(),
        !completion_ok ==> r == Settlement::NotCharged && final(store)@ == old(store)@,
        completion_ok ==> match user {
            None => r == Settlement::ChargeFailed(QuotaError::NotAuthenticated) && final(store)@ == old(store)@,
            Some(u) => match lookup(old(store)@, u) {
                Some(a) if debit_allowed(a) => r == Settlement::Charged && final(store)@ == put(
                    old(store)@,
                    u,
                    debited(a, now),
                ),
                _ => r == Settlement::ChargeFailed(QuotaError::NoQuota) && final(store)@ == old(store)@,
            },
        },
{
    if !completion_ok {
        return Settlement::NotCharged;
    }
    match store.decrement_trial_message(user, now) {
        Ok(()) => Settlement::Charged,
        Err(e) => Settlement::ChargeFailed(e),
    }
}

} // verus!
