use norma_backend::account::{Account, AccountType};
use norma_backend::entitlement::QuotaError;
use norma_backend::requests::{gate_question, settle_question, QuestionGate, Settlement};
use norma_backend::store::AccountStore;
use norma_backend::throttle::{IpAddress, IpTrialThrottle};

const NOW: i64 = 1_700_000_000;

fn store() -> AccountStore {
    let mut store = AccountStore::new();
    let mut a = Account::new_registered(1, None, "a@example.com".to_string(), true, None, NOW);
    a.trial_messages_remaining = Some(1);
    store.insert(a).unwrap();
    let mut pro = Account::new_registered(2, None, "p@example.com".to_string(), true, None, NOW);
    pro.account_type = AccountType::Professional;
    pro.premium_expires_at = Some(NOW + 100);
    store.insert(pro).unwrap();
    store
}

#[test]
fn question_gate_checks_address_then_quota() {
    let mut s = store();
    let mut t = IpTrialThrottle::new();
    let ip = IpAddress::from_v4(0x0a000001);
    assert_eq!(gate_question(&mut s, &t, ip, Some(1), NOW), QuestionGate::Proceed);
    assert_eq!(gate_question(&mut s, &t, ip, None, NOW), QuestionGate::QuotaExhausted);
    assert_eq!(gate_question(&mut s, &t, ip, Some(9), NOW), QuestionGate::QuotaExhausted);
    for _ in 0..3 {
        t.start_trial(ip).unwrap();
    }
    assert_eq!(gate_question(&mut s, &t, ip, Some(1), NOW), QuestionGate::IpLimitExceeded);
}

#[test]
fn charge_only_after_a_successful_answer() {
    let mut s = store();
    assert_eq!(settle_question(&mut s, Some(1), false, NOW), Settlement::NotCharged);
    assert_eq!(s.peek(1).unwrap().trial_messages_remaining, Some(1));
    assert_eq!(settle_question(&mut s, Some(1), true, NOW), Settlement::Charged);
    assert_eq!(s.peek(1).unwrap().trial_messages_remaining, Some(0));
    assert_eq!(settle_question(&mut s, Some(1), true, NOW), Settlement::ChargeFailed(QuotaError::NoQuota));
    assert_eq!(settle_question(&mut s, Some(2), true, NOW), Settlement::ChargeFailed(QuotaError::NoQuota));
    assert_eq!(settle_question(&mut s, None, true, NOW), Settlement::ChargeFailed(QuotaError::NotAuthenticated));
    let mut t = IpTrialThrottle::new();
    let ip = IpAddress::from_v6(1);
    assert_eq!(gate_question(&mut s, &t, ip, Some(1), NOW), QuestionGate::QuotaExhausted);
    assert_eq!(gate_question(&mut s, &t, ip, Some(2), NOW), QuestionGate::Proceed);
    t.start_trial(ip).unwrap();
}
