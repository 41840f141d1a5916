use norma_backend::account::{Account, AccountType, BillingPeriod, SubscriptionState};
use norma_backend::billing::{
    apply_subscription_status, get_subscription_status, product_id_to_plan_info,
    verify_webhook_signature, Entitlement, Platform, Subscriber, SubscriberInfo, Subscription,
    SubscriptionStatus,
};
use norma_backend::store::AccountStore;

const NOW: i64 = 1_700_000_000;
const DAY: i64 = 86_400;

#[test]
fn test_product_id_mapping() {
    assert_eq!(
        product_id_to_plan_info("com.nikola.normaai.individual.monthly"),
        Some(("individual", "monthly"))
    );
    assert_eq!(
        product_id_to_plan_info("com.nikola.normaai.professional.yearly"),
        Some(("professional", "yearly"))
    );
    assert_eq!(product_id_to_plan_info("invalid.product.id"), None);
}

#[test]
fn test_subscription_status_mapping() {
    let status = SubscriptionStatus {
        account_type: AccountType::Professional,
        subscription_type: Some(BillingPeriod::Monthly),
        expires_at: Some(NOW + 30 * DAY),
        is_active: true,
        platform: Some(Platform::Ios),
        in_grace_period: false,
    };
    assert!(status.is_active);
    assert_eq!(status.account_type, AccountType::Professional);
}

#[test]
fn remaining_product_ids_map() {
    assert_eq!(product_id_to_plan_info("com.nikola.normaai.team.monthly"), Some(("team", "monthly")));
    assert_eq!(product_id_to_plan_info("com.nikola.normaai.team.yearly"), Some(("team", "yearly")));
    assert_eq!(product_id_to_plan_info("com.nikola.normaai.individual.yearly"), Some(("individual", "yearly")));
    assert_eq!(product_id_to_plan_info("com.nikola.normaai.professional.monthly"), Some(("professional", "monthly")));
    assert_eq!(product_id_to_plan_info(""), None);
}

#[test]
fn webhook_signature_is_exact_bearer_secret() {
    assert!(verify_webhook_signature("Bearer s3cret", "s3cret"));
    assert!(!verify_webhook_signature("Bearer s3cret ", "s3cret"));
    assert!(!verify_webhook_signature("bearer s3cret", "s3cret"));
    assert!(!verify_webhook_signature("s3cret", "s3cret"));
    assert!(verify_webhook_signature("Bearer ", ""));
}

fn entitlement(expires: Option<&str>) -> Entitlement {
    Entitlement {
        expires_date: expires.map(|s| s.to_string()),
        product_identifier: "p".to_string(),
        purchase_date: "2023-01-01T00:00:00Z".to_string(),
    }
}

fn subscription(expires: &str, purchased: &str, store: &str, billing_issue: bool) -> Subscription {
    Subscription {
        expires_date: Some(expires.to_string()),
        purchase_date: purchased.to_string(),
        original_purchase_date: purchased.to_string(),
        period_type: "normal".to_string(),
        store: store.to_string(),
        is_sandbox: false,
        unsubscribe_detected_at: None,
        billing_issues_detected_at: if billing_issue { Some("2023-11-10T00:00:00Z".to_string()) } else { None },
        ownership_type: "PURCHASED".to_string(),
    }
}

// NOW is 2023-11-14T22:13:20Z.
#[test]
fn status_from_subscriber_prefers_professional_and_latest_purchase() {
    let info = SubscriberInfo {
        subscriber: Subscriber {
            original_app_user_id: "u".to_string(),
            entitlements: vec![
                ("individual".to_string(), entitlement(Some("2023-12-01T00:00:00Z"))),
                ("professional".to_string(), entitlement(Some("2023-12-10T00:00:00+01:00"))),
            ],
            subscriptions: vec![
                ("com.nikola.normaai.professional.yearly".to_string(), subscription("2023-12-10T00:00:00Z", "2023-11-01T00:00:00Z", "play_store", true)),
                ("com.nikola.normaai.individual.monthly".to_string(), subscription("2023-12-01T00:00:00Z", "2023-10-01T00:00:00Z", "app_store", false)),
                ("old".to_string(), subscription("2023-01-01T00:00:00Z", "2024-01-01T00:00:00Z", "stripe", false)),
            ],
        },
    };
    let st = get_subscription_status(&info, NOW);
    assert_eq!(st.account_type, AccountType::Professional);
    assert!(st.is_active);
    assert_eq!(st.subscription_type, Some(BillingPeriod::Yearly));
    assert_eq!(st.expires_at, Some(1_702_166_400));
    assert_eq!(st.platform, Some(Platform::Android));
    assert!(st.in_grace_period);
}

#[test]
fn status_without_running_entitlements_is_trial() {
    let info = SubscriberInfo {
        subscriber: Subscriber {
            original_app_user_id: "u".to_string(),
            entitlements: vec![
                ("professional".to_string(), entitlement(Some("2023-01-01T00:00:00Z"))),
                ("individual".to_string(), entitlement(Some("not a date"))),
            ],
            subscriptions: vec![("monthly".to_string(), subscription("garbage", "2023-01-01T00:00:00Z", "stripe", false))],
        },
    };
    let st = get_subscription_status(&info, NOW);
    assert_eq!(st.account_type, AccountType::TrialRegistered);
    assert!(!st.is_active);
    assert_eq!(st.subscription_type, None);
    assert_eq!(st.expires_at, None);
    assert_eq!(st.platform, None);
    assert!(!st.in_grace_period);
}

#[test]
fn individual_entitlement_with_stripe_monthly() {
    let info = SubscriberInfo {
        subscriber: Subscriber {
            original_app_user_id: "u".to_string(),
            entitlements: vec![("individual".to_string(), entitlement(Some("2023-12-01T00:00:00Z")))],
            subscriptions: vec![("ind.monthly".to_string(), subscription("2023-12-01T00:00:00Z", "2023-11-01T00:00:00Z", "stripe", false))],
        },
    };
    let st = get_subscription_status(&info, NOW);
    assert_eq!(st.account_type, AccountType::Individual);
    assert_eq!(st.subscription_type, Some(BillingPeriod::Monthly));
    assert_eq!(st.platform, Some(Platform::Web));
    assert_eq!(st.expires_at, Some(1_701_388_800));
}

fn base_account() -> Account {
    Account::new_registered(1, None, "a@example.com".to_string(), true, None, NOW - DAY)
}

#[test]
fn sync_active_individual_sets_quota() {
    let mut a = base_account();
    let st = SubscriptionStatus {
        account_type: AccountType::Individual,
        subscription_type: Some(BillingPeriod::Monthly),
        expires_at: Some(NOW + 30 * DAY),
        is_active: true,
        platform: Some(Platform::Web),
        in_grace_period: false,
    };
    apply_subscription_status(&mut a, &st, NOW);
    assert_eq!(a.account_type, AccountType::Individual);
    assert_eq!(a.trial_messages_remaining, Some(20));
    assert_eq!(a.subscription_status, Some(SubscriptionState::Active));
    assert_eq!(a.next_billing_date, Some(NOW + 30 * DAY));
    assert_eq!(a.premium_expires_at, Some(NOW + 30 * DAY));
    assert_eq!(a.updated_at, NOW);
}

#[test]
fn sync_lapsed_drops_to_trial() {
    let mut a = base_account();
    a.account_type = AccountType::Professional;
    let st = SubscriptionStatus {
        account_type: AccountType::TrialRegistered,
        subscription_type: None,
        expires_at: Some(NOW - DAY),
        is_active: false,
        platform: None,
        in_grace_period: false,
    };
    apply_subscription_status(&mut a, &st, NOW);
    assert_eq!(a.account_type, AccountType::TrialRegistered);
    assert_eq!(a.trial_messages_remaining, Some(0));
    assert_eq!(a.subscription_status, Some(SubscriptionState::Expired));
    assert_eq!(a.next_billing_date, None);
    let mut b = base_account();
    let cancelled = SubscriptionStatus { expires_at: None, ..st };
    apply_subscription_status(&mut b, &cancelled, NOW);
    assert_eq!(b.subscription_status, Some(SubscriptionState::Cancelled));
}

#[test]
fn sync_professional_and_grace() {
    let mut store = AccountStore::new();
    store.insert(base_account()).unwrap();
    let st = SubscriptionStatus {
        account_type: AccountType::Professional,
        subscription_type: Some(BillingPeriod::Yearly),
        expires_at: Some(NOW + DAY),
        is_active: false,
        platform: None,
        in_grace_period: true,
    };
    assert!(store.update_user_subscription(1, &st, NOW));
    assert!(!store.update_user_subscription(2, &st, NOW));
    let a = store.peek(1).unwrap();
    assert_eq!(a.account_type, AccountType::Professional);
    assert_eq!(a.trial_messages_remaining, None);
    assert_eq!(a.subscription_status, Some(SubscriptionState::Active));
    assert_eq!(a.next_billing_date, None);
    let team = SubscriptionStatus { account_type: AccountType::Team, is_active: true, in_grace_period: false, ..st };
    let mut t = base_account();
    apply_subscription_status(&mut t, &team, NOW);
    assert_eq!(t.trial_messages_remaining, Some(5));
}
