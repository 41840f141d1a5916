//! Reconciliation of the billing provider's view of a subscriber into the
//! entitlement fields of an account.
use vstd::prelude::*;
use vstd::string::StringExecFns;
use crate::account::{text_eq, Account, AccountType, BillingPeriod, SubscriptionState};
use crate::entitlement::{INDIVIDUAL_MONTHLY_MESSAGES, TRIAL_MESSAGES};
use crate::text::{contains_text, less_text, text_contains, text_lt};

verus! {

/// The instant, in whole seconds since the epoch, that an RFC 3339 text
/// names, or `None` when the text is not RFC 3339.
pub uninterp spec fn rfc3339_instant(s: Seq<char>) -> Option<i64>;

/// Relies on chrono's `DateTime::parse_from_rfc3339` and `timestamp`: the
/// result depends on the text alone.
#[verifier::external_body]
fn parse_rfc3339(s: &str) -> (r: Option<i64>)
    ensures
        r == rfc3339_instant(s@),
{
    match chrono::DateTime::parse_from_rfc3339(s) {
        Ok(d) => Some(d.timestamp()),
        Err(_) => None,
    }
}

/// An entitlement as the billing provider reports it.
pub struct Entitlement {
    pub expires_date: Option<String>,
    pub product_identifier: String,
    pub purchase_date: String,
}

/// A store subscription as the billing provider reports it.
pub struct Subscription {
    pub expires_date: Option<String>,
    pub purchase_date: String,
    pub original_purchase_date: String,
    pub period_type: String,
    pub store: String,
    pub is_sandbox: bool,
    pub unsubscribe_detected_at: Option<String>,
    pub billing_issues_detected_at: Option<String>,
    pub ownership_type: String,
}

/// A subscriber: entitlements and subscriptions keyed by name and product.
pub struct Subscriber {
    pub original_app_user_id: String,
    pub entitlements: Vec<(String, Entitlement)>,
    pub subscriptions: Vec<(String, Subscription)>,
}

pub struct SubscriberInfo {
    pub subscriber: Subscriber,
}

/// A billing event delivered by webhook.
pub struct WebhookEventData {
    pub event_type: String,
    pub app_user_id: String,
    pub product_id: String,
    pub period_type: String,
    pub purchased_at_ms: i64,
    pub expiration_at_ms: Option<i64>,
    pub store: String,
    pub environment: String,
}

pub struct WebhookEvent {
    pub event: WebhookEventData,
}

pub struct WebhookResponse {
    pub success: bool,
    pub message: String,
}

pub struct LinkPurchaseRequest {
    pub receipt_token: String,
    pub is_restore: bool,
}

/// The platform a subscription was bought on.
#[derive(Clone, Copy, Debug, PartialEq, Eq, Structural)]
pub enum Platform {
    Ios,
    Android,
    Web,
}

/// The entitlement state derived from a subscriber.
#[derive(Clone, Copy, Debug, PartialEq, Eq, Structural)]
pub struct SubscriptionStatus {
    pub account_type: AccountType,
    pub subscription_type: Option<BillingPeriod>,
    pub expires_at: Option<i64>,
    pub is_active: bool,
    pub platform: Option<Platform>,
    /// Billing trouble was seen but the paid period has not ended.
    pub in_grace_period: bool,
}

/// The tier and period of a store product, as text.
pub open spec fn plan_info(p: Seq<char>) -> Option<(Seq<char>, Seq<char>)> {
    if p == "com.nikola.normaai.individual.monthly"@ {
        Some(("individual"@, "monthly"@))
    } else if p == "com.nikola.normaai.individual.yearly"@ {
        Some(("individual"@, "yearly"@))
    } else if p == "com.nikola.normaai.professional.monthly"@ {
        Some(("professional"@, "monthly"@))
    } else if p == "com.nikola.normaai.professional.yearly"@ {
        Some(("professional"@, "yearly"@))
    } else if p == "com.nikola.normaai.team.monthly"@ {
        Some(("team"@, "monthly"@))
    } else if p == "com.nikola.normaai.team.yearly"@ {
        Some(("team"@, "yearly"@))
    } else {
        None
    }
}

/// Maps a store product id to its (tier, billing period).
pub fn product_id_to_plan_info(product_id: &str) -> (r: Option<(&'static str, &'static str)>)
    ensures
        match r {
            Some((t, p)) => plan_info(product_id@) == Some((t@, p@)),
            None => plan_info(product_id@) is None,
        },
{
    if text_eq(product_id, "com.nikola.normaai.individual.monthly") {
        Some(("individual", "monthly"))
    } else if text_eq(product_id, "com.nikola.normaai.individual.yearly") {
        Some(("individual", "yearly"))
    } else if text_eq(product_id, "com.nikola.normaai.professional.monthly") {
        Some(("professional", "monthly"))
    } else if text_eq(product_id, "com.nikola.normaai.professional.yearly") {
        Some(("professional", "yearly"))
    } else if text_eq(product_id, "com.nikola.normaai.team.monthly") {
        Some(("team", "monthly"))
    } else if text_eq(product_id, "com.nikola.normaai.team.yearly") {
        Some(("team", "yearly"))
    } else {
        None
    }
}

/// A webhook is genuine when its authorization header is exactly
/// `Bearer <secret>`.
pub fn verify_webhook_signature(authorization_header: &str, webhook_secret: &str) -> (r: bool)
    ensures
        r == (authorization_header@ == "Bearer "@ + webhook_secret@),
{
    let mut expected = String::from_str("Bearer ");
    expected.append(webhook_secret);
    authorization_header.to_owned() == expected
}

/// The text names an instant after `now`.
pub open spec fn names_future(s: Option<String>, now: i64) -> bool {
    match s {
        Some(t) => match rfc3339_instant(t@) {
            Some(e) => e > now,
            None => false,
        },
        None => false,
    }
}

fn is_future(s: &Option<String>, now: i64) -> (r: bool)
    ensures
        r == names_future(*s, now),
{
    match s {
        Some(t) => match parse_rfc3339(t.as_str()) {
            Some(e) => e > now,
            None => false,
        },
        None => false,
    }
}

/// Index of the last entitlement with this name, or -1.
pub open spec fn entitlement_position(s: Seq<(String, Entitlement)>, name: Seq<char>) -> int
    decreases s.len(),
{
    if s.len() == 0 {
        -1
    } else if s.last().0@ == name {
        s.len() - 1
    } else {
        entitlement_position(s.drop_last(), name)
    }
}

/// The named entitlement exists and runs past `now`.
pub open spec fn entitlement_active(s: Seq<(String, Entitlement)>, name: Seq<char>, now: i64) -> bool {
    let p = entitlement_position(s, name);
    p >= 0 && names_future(s[p].1.expires_date, now)
}

proof fn lemma_entitlement_position(s: Seq<(String, Entitlement)>, name: Seq<char>)
    ensures
        -1 <= entitlement_position(s, name) < s.len(),
    decreases s.len(),
{
    if s.len() > 0 {
        lemma_entitlement_position(s.drop_last(), name);
    }
}

fn has_active_entitlement(s: &Vec<(String, Entitlement)>, name: &str, now: i64) -> (r: bool)
    ensures
        r == entitlement_active(s@, name@, now),
{
    proof {
        lemma_entitlement_position(s@, name@);
    }
    let mut i = s.len();
    assert(s@.subrange(0, i as int) =~= s@);
    while i > 0
        invariant
            i <= s@.len(),
            entitlement_position(s@, name@) == entitlement_position(s@.subrange(0, i as int), name@),
        decreases i,
    {
        if text_eq(s[i - 1].0.as_str(), name) {
            return is_future(&s[i - 1].1.expires_date, now);
        }
        assert(s@.subrange(0, i as int).drop_last() =~= s@.subrange(0, i - 1));
        i -= 1;
    }
    false
}

/// Index of the subscription the status is read from: among those running
/// past `now`, the one with the greatest purchase date (the last among
/// equals), or -1.
pub open spec fn current_subscription(s: Seq<(String, Subscription)>, now: i64) -> int
    decreases s.len(),
{
    if s.len() == 0 {
        -1
    } else {
        let p = current_subscription(s.drop_last(), now);
        if names_future(s.last().1.expires_date, now) && (p < 0 || !text_lt(
            s.last().1.purchase_date@,
            s[p].1.purchase_date@,
        )) {
            s.len() - 1
        } else {
            p
        }
    }
}

proof fn lemma_current_subscription(s: Seq<(String, Subscription)>, now: i64)
    ensures
        -1 <= current_subscription(s, now) < s.len(),
    decreases s.len(),
{
    if s.len() > 0 {
        lemma_current_subscription(s.drop_last(), now);
    }
}

fn find_current_subscription(s: &Vec<(String, Subscription)>, now: i64) -> (r: Option<usize>)
    ensures
        match r {
            Some(i) => i as int == current_subscription(s@, now),
            None => current_subscription(s@, now) == -1,
        },
{
    let mut best: Option<usize> = None;
    let mut j: usize = 0;
    while j < s.len()
        invariant
            j <= s@.len(),
            match best {
                Some(b) => b < j && b as int == current_subscription(s@.subrange(0, j as int), now),
                None => current_subscription(s@.subrange(0, j as int), now) == -1,
            },
        decreases s@.len() - j,
    {
        assert(s@.subrange(0, j + 1).drop_last() =~= s@.subrange(0, j as int));
        if is_future(&s[j].1.expires_date, now) {
            match best {
                None => {
                    best = Some(j);
                },
                Some(b) => {
                    if !less_text(s[j].1.purchase_date.as_str(), s[b].1.purchase_date.as_str()) {
                        best = Some(j);
                    }
                },
            }
        }
        j += 1;
    }
    assert(s@.subrange(0, j as int) =~= s@);
    best
}

/// Some subscription key names a yearly product.
pub open spec fn any_yearly(s: Seq<(String, Subscription)>) -> bool {
    exists|i: int| 0 <= i < s.len() && text_contains((#[trigger] s[i]).0@, "yearly"@)
}

fn has_yearly_key(s: &Vec<(String, Subscription)>) -> (r: bool)
    ensures
        r == any_yearly(s@),
{
    let mut i: usize = 0;
    while i < s.len()
        invariant
            i <= s@.len(),
            forall|k: int| 0 <= k < i ==> !text_contains((#[trigger] s@[k]).0@, "yearly"@),
        decreases s@.len() - i,
    {
        if contains_text(s[i].0.as_str(), "yearly") {
            return true;
        }
        i += 1;
    }
    false
}

/// The platform a store name stands for.
pub open spec fn platform_of(store: Seq<char>) -> Option<Platform> {
    if store == "app_store"@ {
        Some(Platform::Ios)
    } else if store == "play_store"@ {
        Some(Platform::Android)
    } else if store == "stripe"@ {
        Some(Platform::Web)
    } else {
        None
    }
}

fn platform_for_store(store: &str) -> (r: Option<Platform>)
    ensures
        r == platform_of(store@),
{
    if text_eq(store, "app_store") {
        Some(Platform::Ios)
    } else if text_eq(store, "play_store") {
        Some(Platform::Android)
    } else if text_eq(store, "stripe") {
        Some(Platform::Web)
    } else {
        None
    }
}

/// The status a subscriber is in at `now`: the tier of the best running
/// entitlement (professional over individual, else a registered trial), and
/// the period, end, platform and grace flag of the current subscription.
pub open spec fn derived_status(sub: Subscriber, now: i64) -> SubscriptionStatus {
    let account_type = if entitlement_active(sub.entitlements@, "professional"@, now) {
        AccountType::Professional
    } else if entitlement_active(sub.entitlements@, "individual"@, now) {
        AccountType::Individual
    } else {
        AccountType::TrialRegistered
    };
    let subs = sub.subscriptions@;
    let p = current_subscription(subs, now);
    if p >= 0 {
        let x = subs[p].1;
        SubscriptionStatus {
            account_type,
            subscription_type: Some(
                if any_yearly(subs) {
                    BillingPeriod::Yearly
                } else {
                    BillingPeriod::Monthly
                },
            ),
            expires_at: match x.expires_date {
                Some(d) => rfc3339_instant(d@),
                None => None,
            },
            is_active: account_type != AccountType::TrialRegistered,
            platform: platform_of(x.store@),
            in_grace_period: x.billing_issues_detected_at is Some && names_future(x.expires_date, now),
        }
    } else {
        SubscriptionStatus {
            account_type,
            subscription_type: None,
            expires_at: None,
            is_active: account_type != AccountType::TrialRegistered,
            platform: None,
            in_grace_period: false,
        }
    }
}

/// Reads the subscription status out of what the billing provider holds on
/// a subscriber.
pub fn get_subscription_status(info: &SubscriberInfo, now: i64) -> (r: SubscriptionStatus)
    ensures
        r == derived_status(info.subscriber, now),
{
    let sub = &info.subscriber;
    let account_type = if has_active_entitlement(&sub.entitlements, "professional", now) {
        AccountType::Professional
    } else if has_active_entitlement(&sub.entitlements, "individual", now) {
        AccountType::Individual
    } else {
        AccountType::TrialRegistered
    };
    let is_active = account_type != AccountType::TrialRegistered;
    proof {
        lemma_current_subscription(sub.subscriptions@, now);
    }
    match find_current_subscription(&sub.subscriptions, now) {
        None => SubscriptionStatus {
            account_type,
            subscription_type: None,
            expires_at: None,
            is_active,
            platform: None,
            in_grace_period: false,
        },
        Some(p) => {
            let x = &sub.subscriptions[p].1;
            let period = if has_yearly_key(&sub.subscriptions) {
                BillingPeriod::Yearly
            } else {
                BillingPeriod::Monthly
            };
            let expires_at = match &x.expires_date {
                Some(d) => parse_rfc3339(d.as_str()),
                None => None,
            };
            let in_grace = x.billing_issues_detected_at.is_some() && is_future(&x.expires_date, now);
            SubscriptionStatus {
                account_type,
                subscription_type: Some(period),
                expires_at,
                is_active,
                platform: platform_for_store(x.store.as_str()),
                in_grace_period: in_grace,
            }
        },
    }
}

/// The subscription state an account records for a status: active while
/// paid or in grace, expired when an end is known, cancelled otherwise.
pub open spec fn recorded_state(st: SubscriptionStatus) -> SubscriptionState {
    if st.in_grace_period || st.is_active {
        SubscriptionState::Active
    } else if st.expires_at is Some {
        SubscriptionState::Expired
    } else {
        SubscriptionState::Cancelled
    }
}

/// The account after the billing status has been written into it. A
/// status that is neither active nor in grace drops the account to a
/// registered trial with no messages; otherwise the tier is taken over with
/// its quota (twenty for individual, unlimited for professional, the trial's
/// five for anything else).
pub open spec fn synced(a: Account, st: SubscriptionStatus, now: i64) -> Account {
    let lapsed = !st.is_active && !st.in_grace_period;
    Account {
        account_type: if lapsed {
            AccountType::TrialRegistered
        } else {
            st.account_type
        },
        subscription_type: st.subscription_type,
        subscription_status: Some(recorded_state(st)),
        premium_expires_at: st.expires_at,
        next_billing_date: if st.is_active {
            st.expires_at
        } else {
            None
        },
        trial_messages_remaining: if lapsed {
            Some(0u32)
        } else {
            match st.account_type {
                AccountType::Individual => Some(INDIVIDUAL_MONTHLY_MESSAGES),
                AccountType::Professional => None,
                _ => Some(TRIAL_MESSAGES),
            }
        },
        updated_at: now,
        ..a
    }
}

/// Writes a billing status into the account.
pub fn apply_subscription_status(a: &mut Account, st: &SubscriptionStatus, now: i64)
    ensures
        *final(a) == synced(*old(a), *st, now),
{
    let lapsed = !st.is_active && !st.in_grace_period;
    a.subscription_status = Some(
        if st.in_grace_period || st.is_active {
            SubscriptionState::Active
        } else if st.expires_at.is_some() {
            SubscriptionState::Expired
        } else {
            SubscriptionState::Cancelled
        },
    );
    a.next_billing_date = if st.is_active {
        st.expires_at
    } else {
        None
    };
    if lapsed {
        a.account_type = AccountType::TrialRegistered;
        a.trial_messages_remaining = Some(0);
    } else {
        a.account_type = st.account_type;
        a.trial_messages_remaining = match st.account_type {
            AccountType::Individual => Some(INDIVIDUAL_MONTHLY_MESSAGES),
            AccountType::Professional => None,
            _ => Some(TRIAL_MESSAGES),
        };
    }
    a.subscription_type = st.subscription_type;
    a.premium_expires_at = st.expires_at;
    a.updated_at = now;
}

} // verus!
