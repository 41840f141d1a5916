use norma_backend::account::{Account, AccountStatus};
use norma_backend::identity::{
    after_session_check, after_session_refresh, bearer_token, check_provider_response,
    filter_oauth_providers, resolve_identity, subject_to_account, verify_any_token, Identity,
    IdentityStep, StoreFault, TokenError,
};
use norma_backend::sessions::SessionRegistry;
use norma_backend::store::AccountStore;
use norma_backend::throttle::{IpAddress, IpTrialThrottle, ThrottleError};
use norma_backend::tokens::{TokenStore, TokenType, TokenUseError};

const NOW: i64 = 1_700_000_000;

const USER: &str = "67e55044-10b1-426f-9247-bb680e5fe0c8";
const USER_VALUE: u128 = 0x67e5504410b1426f9247bb680e5fe0c8;
const AUTH: &str = "a1a2a3a4-b1b2-c1c2-d1d2-d3d4d5d6d7d8";
const AUTH_VALUE: u128 = 0xa1a2a3a4b1b2c1c2d1d2d3d4d5d6d7d8;

fn store_with_linked() -> AccountStore {
    let mut store = AccountStore::new();
    store.insert(Account::new_registered(42, Some(AUTH_VALUE), "p@example.com".to_string(), true, None, NOW)).unwrap();
    store
}

#[test]
fn subjects_map_to_accounts() {
    let store = store_with_linked();
    assert_eq!(subject_to_account(&store, Some(AUTH.to_string()), None), Ok(42));
    assert_eq!(subject_to_account(&store, Some(USER.to_string()), Some(USER.to_string())), Err(TokenError::UnknownProviderUser));
    assert_eq!(subject_to_account(&store, Some("nope".to_string()), None), Err(TokenError::InvalidProviderSubject));
    assert_eq!(subject_to_account(&store, None, Some(USER.to_string())), Ok(USER_VALUE));
    assert_eq!(subject_to_account(&store, None, Some("xyz".to_string())), Err(TokenError::InvalidLocalSubject));
    assert_eq!(subject_to_account(&store, None, None), Err(TokenError::InvalidToken));
}

#[test]
fn inactive_linked_account_is_not_found() {
    let mut store = AccountStore::new();
    let mut a = Account::new_registered(42, Some(AUTH_VALUE), "p@example.com".to_string(), true, None, NOW);
    a.account_status = AccountStatus::Suspended;
    store.insert(a).unwrap();
    assert_eq!(store.find_linked_account(AUTH_VALUE), None);
    assert_eq!(subject_to_account(&store, Some(AUTH.to_string()), None), Err(TokenError::UnknownProviderUser));
}

fn sign(sub: &str, secret: &str, aud: Option<&str>) -> String {
    let exp = (chrono::Utc::now().timestamp() + 3600) as usize;
    let mut claims = serde_json::Map::new();
    claims.insert("sub".to_string(), serde_json::Value::String(sub.to_string()));
    claims.insert("exp".to_string(), serde_json::Value::from(exp));
    if let Some(a) = aud {
        claims.insert("aud".to_string(), serde_json::Value::String(a.to_string()));
    }
    jsonwebtoken::encode(
        &jsonwebtoken::Header::default(),
        &serde_json::Value::Object(claims),
        &jsonwebtoken::EncodingKey::from_secret(secret.as_bytes()),
    )
    .unwrap()
}

#[test]
fn tokens_verify_against_either_issuer() {
    let store = store_with_linked();
    let local = sign(USER, "local-secret", None);
    assert_eq!(verify_any_token(&store, &local, "local-secret", Some("provider-secret")), Ok(USER_VALUE));
    assert_eq!(verify_any_token(&store, &local, "local-secret", None), Ok(USER_VALUE));
    assert_eq!(verify_any_token(&store, &local, "other", None), Err(TokenError::InvalidToken));
    let provider = sign(AUTH, "provider-secret", Some("authenticated"));
    assert_eq!(verify_any_token(&store, &provider, "local-secret", Some("provider-secret")), Ok(42));
    assert_eq!(verify_any_token(&store, "not-a-token", "local-secret", Some("provider-secret")), Err(TokenError::InvalidToken));
}

#[test]
fn bearer_prefix_is_stripped() {
    assert_eq!(bearer_token("Bearer abc.def"), Some("abc.def"));
    assert_eq!(bearer_token("Bearer "), Some(""));
    assert_eq!(bearer_token("Basic abc"), None);
    assert_eq!(bearer_token("Bearer"), None);
}

#[test]
fn identity_outcomes_degrade_on_store_faults() {
    assert_eq!(after_session_check(5, Ok(Some(9))), IdentityStep::Done(Identity::Authenticated(5)));
    assert_eq!(after_session_check(5, Ok(None)), IdentityStep::RefreshSession(5));
    assert_eq!(after_session_check(5, Err(StoreFault)), IdentityStep::Done(Identity::DegradedAuthenticated(5)));
    assert_eq!(after_session_refresh(5, Ok(Some(1))), Identity::Authenticated(5));
    assert_eq!(after_session_refresh(5, Ok(None)), Identity::Denied);
    assert_eq!(after_session_refresh(5, Err(StoreFault)), Identity::DegradedAuthenticated(5));
}

#[test]
fn resolve_identity_against_registry() {
    let mut reg = SessionRegistry::new();
    assert_eq!(resolve_identity(&mut reg, None, "t", None, NOW), Identity::Denied);
    assert_eq!(resolve_identity(&mut reg, Some(7), "t", None, NOW), Identity::Denied);
    reg.create_or_update_session(7, "t", None, None, NOW);
    assert_eq!(resolve_identity(&mut reg, Some(7), "t", None, NOW + 1), Identity::Authenticated(7));
    assert_eq!(resolve_identity(&mut reg, Some(7), "rotated", None, NOW + 2), Identity::Authenticated(7));
    assert_eq!(reg.sessions().len(), 1);
}

#[test]
fn oauth_provider_listing() {
    let list = vec!["email".to_string(), "google".to_string(), "apple".to_string()];
    assert_eq!(filter_oauth_providers(list.clone()), vec!["google".to_string(), "apple".to_string()]);
    let r = check_provider_response(list);
    assert!(r.user_exists && r.has_oauth);
    let only_email = check_provider_response(vec!["email".to_string()]);
    assert!(only_email.user_exists && !only_email.has_oauth);
    let none = check_provider_response(Vec::new());
    assert!(!none.user_exists && !none.has_oauth && none.providers.is_empty());
}

#[test]
fn three_trials_per_address_then_refused() {
    let a = IpAddress::from_v4(0x01020304);
    let b = IpAddress::from_v4(0x05060708);
    let a6 = IpAddress::from_v6(0x01020304);
    let mut t = IpTrialThrottle::new();
    assert!(t.check_ip_trial_limits(a));
    assert_eq!(t.start_trial(a), Ok(1));
    assert_eq!(t.start_trial(a), Ok(2));
    assert_eq!(t.start_trial(b), Ok(1));
    assert_eq!(t.start_trial(a), Ok(3));
    assert!(!t.check_ip_trial_limits(a));
    assert_eq!(t.start_trial(a), Err(ThrottleError::IpLimitExceeded));
    assert_eq!(t.trials_used(a), 3);
    assert_eq!(t.trials_used(b), 1);
    assert_eq!(t.trials_used(a6), 0);
    assert!(t.check_ip_trial_limits(IpAddress::from_v4(0x09090909)));
}

#[test]
fn single_use_tokens() {
    let mut tokens = TokenStore::new();
    tokens.create(42, TokenType::EmailVerification, "v-token".to_string(), NOW + 3600, NOW);
    tokens.create(43, TokenType::PasswordReset, "r-token".to_string(), NOW - 1, NOW - 7200);
    assert!(tokens.find_by_token("v-token", TokenType::EmailVerification).unwrap().is_valid(NOW));
    assert!(tokens.find_by_token("v-token", TokenType::PasswordReset).is_none());
    assert_eq!(tokens.consume("v-token", TokenType::EmailVerification, NOW), Ok(42));
    assert_eq!(tokens.consume("v-token", TokenType::EmailVerification, NOW + 1), Err(TokenUseError::ExpiredOrUsed));
    assert_eq!(tokens.consume("r-token", TokenType::PasswordReset, NOW), Err(TokenUseError::ExpiredOrUsed));
    assert_eq!(tokens.consume("missing", TokenType::PasswordReset, NOW), Err(TokenUseError::InvalidToken));
}

#[test]
fn provider_token_under_local_secret_is_not_a_provider_token() {
    let store = store_with_linked();
    let provider = sign(AUTH, "provider-secret", Some("authenticated"));
    assert_eq!(verify_any_token(&store, &provider, "provider-secret", None), Err(TokenError::InvalidToken));
    let local_with_audience = sign(USER, "local-secret", Some("other"));
    assert_eq!(verify_any_token(&store, &local_with_audience, "local-secret", None), Err(TokenError::InvalidToken));
}
