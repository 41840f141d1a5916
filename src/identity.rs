//! Identity resolution: from a bearer token to an account, through the
//! token's signature and the session registry, degrading gracefully when
//! the session store fails.
use vstd::prelude::*;
use crate::account::{opt_text, text_eq, valid_time, Account, AccountStatus};
use crate::sessions::{live_hash_position, opt_str, refresh_target, token_digest, SessionRegistry};
use crate::store::AccountStore;

verus! {

/// Claims of a locally issued token.
pub struct Claims {
    pub sub: String,
    pub email: String,
    pub exp: usize,
    pub iat: usize,
}

/// Claims of a token issued by the identity provider.
pub struct SupabaseClaims {
    pub sub: String,
    pub email: Option<String>,
    pub exp: usize,
    pub iat: usize,
    pub iss: Option<String>,
    pub aud: Option<String>,
    pub role: Option<String>,
}

/// The 128-bit value a UUID text denotes, or `None` when it is not a UUID.
pub uninterp spec fn uuid_value(s: Seq<char>) -> Option<u128>;

/// Relies on uuid's `Uuid::parse_str` and `as_u128`: the result depends on
/// the text alone.
#[verifier::external_body]
fn parse_uuid(s: &str) -> (r: Option<u128>)
    ensures
        r == uuid_value(s@),
{
    match uuid::Uuid::parse_str(s) {
        Ok(u) => Some(u.as_u128()),
        Err(_) => None,
    }
}

/// The `sub` claim of a token whose HS256 signature checks out under the
/// secret, or `None` when it does not or carries no text subject.
pub uninterp spec fn hs256_subject(token: Seq<char>, secret: Seq<char>) -> Option<Seq<char>>;

/// Relies on jsonwebtoken's `decode` with HS256 over the secret and the
/// accepted audiences (a token without an audience claim passes that check;
/// one with such a claim must name an accepted audience): the subject claim
/// of a token whose signature, expiry and audience check out. A subject comes
/// back only from a token signed under the secret; expiry is checked against
/// the clock, so a subject is never promised.
#[verifier::external_body]
fn decode_subject(token: &str, secret: &str, audience: &[&str]) -> (r: Option<String>)
    ensures
        r is Some ==> hs256_subject(token@, secret@) == opt_text(r),
{
    let mut validation = jsonwebtoken::Validation::new(jsonwebtoken::Algorithm::HS256);
    validation.set_audience(audience);
    let key = jsonwebtoken::DecodingKey::from_secret(secret.as_bytes());
    match jsonwebtoken::decode::<serde_json::Value>(token, &key, &validation) {
        Ok(data) => match data.claims.get("sub") {
            Some(serde_json::Value::String(sub)) => Some(sub.clone()),
            _ => None,
        },
        Err(_) => None,
    }
}

/// The account id a UUID text names (as in a billing webhook's user id).
pub fn parse_account_id(text: &str) -> (r: Option<u128>)
    ensures
        r == uuid_value(text@),
{
    parse_uuid(text)
}

/// Why a token did not identify an account.
#[derive(Clone, Copy, Debug, PartialEq, Eq, Structural)]
pub enum TokenError {
    /// Neither issuer's signature checks out.
    InvalidToken,
    /// The subject of a provider token is not a UUID.
    InvalidProviderSubject,
    /// No active account is linked to the provider's user.
    UnknownProviderUser,
    /// The subject of a local token is not a UUID.
    InvalidLocalSubject,
}

/// Index of the last active account linked to this provider user, or -1.
pub open spec fn linked_position(s: Seq<Account>, auth: u128) -> int
    decreases s.len(),
{
    if s.len() == 0 {
        -1
    } else if s.last().auth_user_id == Some(auth) && s.last().account_status == AccountStatus::Active {
        s.len() - 1
    } else {
        linked_position(s.drop_last(), auth)
    }
}

pub proof fn lemma_linked_position(s: Seq<Account>, auth: u128)
    ensures
        -1 <= linked_position(s, auth) < s.len(),
    decreases s.len(),
{
    if s.len() > 0 {
        lemma_linked_position(s.drop_last(), auth);
    }
}

/// The account a verified subject stands for. A provider subject, when one
/// was verified, decides alone: it must be a UUID linked to an active
/// account. Otherwise the local subject must be a UUID, which is the
/// account id.
pub open spec fn subject_account(
    s: Seq<Account>,
    provider_subject: Option<Seq<char>>,
    local_subject: Option<Seq<char>>,
) -> Result<u128, TokenError> {
    match provider_subject {
        Some(ps) => match uuid_value(ps) {
            None => Err(TokenError::InvalidProviderSubject),
            Some(auth) => if linked_position(s, auth) >= 0 {
                Ok(s[linked_position(s, auth)].id)
            } else {
                Err(TokenError::UnknownProviderUser)
            },
        },
        None => match local_subject {
            None => Err(TokenError::InvalidToken),
            Some(ls) => match uuid_value(ls) {
                None => Err(TokenError::InvalidLocalSubject),
                Some(id) => Ok(id),
            },
        },
    }
}

impl AccountStore {
    /// The id of the active account linked to this provider user.
    pub fn find_linked_account(&self, auth: u128) -> (r: Option<u128>)
        ensures
            match r {
                Some(id) => linked_position(self@, auth) >= 0 && id == self@[linked_position(
                    self@,
                    auth,
                )].id,
                None => linked_position(self@, auth) == -1,
            },
    {
        let n = self.len();
        let mut i = n;
        proof {
            lemma_linked_position(self@, auth);
        }
        assert(self@.subrange(0, i as int) =~= self@);
        while i > 0
            invariant
                n == self@.len(),
                i <= n,
                linked_position(self@, auth) == linked_position(self@.subrange(0, i as int), auth),
            decreases i,
        {
            let a = self.account_at(i - 1);
            if a.auth_user_id == Some(auth) && a.account_status == AccountStatus::Active {
                return Some(a.id);
            }
            assert(self@.subrange(0, i as int).drop_last() =~= self@.subrange(0, i - 1));
            i -= 1;
        }
        None
    }
}

/// Maps the verified subjects to an account.
pub fn subject_to_account(
    store: &AccountStore,
    provider_subject: Option<String>,
    local_subject: Option<String>,
) -> (r: Result<u128, TokenError>)
    ensures
        r == subject_account(store@, opt_text(provider_subject), opt_text(local_subject)),
{
    match provider_subject {
        Some(ps) => match parse_uuid(ps.as_str()) {
            None => Err(TokenError::InvalidProviderSubject),
            Some(auth) => match store.find_linked_account(auth) {
                Some(id) => Ok(id),
                None => Err(TokenError::UnknownProviderUser),
            },
        },
        None => match local_subject {
            None => Err(TokenError::InvalidToken),
            Some(ls) => match parse_uuid(ls.as_str()) {
                None => Err(TokenError::InvalidLocalSubject),
                Some(id) => Ok(id),
            },
        },
    }
}

/// Verifies a bearer token against the identity provider's secret first,
/// when one is configured, and against the local secret otherwise, then
/// maps its subject to an account. The verdict on the signature depends on
/// the clock; given the subjects that came back, the result is
/// `subject_account`.
pub fn verify_any_token(
    store: &AccountStore,
    token: &str,
    jwt_secret: &str,
    provider_secret: Option<&str>,
) -> (r: Result<u128, TokenError>)
    ensures
        exists|ps: Option<Seq<char>>, ls: Option<Seq<char>>|
            {
                &&& (ps is Some ==> provider_secret is Some && ps == hs256_subject(
                    token@,
                    provider_secret.unwrap()@,
                ))
                &&& (ls is Some ==> ps is None && ls == hs256_subject(token@, jwt_secret@))
                &&& r == subject_account(store@, ps, ls)
            },
{
    let provider_subject = match provider_secret {
        Some(secret) => decode_subject(token, secret, &["authenticated"]),
        None => None,
    };
    let local_subject = if provider_subject.is_none() {
        decode_subject(token, jwt_secret, &[])
    } else {
        None
    };
    let ghost ps = opt_text(provider_subject);
    let ghost ls = opt_text(local_subject);
    let r = subject_to_account(store, provider_subject, local_subject);
    assert(ps is Some ==> provider_secret is Some && ps == hs256_subject(token@, provider_secret.unwrap()@));
    assert(ls is Some ==> ps is None && ls == hs256_subject(token@, jwt_secret@));
    r
}

/// The token of an `Authorization: Bearer <token>` header.
pub open spec fn bearer_of(header: Seq<char>) -> Option<Seq<char>> {
    if header.len() >= 7 && header.subrange(0, 7) == "Bearer "@ {
        Some(header.subrange(7, header.len() as int))
    } else {
        None
    }
}

pub fn bearer_token(header: &str) -> (r: Option<&str>)
    ensures
        match r {
            Some(t) => bearer_of(header@) == Some(t@),
            None => bearer_of(header@) is None,
        },
{
    let n = header.unicode_len();
    if n < 7 {
        return None;
    }
    let head = header.substring_char(0, 7);
    if !text_eq(head, "Bearer ") {
        return None;
    }
    Some(header.substring_char(7, n))
}

pub struct CheckProviderRequest {
    pub email: String,
}

pub struct CheckProviderResponse {
    pub has_oauth: bool,
    pub providers: Vec<String>,
    pub user_exists: bool,
}

/// The sign-in providers other than email and password, in order.
pub open spec fn oauth_only(s: Seq<String>) -> Seq<String>
    decreases s.len(),
{
    if s.len() == 0 {
        s
    } else if s.last()@ == "email"@ {
        oauth_only(s.drop_last())
    } else {
        oauth_only(s.drop_last()).push(s.last())
    }
}

/// Drops the email-and-password provider from a provider list.
pub fn filter_oauth_providers(providers: Vec<String>) -> (r: Vec<String>)
    ensures
        r@ == oauth_only(providers@),
{
    let mut out: Vec<String> = Vec::new();
    let mut j: usize = 0;
    while j < providers.len()
        invariant
            j <= providers@.len(),
            out@ == oauth_only(providers@.subrange(0, j as int)),
        decreases providers@.len() - j,
    {
        assert(providers@.subrange(0, j + 1).drop_last() =~= providers@.subrange(0, j as int));
        if !text_eq(providers[j].as_str(), "email") {
            out.push(providers[j].clone());
        }
        j += 1;
    }
    assert(providers@.subrange(0, j as int) =~= providers@);
    out
}

/// What a provider check answers for the providers an email is known
/// under: whether the user exists at all, and which federated providers
/// they can use.
pub fn check_provider_response(all_providers: Vec<String>) -> (r: CheckProviderResponse)
    ensures
        r.user_exists == (all_providers@.len() > 0),
        r.providers@ == oauth_only(all_providers@),
        r.has_oauth == (oauth_only(all_providers@).len() > 0),
{
    let user_exists = all_providers.len() > 0;
    let providers = filter_oauth_providers(all_providers);
    CheckProviderResponse { has_oauth: providers.len() > 0, providers, user_exists }
}

/// The session store failed to answer.
#[derive(Clone, Copy, Debug, PartialEq, Eq, Structural)]
pub struct StoreFault;

/// The outcome of resolving who is calling.
#[derive(Clone, Copy, Debug, PartialEq, Eq, Structural)]
pub enum Identity {
    /// Proven identity with a live session.
    Authenticated(u128),
    /// No identity.
    Denied,
    /// Proven identity whose session could not be checked.
    DegradedAuthenticated(u128),
}

/// What to do after the session check.
#[derive(Clone, Copy, Debug, PartialEq, Eq, Structural)]
pub enum IdentityStep {
    Done(Identity),
    /// Try to rotate the account's session to the presented token.
    RefreshSession(u128),
}

/// After the session lookup: a live session authenticates, a store fault
/// degrades, and a missing session calls for a token rotation.
pub fn after_session_check(user: u128, check: Result<Option<u64>, StoreFault>) -> (r: IdentityStep)
    ensures
        r == match check {
            Ok(Some(_)) => IdentityStep::Done(Identity::Authenticated(user)),
            Ok(None) => IdentityStep::RefreshSession(user),
            Err(_) => IdentityStep::Done(Identity::DegradedAuthenticated(user)),
        },
{
    match check {
        Ok(Some(_)) => IdentityStep::Done(Identity::Authenticated(user)),
        Ok(None) => IdentityStep::RefreshSession(user),
        Err(_) => IdentityStep::Done(Identity::DegradedAuthenticated(user)),
    }
}

/// After the token rotation: a rotated session authenticates, no session
/// at all denies, a store fault degrades.
pub fn after_session_refresh(user: u128, refresh: Result<Option<u64>, StoreFault>) -> (r: Identity)
    ensures
        r == match refresh {
            Ok(Some(_)) => Identity::Authenticated(user),
            Ok(None) => Identity::Denied,
            Err(_) => Identity::DegradedAuthenticated(user),
        },
{
    match refresh {
        Ok(Some(_)) => Identity::Authenticated(user),
        Ok(None) => Identity::Denied,
        Err(_) => Identity::DegradedAuthenticated(user),
    }
}

/// Resolves a caller against an in-process registry, which cannot fail:
/// no verified user is denied; otherwise the token's live session
/// authenticates, or a rotation of the account's session does, or the
/// caller is denied.
pub fn resolve_identity(
    registry: &mut SessionRegistry,
    verified_user: Option<u128>,
    token: &str,
    device_session_id: Option<&str>,
    now: i64,
) -> (r: Identity)
    requires
        old(registry).wf(),
        valid_time(now),
    ensures
        final(registry).wf(),
        match verified_user {
            None => r == Identity::Denied && final(registry)@ == old(registry)@,
            Some(u) => r == if live_hash_position(old(registry)@, token_digest(token@), now) >= 0
                || refresh_target(old(registry)@, u, opt_str(device_session_id), now) >= 0 {
                Identity::Authenticated(u)
            } else {
                Identity::Denied
            },
        },
{
    let user = match verified_user {
        None => return Identity::Denied,
        Some(u) => u,
    };
    let check = registry.validate_session(token, now);
    match after_session_check(user, Ok(check)) {
        IdentityStep::Done(id) => id,
        IdentityStep::RefreshSession(u) => {
            let refreshed = registry.update_session_token(u, token, device_session_id, now);
            after_session_refresh(u, Ok(refreshed))
        },
    }
}

} // verus!
