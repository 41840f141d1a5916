//! Single-use authentication tokens (email verification, password reset):
//! valid until used or expired, and never valid again once used.
use vstd::prelude::*;

verus! {

#[derive(Clone, Copy, Debug, PartialEq, Eq, Structural)]
pub enum TokenType {
    EmailVerification,
    PasswordReset,
    JwtRefresh,
}

pub struct AuthenticationToken {
    pub id: u64,
    pub user_id: u128,
    pub token_type: TokenType,
    pub token: String,
    pub expires_at: i64,
    pub used_at: Option<i64>,
    pub created_at: i64,
}

/// Unused and not expired.
pub open spec fn token_valid(t: AuthenticationToken, now: i64) -> bool {
    t.used_at is None && now < t.expires_at
}

impl AuthenticationToken {
    pub fn is_valid(&self, now: i64) -> (r: bool)
        ensures
            r == token_valid(*self, now),
    {
        self.used_at.is_none() && now < self.expires_at
    }
}

/// The token under this text and type.
pub open spec fn token_matches(t: AuthenticationToken, text: Seq<char>, kind: TokenType) -> bool {
    t.token@ == text && t.token_type == kind
}

/// Index of the last token under this text and type, or -1.
pub open spec fn token_position(s: Seq<AuthenticationToken>, text: Seq<char>, kind: TokenType) -> int
    decreases s.len(),
{
    if s.len() == 0 {
        -1
    } else if token_matches(s.last(), text, kind) {
        s.len() - 1
    } else {
        token_position(s.drop_last(), text, kind)
    }
}

pub proof fn lemma_token_position(s: Seq<AuthenticationToken>, text: Seq<char>, kind: TokenType)
    ensures
        -1 <= token_position(s, text, kind) < s.len(),
        token_position(s, text, kind) >= 0 ==> token_matches(s[token_position(s, text, kind)], text, kind),
    decreases s.len(),
{
    if s.len() > 0 {
        lemma_token_position(s.drop_last(), text, kind);
    }
}

/// The table after every token under this text and type is marked used.
pub open spec fn all_marked(s: Seq<AuthenticationToken>, text: Seq<char>, kind: TokenType, now: i64) -> Seq<AuthenticationToken> {
    Seq::new(
        s.len(),
        |j: int|
            if token_matches(s[j], text, kind) {
                AuthenticationToken { used_at: Some(now), ..s[j] }
            } else {
                s[j]
            },
    )
}

/// Why a token was not accepted.
#[derive(Clone, Copy, Debug, PartialEq, Eq, Structural)]
pub enum TokenUseError {
    /// No token under this text and type.
    InvalidToken,
    /// The token has expired or was used before.
    ExpiredOrUsed,
}

pub struct TokenStore {
    tokens: Vec<AuthenticationToken>,
    next_id: u64,
}

impl View for TokenStore {
    type V = Seq<AuthenticationToken>;

    closed spec fn view(&self) -> Seq<AuthenticationToken> {
        self.tokens@
    }
}

impl TokenStore {
    pub fn new() -> (r: TokenStore)
        ensures
            r@ == Seq::<AuthenticationToken>::empty(),
    {
        TokenStore { tokens: Vec::new(), next_id: 1 }
    }

    /// Records a token issued to a user.
    pub fn create(&mut self, user_id: u128, token_type: TokenType, token: String, expires_at: i64, now: i64)
        ensures
            final(self)@.len() == old(self)@.len() + 1,
            final(self)@.drop_last() == old(self)@,
            final(self)@.last().user_id == user_id,
            final(self)@.last().token_type == token_type,
            final(self)@.last().token == token,
            final(self)@.last().expires_at == expires_at,
            final(self)@.last().used_at is None,
            final(self)@.last().created_at == now,
    {
        let id = self.next_id;
        if self.next_id < u64::MAX {
            self.next_id = self.next_id + 1;
        }
        let ghost before = self@;
        self.tokens.push(AuthenticationToken { id, user_id, token_type, token, expires_at, used_at: None, created_at: now });
        assert(self@.drop_last() =~= before);
    }

    fn find(&self, text: &str, kind: TokenType) -> (r: Option<usize>)
        ensures
            match r {
                Some(i) => i as int == token_position(self@, text@, kind),
                None => token_position(self@, text@, kind) == -1,
            },
    {
        let mut i = self.tokens.len();
        assert(self@.subrange(0, i as int) =~= self@);
        while i > 0
            invariant
                i <= self@.len(),
                token_position(self@, text@, kind) == token_position(self@.subrange(0, i as int), text@, kind),
            decreases i,
        {
            if self.tokens[i - 1].token_type == kind && crate::account::text_eq(self.tokens[i - 1].token.as_str(), text) {
                return Some(i - 1);
            }
            assert(self@.subrange(0, i as int).drop_last() =~= self@.subrange(0, i - 1));
            i -= 1;
        }
        None
    }

    /// The token under this text and type, if any.
    pub fn find_by_token(&self, text: &str, kind: TokenType) -> (r: Option<&AuthenticationToken>)
        ensures
            match r {
                Some(t) => token_position(self@, text@, kind) >= 0 && *t == self@[token_position(self@, text@, kind)],
                None => token_position(self@, text@, kind) == -1,
            },
    {
        proof {
            lemma_token_position(self@, text@, kind);
        }
        match self.find(text, kind) {
            Some(i) => Some(&self.tokens[i]),
            None => None,
        }
    }

    /// Marks every token under this text and type used as of `now`.
    pub fn mark_as_used(&mut self, text: &str, kind: TokenType, now: i64)
        ensures
            final(self)@ == all_marked(old(self)@, text@, kind, now),
    {
        let ghost s = self@;
        let mut j: usize = 0;
        while j < self.tokens.len()
            invariant
                j <= self@.len(),
                self@.len() == s.len(),
                forall|k: int| 0 <= k < j ==> #[trigger] self@[k] == all_marked(s, text@, kind, now)[k],
                forall|k: int| j <= k < self@.len() ==> #[trigger] self@[k] == s[k],
            decreases self@.len() - j,
        {
            if self.tokens[j].token_type == kind && crate::account::text_eq(self.tokens[j].token.as_str(), text) {
                self.tokens[j].used_at = Some(now);
            }
            j += 1;
        }
        assert(self@ =~= all_marked(s, text@, kind, now));
    }

    /// Accepts a token once: it must exist and be valid; it is then marked
    /// used and its user returned.
    pub fn consume(&mut self, text: &str, kind: TokenType, now: i64) -> (r: Result<u128, TokenUseError>)
        ensures
            ({
                let p = token_position(old(self)@, text@, kind);
                if p < 0 {
                    r == Err::<u128, TokenUseError>(TokenUseError::InvalidToken) && final(self)@ == old(self)@
                } else if !token_valid(old(self)@[p], now) {
                    r == Err::<u128, TokenUseError>(TokenUseError::ExpiredOrUsed) && final(self)@ == old(self)@
                } else {
                    r == Ok::<u128, TokenUseError>(old(self)@[p].user_id) && final(self)@ == all_marked(
                        old(self)@,
                        text@,
                        kind,
                        now,
                    )
                }
            }),
    {
        proof {
            lemma_token_position(self@, text@, kind);
        }
        let p = match self.find(text, kind) {
            None => return Err(TokenUseError::InvalidToken),
            Some(p) => p,
        };
        if !self.tokens[p].is_valid(now) {
            return Err(TokenUseError::ExpiredOrUsed);
        }
        let user = self.tokens[p].user_id;
        self.mark_as_used(text, kind, now);
        Ok(user)
    }
}

/// A token that was accepted once is refused afterwards.
pub proof fn lemma_consumed_token_refused(s: Seq<AuthenticationToken>, text: Seq<char>, kind: TokenType, now: i64, later: i64)
    requires
        token_position(s, text, kind) >= 0,
    ensures
        token_position(all_marked(s, text, kind, now), text, kind) >= 0,
        !token_valid(all_marked(s, text, kind, now)[token_position(all_marked(s, text, kind, now), text, kind)], later),
{
    let t = all_marked(s, text, kind, now);
    lemma_token_position(s, text, kind);
    lemma_same_matches_position(s, t, text, kind);
    lemma_token_position(t, text, kind);
}

proof fn lemma_same_matches_position(s: Seq<AuthenticationToken>, t: Seq<AuthenticationToken>, text: Seq<char>, kind: TokenType)
    requires
        s.len() == t.len(),
        forall|j: int| 0 <= j < s.len() ==> token_matches(#[trigger] s[j], text, kind) == token_matches(t[j], text, kind),
    ensures
        token_position(s, text, kind) == token_position(t, text, kind),
    decreases s.len(),
{
    if s.len() > 0 {
        let (a, b) = (s.drop_last(), t.drop_last());
        assert(s.last() == s[s.len() - 1] && t.last() == t[t.len() - 1]);
        assert forall|j: int| 0 <= j < a.len() implies token_matches(#[trigger] a[j], text, kind) == token_matches(b[j], text, kind) by {
            assert(a[j] == s[j] && b[j] == t[j]);
        }
        lemma_same_matches_position(a, b, text, kind);
    }
}

pub struct ForgotPasswordRequest {
    pub email: String,
}

pub struct ResetPasswordRequest {
    pub token: String,
    pub new_password: String,
}

pub struct VerifyEmailRequest {
    pub token: String,
}

pub struct PasswordResetResponse {
    pub success: bool,
    pub message: String,
    pub reset_token: Option<String>,
    pub email: Option<String>,
}

pub struct VerificationEmailResponse {
    pub success: bool,
    pub message: String,
    pub email: Option<String>,
    pub verification_token: Option<String>,
}

} // verus!
