//! The session registry: login sessions per account, keyed by a one-way
//! digest of the bearer token, with a cap on concurrent sessions.
use vstd::prelude::*;
use sha2::{Digest, Sha256};
use crate::account::{copy_opt_text, opt_text, text_eq, valid_time};

verus! {

/// At most this many live sessions per account.
pub const MAX_CONCURRENT_SESSIONS: usize = 5;

/// A session expires this long after it was created or its token rotated.
pub const SESSION_LIFETIME_SECS: i64 = 2_592_000;

/// A revoked session unseen for this long is purged.
pub const REVOKED_RETENTION_SECS: i64 = 604_800;

/// A live session unseen for this long is purged.
pub const IDLE_LIMIT_SECS: i64 = 7_776_000;

/// The hex SHA-256 digest of a token's UTF-8 bytes.
pub uninterp spec fn token_digest(token: Seq<char>) -> Seq<char>;

/// Relies on sha2's `Sha256::digest` and the lower-hex formatting of its
/// output: the text depends on the token alone.
#[verifier::external_body]
fn sha256_hex(token: &str) -> (r: String)
    ensures
        r@ == token_digest(token@),
{
    format!("{:x}", Sha256::digest(token.as_bytes()))
}

/// The digest under which a token is stored; the raw token never is.
pub fn hash_token(token: &str) -> (r: String)
    ensures
        r@ == token_digest(token@),
{
    sha256_hex(token)
}

/// What the client says about the device a session runs on.
#[derive(Debug)]
pub struct DeviceInfo {
    /// Stable per install; survives token rotation.
    pub session_id: Option<String>,
    pub name: Option<String>,
    pub os: Option<String>,
    pub browser: Option<String>,
    pub app_version: Option<String>,
}

impl DeviceInfo {
    pub fn snapshot(&self) -> (r: DeviceInfo)
        ensures
            r == *self,
    {
        DeviceInfo {
            session_id: copy_opt_text(&self.session_id),
            name: copy_opt_text(&self.name),
            os: copy_opt_text(&self.os),
            browser: copy_opt_text(&self.browser),
            app_version: copy_opt_text(&self.app_version),
        }
    }
}

fn copy_device(d: &Option<DeviceInfo>) -> (r: Option<DeviceInfo>)
    ensures
        r == *d,
{
    match d {
        Some(x) => Some(x.snapshot()),
        None => None,
    }
}

/// One login session.
#[derive(Debug)]
pub struct Session {
    pub id: u64,
    pub account_id: u128,
    pub token_hash: String,
    pub device_info: Option<DeviceInfo>,
    pub ip_address: Option<String>,
    pub created_at: i64,
    pub last_seen_at: i64,
    pub expires_at: i64,
    pub revoked: bool,
}

impl Session {
    pub fn snapshot(&self) -> (r: Session)
        ensures
            r == *self,
    {
        Session {
            id: self.id,
            account_id: self.account_id,
            token_hash: self.token_hash.clone(),
            device_info: copy_device(&self.device_info),
            ip_address: copy_opt_text(&self.ip_address),
            created_at: self.created_at,
            last_seen_at: self.last_seen_at,
            expires_at: self.expires_at,
            revoked: self.revoked,
        }
    }
}

/// Not revoked and not expired.
pub open spec fn is_live(x: Session, now: i64) -> bool {
    !x.revoked && now < x.expires_at
}

/// A live session of this account.
pub open spec fn is_active_for(x: Session, acct: u128, now: i64) -> bool {
    x.account_id == acct && is_live(x, now)
}

/// Expired, revoked and unseen for a week, or live and unseen for ninety days.
pub open spec fn is_stale(x: Session, now: i64) -> bool {
    x.expires_at <= now || (x.revoked && x.last_seen_at < now - REVOKED_RETENTION_SECS) || (!x.revoked
        && x.last_seen_at < now - IDLE_LIMIT_SECS)
}

/// A stale session of the given account (of any account for `None`).
pub open spec fn prunable(x: Session, acct: Option<u128>, now: i64) -> bool {
    is_stale(x, now) && match acct {
        Some(a) => x.account_id == a,
        None => true,
    }
}

/// The per-install identifier a session was opened with.
pub open spec fn device_sid(x: Session) -> Option<Seq<char>> {
    match x.device_info {
        Some(d) => opt_text(d.session_id),
        None => None,
    }
}

/// A live session of the account, opened from the given install when one
/// is named.
pub open spec fn device_matches(x: Session, acct: u128, d: Option<Seq<char>>, now: i64) -> bool {
    is_active_for(x, acct, now) && match d {
        Some(sid) => device_sid(x) == Some(sid),
        None => true,
    }
}

/// How many live sessions the account has.
pub open spec fn active_count(s: Seq<Session>, acct: u128, now: i64) -> nat
    decreases s.len(),
{
    if s.len() == 0 {
        0
    } else {
        active_count(s.drop_last(), acct, now) + if is_active_for(s.last(), acct, now) {
            1nat
        } else {
            0nat
        }
    }
}

/// The sessions left after stale ones are purged, in order.
pub open spec fn pruned(s: Seq<Session>, acct: Option<u128>, now: i64) -> Seq<Session>
    decreases s.len(),
{
    if s.len() == 0 {
        s
    } else if prunable(s.last(), acct, now) {
        pruned(s.drop_last(), acct, now)
    } else {
        pruned(s.drop_last(), acct, now).push(s.last())
    }
}

/// Index of the last session stored under this digest, or -1.
pub open spec fn hash_position(s: Seq<Session>, h: Seq<char>) -> int
    decreases s.len(),
{
    if s.len() == 0 {
        -1
    } else if s.last().token_hash@ == h {
        s.len() - 1
    } else {
        hash_position(s.drop_last(), h)
    }
}

/// Index of the last live session stored under this digest, or -1.
pub open spec fn live_hash_position(s: Seq<Session>, h: Seq<char>, now: i64) -> int
    decreases s.len(),
{
    if s.len() == 0 {
        -1
    } else if s.last().token_hash@ == h && is_live(s.last(), now) {
        s.len() - 1
    } else {
        live_hash_position(s.drop_last(), h, now)
    }
}

/// Index of the last session with this id, or -1.
pub open spec fn sid_position(s: Seq<Session>, sid: u64) -> int
    decreases s.len(),
{
    if s.len() == 0 {
        -1
    } else if s.last().id == sid {
        s.len() - 1
    } else {
        sid_position(s.drop_last(), sid)
    }
}

/// Index of the most recently seen matching session (the earliest among
/// equals), or -1.
pub open spec fn most_recent(s: Seq<Session>, acct: u128, d: Option<Seq<char>>, now: i64) -> int
    decreases s.len(),
{
    if s.len() == 0 {
        -1
    } else {
        let p = most_recent(s.drop_last(), acct, d, now);
        if device_matches(s.last(), acct, d, now) && (p < 0 || s.last().last_seen_at
            > s[p].last_seen_at) {
            s.len() - 1
        } else {
            p
        }
    }
}

/// Index of the least recently seen live session of the account (the
/// earliest among equals), or -1.
pub open spec fn least_recent(s: Seq<Session>, acct: u128, now: i64) -> int
    decreases s.len(),
{
    if s.len() == 0 {
        -1
    } else {
        let p = least_recent(s.drop_last(), acct, now);
        if is_active_for(s.last(), acct, now) && (p < 0 || s.last().last_seen_at < s[p].last_seen_at) {
            s.len() - 1
        } else {
            p
        }
    }
}

/// `y` is `x` refreshed on reuse of its token.
pub open spec fn touched(y: Session, x: Session, device_info: Option<DeviceInfo>, ip: Option<String>, now: i64) -> bool {
    y == Session { last_seen_at: now, device_info, ip_address: ip, ..x }
}

/// `y` is `x` with its token rotated to the digest `h`.
pub open spec fn rotated(y: Session, x: Session, h: Seq<char>, device_info: Option<DeviceInfo>, now: i64) -> bool {
    &&& y.token_hash@ == h
    &&& y == Session {
        token_hash: y.token_hash,
        last_seen_at: now,
        expires_at: (now + SESSION_LIFETIME_SECS) as i64,
        device_info,
        ..x
    }
}

/// `x` with its revoked flag set.
pub open spec fn revoked(x: Session) -> Session {
    Session { revoked: true, ..x }
}

/// `y` is a new live session.
pub open spec fn opened(y: Session, id: u64, acct: u128, h: Seq<char>, device_info: Option<DeviceInfo>, ip: Option<String>, now: i64) -> bool {
    &&& y.token_hash@ == h
    &&& y == Session {
        id,
        account_id: acct,
        token_hash: y.token_hash,
        device_info,
        ip_address: ip,
        created_at: now,
        last_seen_at: now,
        expires_at: (now + SESSION_LIFETIME_SECS) as i64,
        revoked: false,
    }
}

/// Which sessions a bulk revocation reaches: all of the account's, but the
/// one under the spared digest.
pub open spec fn revocation_target(x: Session, acct: u128, spared: Option<Seq<char>>) -> bool {
    x.account_id == acct && match spared {
        Some(h) => x.token_hash@ != h,
        None => true,
    }
}

pub open spec fn revocation_count(s: Seq<Session>, acct: u128, spared: Option<Seq<char>>) -> nat
    decreases s.len(),
{
    if s.len() == 0 {
        0
    } else {
        revocation_count(s.drop_last(), acct, spared) + if revocation_target(
            s.last(),
            acct,
            spared,
        ) {
            1nat
        } else {
            0nat
        }
    }
}

/// What `create_or_update_session` does when the token is new and no
/// session of the install can take it: stale sessions of the account are
/// purged; at the cap, the least recently seen live one is revoked; the new
/// session `y` is appended.
pub open spec fn opened_new(t: Seq<Session>, s: Seq<Session>, acct: u128, now: i64, y: Session) -> bool {
    let u = pruned(s, Some(acct), now);
    if active_count(u, acct, now) >= MAX_CONCURRENT_SESSIONS {
        t == u.update(least_recent(u, acct, now), revoked(u[least_recent(u, acct, now)])).push(y)
    } else {
        t == u.push(y)
    }
}

/// The live count after a new session is opened on an account that had
/// `c` live sessions once its stale ones were purged: at the cap one is
/// revoked first, then the new one is added.
pub open spec fn count_after_open(c: nat) -> nat {
    if c >= MAX_CONCURRENT_SESSIONS {
        c
    } else {
        c + 1
    }
}

/// The registry of sessions.
pub struct SessionRegistry {
    sessions: Vec<Session>,
    next_id: u64,
}

impl View for SessionRegistry {
    type V = Seq<Session>;

    closed spec fn view(&self) -> Seq<Session> {
        self.sessions@
    }
}

/// The per-install identifier carried by a device description.
pub open spec fn info_sid(d: Option<DeviceInfo>) -> Option<Seq<char>> {
    match d {
        Some(x) => opt_text(x.session_id),
        None => None,
    }
}

/// The characters of an optional string slice.
pub open spec fn opt_str(d: Option<&str>) -> Option<Seq<char>> {
    match d {
        Some(x) => Some(x@),
        None => None,
    }
}

/// The session whose token a rotation rewrites: the most recently seen live
/// session of the install when one is named and found, else the most
/// recently seen live session of the account.
pub open spec fn refresh_target(s: Seq<Session>, acct: u128, d: Option<Seq<char>>, now: i64) -> int {
    let by_device = match d {
        Some(x) => most_recent(s, acct, Some(x), now),
        None => -1,
    };
    if by_device >= 0 {
        by_device
    } else {
        most_recent(s, acct, None, now)
    }
}

/// The live sessions of the account, in table order.
pub open spec fn live_of(s: Seq<Session>, acct: u128, now: i64) -> Seq<Session>
    decreases s.len(),
{
    if s.len() == 0 {
        s
    } else if is_active_for(s.last(), acct, now) {
        live_of(s.drop_last(), acct, now).push(s.last())
    } else {
        live_of(s.drop_last(), acct, now)
    }
}

/// Every session id lies below `n`.
pub open spec fn ids_below(s: Seq<Session>, n: u64) -> bool {
    forall|j: int| 0 <= j < s.len() ==> (#[trigger] s[j]).id < n
}

fn device_matches_exec(x: &Session, acct: u128, d: Option<&str>, now: i64) -> (r: bool)
    ensures
        r == device_matches(*x, acct, opt_str(d), now),
{
    if x.account_id != acct || x.revoked || !(now < x.expires_at) {
        return false;
    }
    match d {
        None => true,
        Some(want) => match &x.device_info {
            Some(info) => match &info.session_id {
                Some(sid) => text_eq(sid.as_str(), want),
                None => false,
            },
            None => false,
        },
    }
}

pub proof fn lemma_most_recent(s: Seq<Session>, acct: u128, d: Option<Seq<char>>, now: i64)
    ensures
        -1 <= most_recent(s, acct, d, now) < s.len(),
        most_recent(s, acct, d, now) >= 0 ==> device_matches(s[most_recent(s, acct, d, now)], acct, d, now),
        most_recent(s, acct, d, now) >= 0 ==> forall|q: int|
            0 <= q < s.len() && device_matches(#[trigger] s[q], acct, d, now) ==> s[q].last_seen_at
                <= s[most_recent(s, acct, d, now)].last_seen_at,
        most_recent(s, acct, d, now) == -1 ==> forall|q: int|
            0 <= q < s.len() ==> !device_matches(#[trigger] s[q], acct, d, now),
    decreases s.len(),
{
    if s.len() > 0 {
        let t = s.drop_last();
        lemma_most_recent(t, acct, d, now);
        assert forall|q: int| 0 <= q < t.len() implies #[trigger] t[q] == s[q] by {}
        let p = most_recent(t, acct, d, now);
        let r = most_recent(s, acct, d, now);
        assert(s.last() == s[s.len() - 1]);
        if r >= 0 {
            assert forall|q: int|
                0 <= q < s.len() && device_matches(#[trigger] s[q], acct, d, now) implies s[q].last_seen_at
                <= s[r].last_seen_at by {
                if q < t.len() {
                    assert(t[q] == s[q]);
                    assert(device_matches(t[q], acct, d, now));
                }
            }
        } else {
            assert forall|q: int| 0 <= q < s.len() implies !device_matches(#[trigger] s[q], acct, d, now) by {
                if q < t.len() {
                    assert(t[q] == s[q]);
                }
            }
        }
    }
}

pub proof fn lemma_least_recent(s: Seq<Session>, acct: u128, now: i64)
    ensures
        -1 <= least_recent(s, acct, now) < s.len(),
        least_recent(s, acct, now) >= 0 ==> is_active_for(s[least_recent(s, acct, now)], acct, now),
        least_recent(s, acct, now) >= 0 ==> forall|q: int|
            0 <= q < s.len() && is_active_for(#[trigger] s[q], acct, now) ==> s[least_recent(
                s,
                acct,
                now,
            )].last_seen_at <= s[q].last_seen_at,
        least_recent(s, acct, now) == -1 ==> forall|q: int|
            0 <= q < s.len() ==> !is_active_for(#[trigger] s[q], acct, now),
    decreases s.len(),
{
    if s.len() > 0 {
        let t = s.drop_last();
        lemma_least_recent(t, acct, now);
        assert forall|q: int| 0 <= q < t.len() implies #[trigger] t[q] == s[q] by {}
        let r = least_recent(s, acct, now);
        assert(s.last() == s[s.len() - 1]);
        if r >= 0 {
            assert forall|q: int|
                0 <= q < s.len() && is_active_for(#[trigger] s[q], acct, now) implies s[r].last_seen_at
                <= s[q].last_seen_at by {
                if q < t.len() {
                    assert(t[q] == s[q]);
                    assert(is_active_for(t[q], acct, now));
                }
            }
        } else {
            assert forall|q: int| 0 <= q < s.len() implies !is_active_for(#[trigger] s[q], acct, now) by {
                if q < t.len() {
                    assert(t[q] == s[q]);
                }
            }
        }
    }
}

pub proof fn lemma_hash_position(s: Seq<Session>, h: Seq<char>)
    ensures
        -1 <= hash_position(s, h) < s.len(),
    decreases s.len(),
{
    if s.len() > 0 {
        lemma_hash_position(s.drop_last(), h);
    }
}

pub proof fn lemma_live_hash_position(s: Seq<Session>, h: Seq<char>, now: i64)
    ensures
        -1 <= live_hash_position(s, h, now) < s.len(),
    decreases s.len(),
{
    if s.len() > 0 {
        lemma_live_hash_position(s.drop_last(), h, now);
    }
}

pub proof fn lemma_sid_position(s: Seq<Session>, sid: u64)
    ensures
        -1 <= sid_position(s, sid) < s.len(),
    decreases s.len(),
{
    if s.len() > 0 {
        lemma_sid_position(s.drop_last(), sid);
    }
}

/// An account without any live session has a live count of zero.
pub proof fn lemma_count_zero(s: Seq<Session>, acct: u128, now: i64)
    requires
        forall|q: int| 0 <= q < s.len() ==> !is_active_for(#[trigger] s[q], acct, now),
    ensures
        active_count(s, acct, now) == 0,
    decreases s.len(),
{
    if s.len() > 0 {
        let t = s.drop_last();
        assert forall|q: int| 0 <= q < t.len() implies !is_active_for(#[trigger] t[q], acct, now) by {
            assert(t[q] == s[q]);
        }
        lemma_count_zero(t, acct, now);
        assert(s.last() == s[s.len() - 1]);
    }
}

/// Replacing one session changes the live count by what the two sessions
/// contribute.
pub proof fn lemma_count_update(s: Seq<Session>, p: int, x: Session, acct: u128, now: i64)
    requires
        0 <= p < s.len(),
    ensures
        active_count(s.update(p, x), acct, now) + (if is_active_for(s[p], acct, now) {
            1int
        } else {
            0int
        }) == active_count(s, acct, now) + (if is_active_for(x, acct, now) {
            1int
        } else {
            0int
        }),
    decreases s.len(),
{
    let u = s.update(p, x);
    if p == s.len() - 1 {
        assert(u.drop_last() =~= s.drop_last());
    } else {
        assert(u.drop_last() =~= s.drop_last().update(p, x));
        lemma_count_update(s.drop_last(), p, x, acct, now);
    }
}

/// Purging stale sessions keeps the live count when no live session of the
/// account is stale.
pub proof fn lemma_pruned_count(s: Seq<Session>, acct: u128, now: i64)
    requires
        forall|q: int| 0 <= q < s.len() && is_active_for(#[trigger] s[q], acct, now) ==> !is_stale(s[q], now),
    ensures
        active_count(pruned(s, Some(acct), now), acct, now) == active_count(s, acct, now),
    decreases s.len(),
{
    if s.len() > 0 {
        let t = s.drop_last();
        assert forall|q: int| 0 <= q < t.len() && is_active_for(#[trigger] t[q], acct, now) implies !is_stale(t[q], now) by {
            assert(t[q] == s[q]);
        }
        lemma_pruned_count(t, acct, now);
        let u = pruned(t, Some(acct), now);
        if !prunable(s.last(), Some(acct), now) {
            assert(u.push(s.last()).drop_last() =~= u);
        }
    }
}

pub proof fn lemma_pruned_ids(s: Seq<Session>, acct: Option<u128>, now: i64, n: u64)
    requires
        ids_below(s, n),
    ensures
        ids_below(pruned(s, acct, now), n),
        pruned(s, acct, now).len() <= s.len(),
    decreases s.len(),
{
    if s.len() > 0 {
        let t = s.drop_last();
        assert forall|j: int| 0 <= j < t.len() implies (#[trigger] t[j]).id < n by {
            assert(t[j] == s[j]);
        }
        lemma_pruned_ids(t, acct, now, n);
        let u = pruned(t, acct, now);
        assert(s.last() == s[s.len() - 1]);
        if !prunable(s.last(), acct, now) {
            let v = u.push(s.last());
            assert forall|j: int| 0 <= j < v.len() implies (#[trigger] v[j]).id < n by {
                if j < u.len() {
                    assert(v[j] == u[j]);
                }
            }
        }
    }
}

impl SessionRegistry {
    /// The id the next new session gets.
    pub closed spec fn next_session_id(&self) -> u64 {
        self.next_id
    }

    pub open spec fn wf(&self) -> bool {
        ids_below(self@, self.next_session_id())
    }

    pub fn new() -> (r: SessionRegistry)
        ensures
            r@ == Seq::<Session>::empty(),
            r.next_session_id() == 1,
            r.wf(),
    {
        SessionRegistry { sessions: Vec::new(), next_id: 1 }
    }

    /// A registry holding the given sessions; new sessions get ids above
    /// every id in it. `None` when some id leaves no id above it.
    pub fn from_sessions(sessions: Vec<Session>) -> (r: Option<SessionRegistry>)
        ensures
            match r {
                Some(reg) => reg@ == sessions@ && reg.wf(),
                None => exists|j: int| 0 <= j < sessions@.len() && sessions@[j].id == u64::MAX,
            },
    {
        let mut top: u64 = 0;
        let mut j: usize = 0;
        while j < sessions.len()
            invariant
                j <= sessions@.len(),
                forall|k: int| 0 <= k < j ==> (#[trigger] sessions@[k]).id <= top,
                top < u64::MAX,
            decreases sessions@.len() - j,
        {
            if sessions[j].id == u64::MAX {
                assert(sessions@[j as int].id == u64::MAX);
                return None;
            }
            if sessions[j].id > top {
                top = sessions[j].id;
            }
            j += 1;
        }
        Some(SessionRegistry { sessions, next_id: top + 1 })
    }

    /// Whether another session can still be given a fresh id.
    pub fn has_id_space(&self) -> (r: bool)
        ensures
            r == (self.next_session_id() < u64::MAX),
    {
        self.next_id < u64::MAX
    }

    pub fn sessions(&self) -> (r: &Vec<Session>)
        ensures
            r@ == self@,
    {
        &self.sessions
    }

    fn hash_pos(&self, h: &String) -> (r: Option<usize>)
        ensures
            match r {
                Some(i) => i as int == hash_position(self@, h@),
                None => hash_position(self@, h@) == -1,
            },
    {
        let mut i = self.sessions.len();
        assert(self@.subrange(0, i as int) =~= self@);
        while i > 0
            invariant
                i <= self@.len(),
                hash_position(self@, h@) == hash_position(self@.subrange(0, i as int), h@),
            decreases i,
        {
            if self.sessions[i - 1].token_hash == *h {
                return Some(i - 1);
            }
            assert(self@.subrange(0, i as int).drop_last() =~= self@.subrange(0, i - 1));
            i -= 1;
        }
        None
    }

    fn live_hash_pos(&self, h: &String, now: i64) -> (r: Option<usize>)
        ensures
            match r {
                Some(i) => i as int == live_hash_position(self@, h@, now),
                None => live_hash_position(self@, h@, now) == -1,
            },
    {
        let mut i = self.sessions.len();
        assert(self@.subrange(0, i as int) =~= self@);
        while i > 0
            invariant
                i <= self@.len(),
                live_hash_position(self@, h@, now) == live_hash_position(
                    self@.subrange(0, i as int),
                    h@,
                    now,
                ),
            decreases i,
        {
            let x = &self.sessions[i - 1];
            if x.token_hash == *h && !x.revoked && now < x.expires_at {
                return Some(i - 1);
            }
            assert(self@.subrange(0, i as int).drop_last() =~= self@.subrange(0, i - 1));
            i -= 1;
        }
        None
    }

    fn sid_pos(&self, sid: u64) -> (r: Option<usize>)
        ensures
            match r {
                Some(i) => i as int == sid_position(self@, sid),
                None => sid_position(self@, sid) == -1,
            },
    {
        let mut i = self.sessions.len();
        assert(self@.subrange(0, i as int) =~= self@);
        while i > 0
            invariant
                i <= self@.len(),
                sid_position(self@, sid) == sid_position(self@.subrange(0, i as int), sid),
            decreases i,
        {
            if self.sessions[i - 1].id == sid {
                return Some(i - 1);
            }
            assert(self@.subrange(0, i as int).drop_last() =~= self@.subrange(0, i - 1));
            i -= 1;
        }
        None
    }

    fn most_recent_pos(&self, acct: u128, d: Option<&str>, now: i64) -> (r: Option<usize>)
        ensures
            match r {
                Some(i) => i as int == most_recent(self@, acct, opt_str(d), now),
                None => most_recent(self@, acct, opt_str(d), now) == -1,
            },
    {
        let mut best: Option<usize> = None;
        let mut j: usize = 0;
        while j < self.sessions.len()
            invariant
                j <= self@.len(),
                match best {
                    Some(b) => b < j && b as int == most_recent(
                        self@.subrange(0, j as int),
                        acct,
                        opt_str(d),
                        now,
                    ),
                    None => most_recent(self@.subrange(0, j as int), acct, opt_str(d), now) == -1,
                },
            decreases self@.len() - j,
        {
            let ghost sub = self@.subrange(0, j + 1);
            assert(sub.drop_last() =~= self@.subrange(0, j as int));
            let x = &self.sessions[j];
            if device_matches_exec(x, acct, d, now) {
                match best {
                    None => {
                        best = Some(j);
                    },
                    Some(b) => {
                        if x.last_seen_at > self.sessions[b].last_seen_at {
                            best = Some(j);
                        }
                    },
                }
            }
            j += 1;
        }
        assert(self@.subrange(0, j as int) =~= self@);
        best
    }

    fn least_recent_pos(&self, acct: u128, now: i64) -> (r: Option<usize>)
        ensures
            match r {
                Some(i) => i as int == least_recent(self@, acct, now),
                None => least_recent(self@, acct, now) == -1,
            },
    {
        let mut best: Option<usize> = None;
        let mut j: usize = 0;
        while j < self.sessions.len()
            invariant
                j <= self@.len(),
                match best {
                    Some(b) => b < j && b as int == least_recent(self@.subrange(0, j as int), acct, now),
                    None => least_recent(self@.subrange(0, j as int), acct, now) == -1,
                },
            decreases self@.len() - j,
        {
            let ghost sub = self@.subrange(0, j + 1);
            assert(sub.drop_last() =~= self@.subrange(0, j as int));
            let x = &self.sessions[j];
            if x.account_id == acct && !x.revoked && now < x.expires_at {
                match best {
                    None => {
                        best = Some(j);
                    },
                    Some(b) => {
                        if x.last_seen_at < self.sessions[b].last_seen_at {
                            best = Some(j);
                        }
                    },
                }
            }
            j += 1;
        }
        assert(self@.subrange(0, j as int) =~= self@);
        best
    }

    /// How many live sessions the account has.
    pub fn active_session_count(&self, acct: u128, now: i64) -> (r: usize)
        ensures
            r == active_count(self@, acct, now),
    {
        let mut count: usize = 0;
        let mut j: usize = 0;
        while j < self.sessions.len()
            invariant
                j <= self@.len(),
                count <= j,
                count == active_count(self@.subrange(0, j as int), acct, now),
            decreases self@.len() - j,
        {
            assert(self@.subrange(0, j + 1).drop_last() =~= self@.subrange(0, j as int));
            let x = &self.sessions[j];
            if x.account_id == acct && !x.revoked && now < x.expires_at {
                count += 1;
            }
            j += 1;
        }
        assert(self@.subrange(0, j as int) =~= self@);
        count
    }

    /// Purges the stale sessions of one account (of every account for
    /// `None`); returns how many were purged.
    fn prune(&mut self, acct: Option<u128>, now: i64) -> (r: usize)
        requires
            old(self).wf(),
            valid_time(now),
        ensures
            final(self).wf(),
            final(self)@ == pruned(old(self)@, acct, now),
            final(self).next_session_id() == old(self).next_session_id(),
            r == old(self)@.len() - final(self)@.len(),
    {
        let mut out: Vec<Session> = Vec::new();
        let mut j: usize = 0;
        while j < self.sessions.len()
            invariant
                j <= self@.len(),
                self@ == old(self)@,
                self.next_id == old(self).next_id,
                valid_time(now),
                out@ == pruned(self@.subrange(0, j as int), acct, now),
            decreases self@.len() - j,
        {
            assert(self@.subrange(0, j + 1).drop_last() =~= self@.subrange(0, j as int));
            let x = &self.sessions[j];
            let of_acct = match acct {
                Some(a) => x.account_id == a,
                None => true,
            };
            let stale = x.expires_at <= now || (x.revoked && x.last_seen_at < now - REVOKED_RETENTION_SECS)
                || (!x.revoked && x.last_seen_at < now - IDLE_LIMIT_SECS);
            if !(of_acct && stale) {
                out.push(x.snapshot());
            }
            j += 1;
        }
        assert(self@.subrange(0, j as int) =~= self@);
        proof {
            lemma_pruned_ids(self@, acct, now, self.next_id);
        }
        let before = self.sessions.len();
        self.sessions = out;
        before - self.sessions.len()
    }

    /// Purges stale sessions of every account; returns how many.
    pub fn cleanup_sessions(&mut self, now: i64) -> (r: usize)
        requires
            old(self).wf(),
            valid_time(now),
        ensures
            final(self).wf(),
            final(self)@ == pruned(old(self)@, None, now),
            final(self).next_session_id() == old(self).next_session_id(),
            r == old(self)@.len() - final(self)@.len(),
    {
        self.prune(None, now)
    }

    /// Purges stale sessions of one account; returns how many.
    pub fn cleanup_user_sessions(&mut self, acct: u128, now: i64) -> (r: usize)
        requires
            old(self).wf(),
            valid_time(now),
        ensures
            final(self).wf(),
            final(self)@ == pruned(old(self)@, Some(acct), now),
            final(self).next_session_id() == old(self).next_session_id(),
            r == old(self)@.len() - final(self)@.len(),
    {
        self.prune(Some(acct), now)
    }

    /// A record replaced by one with the same id keeps the registry wf.
    proof fn lemma_same_id_keeps_wf(&self, before: Seq<Session>, p: int)
        requires
            ids_below(before, self.next_session_id()),
            0 <= p < before.len(),
            self@ == before.update(p, self@[p]),
            self@[p].id == before[p].id,
        ensures
            self.wf(),
    {
        assert forall|j: int| 0 <= j < self@.len() implies (#[trigger] self@[j]).id < self.next_session_id() by {
            if j != p {
                assert(self@[j] == before[j]);
            }
        }
    }

    /// Records a successful authentication. A token already on file
    /// refreshes its session; a new token from an install whose live
    /// session is known rotates that session's token in place; anything else
    /// opens a new session, purging the account's stale sessions first and
    /// revoking the least recently seen live one when the account is at the
    /// cap. Returns the session id.
    pub fn create_or_update_session(
        &mut self,
        acct: u128,
        token: &str,
        device_info: Option<DeviceInfo>,
        ip_address: Option<String>,
        now: i64,
    ) -> (r: u64)
        requires
            old(self).wf(),
            valid_time(now),
            old(self).next_session_id() < u64::MAX,
        ensures
            final(self).wf(),
            ({
                let s = old(self)@;
                let h = token_digest(token@);
                let hp = hash_position(s, h);
                let dp = match info_sid(device_info) {
                    Some(d) => most_recent(s, acct, Some(d), now),
                    None => -1,
                };
                if hp >= 0 {
                    &&& r == s[hp].id
                    &&& final(self)@ == s.update(hp, final(self)@[hp])
                    &&& touched(final(self)@[hp], s[hp], device_info, ip_address, now)
                    &&& final(self).next_session_id() == old(self).next_session_id()
                } else if dp >= 0 {
                    &&& r == s[dp].id
                    &&& final(self)@ == s.update(dp, final(self)@[dp])
                    &&& rotated(final(self)@[dp], s[dp], h, device_info, now)
                    &&& final(self).next_session_id() == old(self).next_session_id()
                } else {
                    &&& r == old(self).next_session_id()
                    &&& final(self).next_session_id() == old(self).next_session_id() + 1
                    &&& final(self)@.len() > 0
                    &&& opened(final(self)@.last(), r, acct, h, device_info, ip_address, now)
                    &&& opened_new(final(self)@, s, acct, now, final(self)@.last())
                    &&& active_count(final(self)@, acct, now) == count_after_open(
                        active_count(pruned(s, Some(acct), now), acct, now),
                    )
                }
            }),
    {
        let h = hash_token(token);
        let ghost s = self@;
        if let Some(p) = self.hash_pos(&h) {
            proof {
                lemma_hash_position(s, h@);
            }
            self.sessions[p].last_seen_at = now;
            self.sessions[p].device_info = device_info;
            self.sessions[p].ip_address = ip_address;
            proof {
                assert(self@ =~= s.update(p as int, self@[p as int]));
                self.lemma_same_id_keeps_wf(s, p as int);
            }
            return self.sessions[p].id;
        }
        let wanted: Option<String> = match &device_info {
            Some(d) => copy_opt_text(&d.session_id),
            None => None,
        };
        if let Some(w) = &wanted {
            if let Some(p) = self.most_recent_pos(acct, Some(w.as_str()), now) {
                proof {
                    lemma_most_recent(s, acct, Some(w@), now);
                }
                self.sessions[p].token_hash = h;
                self.sessions[p].last_seen_at = now;
                self.sessions[p].expires_at = now + SESSION_LIFETIME_SECS;
                self.sessions[p].device_info = device_info;
                proof {
                    assert(self@ =~= s.update(p as int, self@[p as int]));
                    self.lemma_same_id_keeps_wf(s, p as int);
                }
                return self.sessions[p].id;
            }
        }
        self.prune(Some(acct), now);
        let ghost u = self@;
        let live = self.active_session_count(acct, now);
        if live >= MAX_CONCURRENT_SESSIONS {
            proof {
                lemma_least_recent(u, acct, now);
                if least_recent(u, acct, now) == -1 {
                    lemma_count_zero(u, acct, now);
                }
            }
            if let Some(p) = self.least_recent_pos(acct, now) {
                self.sessions[p].revoked = true;
                proof {
                    assert(self@ =~= u.update(p as int, revoked(u[p as int])));
                    self.lemma_same_id_keeps_wf(u, p as int);
                    lemma_count_update(u, p as int, revoked(u[p as int]), acct, now);
                }
            }
        }
        let id = self.next_id;
        let fresh = Session {
            id,
            account_id: acct,
            token_hash: h,
            device_info,
            ip_address,
            created_at: now,
            last_seen_at: now,
            expires_at: now + SESSION_LIFETIME_SECS,
            revoked: false,
        };
        let ghost before_push = self@;
        assert(active_count(before_push, acct, now) + 1 == count_after_open(active_count(u, acct, now)));
        self.sessions.push(fresh);
        self.next_id = id + 1;
        proof {
            assert(self@.drop_last() =~= before_push);
            assert forall|j: int| 0 <= j < self@.len() implies (#[trigger] self@[j]).id < self.next_id by {
                if j < before_push.len() {
                    assert(self@[j] == before_push[j]);
                }
            }
        }
        id
    }

    /// Looks up the live session of a token and marks it seen, in one step.
    pub fn validate_session(&mut self, token: &str, now: i64) -> (r: Option<u64>)
        requires
            old(self).wf(),
        ensures
            final(self).wf(),
            final(self).next_session_id() == old(self).next_session_id(),
            ({
                let s = old(self)@;
                let p = live_hash_position(s, token_digest(token@), now);
                if p >= 0 {
                    r == Some(s[p].id) && final(self)@ == s.update(
                        p,
                        Session { last_seen_at: now, ..s[p] },
                    )
                } else {
                    r is None && final(self)@ == s
                }
            }),
    {
        let h = hash_token(token);
        let ghost s = self@;
        match self.live_hash_pos(&h, now) {
            None => None,
            Some(p) => {
                proof {
                    lemma_live_hash_position(s, h@, now);
                }
                self.sessions[p].last_seen_at = now;
                proof {
                    assert(self@ =~= s.update(p as int, Session { last_seen_at: now, ..s[p as int] }));
                    self.lemma_same_id_keeps_wf(s, p as int);
                }
                Some(self.sessions[p].id)
            },
        }
    }

    /// Rotates the token of a session whose bearer proved its identity but
    /// whose token is not on file: the install's live session when one is
    /// named and found, else the account's most recently seen live session.
    /// `None` when the account has no live session.
    pub fn update_session_token(
        &mut self,
        acct: u128,
        new_token: &str,
        device_session_id: Option<&str>,
        now: i64,
    ) -> (r: Option<u64>)
        requires
            old(self).wf(),
            valid_time(now),
        ensures
            final(self).wf(),
            final(self).next_session_id() == old(self).next_session_id(),
            ({
                let s = old(self)@;
                let p = refresh_target(s, acct, opt_str(device_session_id), now);
                if p >= 0 {
                    &&& r == Some(s[p].id)
                    &&& final(self)@ == s.update(p, final(self)@[p])
                    &&& rotated(final(self)@[p], s[p], token_digest(new_token@), s[p].device_info, now)
                } else {
                    r is None && final(self)@ == s
                }
            }),
    {
        let h = hash_token(new_token);
        let ghost s = self@;
        let mut target: Option<usize> = None;
        if let Some(d) = device_session_id {
            target = self.most_recent_pos(acct, Some(d), now);
        }
        if target.is_none() {
            target = self.most_recent_pos(acct, None, now);
        }
        proof {
            lemma_most_recent(s, acct, None, now);
            if let Some(d) = device_session_id {
                lemma_most_recent(s, acct, Some(d@), now);
            }
        }
        match target {
            None => None,
            Some(p) => {
                self.sessions[p].token_hash = h;
                self.sessions[p].last_seen_at = now;
                self.sessions[p].expires_at = now + SESSION_LIFETIME_SECS;
                proof {
                    assert(self@ =~= s.update(p as int, self@[p as int]));
                    self.lemma_same_id_keeps_wf(s, p as int);
                }
                Some(self.sessions[p].id)
            },
        }
    }

    /// Revokes one session of the account; true when it exists.
    pub fn revoke_session(&mut self, session_id: u64, acct: u128) -> (r: bool)
        requires
            old(self).wf(),
        ensures
            final(self).wf(),
            final(self).next_session_id() == old(self).next_session_id(),
            ({
                let s = old(self)@;
                let p = sid_position(s, session_id);
                &&& r == (p >= 0 && s[p].account_id == acct)
                &&& r ==> final(self)@ == s.update(p, revoked(s[p]))
                &&& !r ==> final(self)@ == s
            }),
    {
        let ghost s = self@;
        proof {
            lemma_sid_position(s, session_id);
        }
        match self.sid_pos(session_id) {
            None => false,
            Some(p) => {
                if self.sessions[p].account_id != acct {
                    return false;
                }
                self.sessions[p].revoked = true;
                proof {
                    assert(self@ =~= s.update(p as int, revoked(s[p as int])));
                    self.lemma_same_id_keeps_wf(s, p as int);
                }
                true
            },
        }
    }

    /// Revokes every session of the account, sparing the one under the
    /// given token when one is named; returns how many were reached.
    pub fn revoke_all_sessions(&mut self, acct: u128, except_token: Option<&str>) -> (r: usize)
        requires
            old(self).wf(),
        ensures
            final(self).wf(),
            final(self).next_session_id() == old(self).next_session_id(),
            ({
                let s = old(self)@;
                let spared = match except_token {
                    Some(t) => Some(token_digest(t@)),
                    None => None,
                };
                &&& final(self)@ == Seq::new(
                    s.len(),
                    |j: int|
                        if revocation_target(s[j], acct, spared) {
                            revoked(s[j])
                        } else {
                            s[j]
                        },
                )
                &&& r == revocation_count(s, acct, spared)
            }),
    {
        let ghost s = self@;
        let spared: Option<String> = match except_token {
            Some(t) => Some(hash_token(t)),
            None => None,
        };
        let ghost sp = match except_token {
            Some(t) => Some(token_digest(t@)),
            None => None::<Seq<char>>,
        };
        let mut count: usize = 0;
        let mut j: usize = 0;
        while j < self.sessions.len()
            invariant
                j <= self@.len(),
                self@.len() == s.len(),
                self.next_id == old(self).next_id,
                ids_below(s, self.next_id),
                sp == match spared {
                    Some(x) => Some(x@),
                    None => None::<Seq<char>>,
                },
                count <= j,
                count == revocation_count(s.subrange(0, j as int), acct, sp),
                forall|k: int|
                    0 <= k < j ==> #[trigger] self@[k] == if revocation_target(s[k], acct, sp) {
                        revoked(s[k])
                    } else {
                        s[k]
                    },
                forall|k: int| j <= k < self@.len() ==> #[trigger] self@[k] == s[k],
            decreases self@.len() - j,
        {
            assert(s.subrange(0, j + 1).drop_last() =~= s.subrange(0, j as int));
            let target = self.sessions[j].account_id == acct && match &spared {
                Some(x) => self.sessions[j].token_hash != *x,
                None => true,
            };
            if target {
                self.sessions[j].revoked = true;
                count += 1;
            }
            j += 1;
        }
        assert(s.subrange(0, j as int) =~= s);
        proof {
            assert forall|k: int| 0 <= k < self@.len() implies (#[trigger] self@[k]).id < self.next_id by {
                assert(self@[k].id == s[k].id);
            }
        }
        assert(self@ =~= Seq::new(
            s.len(),
            |k: int|
                if revocation_target(s[k], acct, sp) {
                    revoked(s[k])
                } else {
                    s[k]
                },
        ));
        count
    }

    /// The live sessions of the account, most recently seen first.
    pub fn get_user_sessions(&self, acct: u128, now: i64) -> (r: Vec<Session>)
        ensures
            r@.to_multiset() == live_of(self@, acct, now).to_multiset(),
            forall|i: int, j: int|
                0 <= i < j < r@.len() ==> r@[i].last_seen_at >= r@[j].last_seen_at,
    {
        let mut out: Vec<Session> = Vec::new();
        let mut j: usize = 0;
        assert(live_of(self@.subrange(0, 0), acct, now) =~= out@);
        while j < self.sessions.len()
            invariant
                j <= self@.len(),
                out@.to_multiset() == live_of(self@.subrange(0, j as int), acct, now).to_multiset(),
                forall|a: int, b: int| 0 <= a < b < out@.len() ==> out@[a].last_seen_at >= out@[b].last_seen_at,
            decreases self@.len() - j,
        {
            let ghost prefix = self@.subrange(0, j as int);
            assert(self@.subrange(0, j + 1).drop_last() =~= prefix);
            let x = &self.sessions[j];
            if x.account_id == acct && !x.revoked && now < x.expires_at {
                let mut k: usize = 0;
                while k < out.len() && out[k].last_seen_at >= x.last_seen_at
                    invariant
                        k <= out@.len(),
                        forall|m: int| 0 <= m < k ==> out@[m].last_seen_at >= x.last_seen_at,
                    decreases out@.len() - k,
                {
                    k += 1;
                }
                let ghost before = out@;
                out.insert(k, x.snapshot());
                proof {
                    vstd::seq_lib::to_multiset_insert(before, k as int, *x);
                    vstd::seq_lib::to_multiset_build(live_of(prefix, acct, now), *x);
                    assert(out@ == before.insert(k as int, *x));
                    assert forall|a: int, b: int| 0 <= a < b < out@.len() implies out@[a].last_seen_at
                        >= out@[b].last_seen_at by {
                        if b < k {
                            assert(out@[a] == before[a] && out@[b] == before[b]);
                        } else if b == k {
                            assert(out@[a] == before[a]);
                        } else if a < k {
                            assert(out@[a] == before[a] && out@[b] == before[b - 1]);
                        } else if a == k {
                            assert(out@[b] == before[b - 1]);
                            assert(before[k as int].last_seen_at < x.last_seen_at);
                        } else {
                            assert(out@[a] == before[a - 1] && out@[b] == before[b - 1]);
                        }
                    }
                }
            }
            j += 1;
        }
        assert(self@.subrange(0, j as int) =~= self@);
        out
    }
}

} // verus!
