//! The account table: lookups by id, the guarded quota debit, the monthly
//! sweep, and the lifecycle operations that act on one row.
use vstd::prelude::*;
use crate::account::{
    access_type_of, is_unlimited_tier, text_eq, valid_time, Account, AccountStatus, AccountType,
    BillingPeriod, SubscriptionState,
};
use crate::billing::{apply_subscription_status, synced, SubscriptionStatus};
use crate::entitlement::{
    apply_monthly_reset, can_send_message, debit_allowed, debited, decrement_trial_message,
    may_send, monthly_reset_due, swept, QuotaError,
};
use crate::lifecycle::{
    is_within_grace_period, purge_due, purge_is_due, restore, restored, soft_delete, soft_deleted,
    subscription_cancelled, within_grace, RestoreError, GRACE_SECS,
};

verus! {

/// Index of the last record with this id, or -1.
pub open spec fn position(s: Seq<Account>, id: u128) -> int
    decreases s.len(),
{
    if s.len() == 0 {
        -1
    } else if s.last().id == id {
        s.len() - 1
    } else {
        position(s.drop_last(), id)
    }
}

/// The record with this id, if any.
pub open spec fn lookup(s: Seq<Account>, id: u128) -> Option<Account> {
    let p = position(s, id);
    if p >= 0 {
        Some(s[p])
    } else {
        None
    }
}

/// The table with the record of this id replaced by `a` (unchanged when no
/// record has the id).
pub open spec fn put(s: Seq<Account>, id: u128, a: Account) -> Seq<Account> {
    let p = position(s, id);
    if p >= 0 {
        s.update(p, a)
    } else {
        s
    }
}

/// Replacing the record of an id by one with the same id leaves it where
/// it was.
pub proof fn lemma_put_keeps_position(s: Seq<Account>, id: u128, b: Account)
    requires
        b.id == id,
    ensures
        position(put(s, id, b), id) == position(s, id),
        position(s, id) >= 0 ==> lookup(put(s, id, b), id) == Some(b),
{
    lemma_position(s, id);
    let p = position(s, id);
    if p >= 0 {
        lemma_position_update(s, p, b, id);
    }
}

proof fn lemma_position_update(s: Seq<Account>, p: int, b: Account, id: u128)
    requires
        0 <= p < s.len(),
        b.id == s[p].id,
    ensures
        position(s.update(p, b), id) == position(s, id),
    decreases s.len(),
{
    let u = s.update(p, b);
    if p == s.len() - 1 {
        assert(u.drop_last() =~= s.drop_last());
    } else {
        assert(u.drop_last() =~= s.drop_last().update(p, b));
        lemma_position_update(s.drop_last(), p, b, id);
    }
}

/// Every record wf and no two records sharing an id.
pub open spec fn records_wf(s: Seq<Account>) -> bool {
    &&& forall|i: int| 0 <= i < s.len() ==> (#[trigger] s[i]).wf()
    &&& forall|i: int, j: int|
        0 <= i < s.len() && 0 <= j < s.len() && i != j ==> s[i].id != s[j].id
}

/// The table after the monthly sweep.
pub open spec fn sweep_all(s: Seq<Account>, now: i64) -> Seq<Account> {
    Seq::new(s.len(), |j: int| swept(s[j], now))
}

/// How many records the monthly sweep refills.
pub open spec fn due_count(s: Seq<Account>, now: i64) -> nat
    decreases s.len(),
{
    if s.len() == 0 {
        0
    } else {
        due_count(s.drop_last(), now) + if monthly_reset_due(s.last(), now) {
            1nat
        } else {
            0nat
        }
    }
}

/// What loading an account yields: an active account as it is, a deleted
/// one inside its grace window restored, anything else nothing.
pub open spec fn loaded(a: Account, now: i64) -> Option<Account> {
    if a.account_status == AccountStatus::Active {
        Some(a)
    } else if within_grace(a, now) {
        Some(restored(a, now))
    } else {
        None
    }
}

/// The stored record after it has been loaded.
pub open spec fn after_load(a: Account, now: i64) -> Account {
    if a.account_status != AccountStatus::Active && within_grace(a, now) {
        restored(a, now)
    } else {
        a
    }
}

pub proof fn lemma_position(s: Seq<Account>, id: u128)
    ensures
        -1 <= position(s, id) < s.len(),
        position(s, id) >= 0 ==> s[position(s, id)].id == id,
        position(s, id) == -1 ==> forall|j: int| 0 <= j < s.len() ==> s[j].id != id,
    decreases s.len(),
{
    if s.len() > 0 && s.last().id != id {
        lemma_position(s.drop_last(), id);
        assert forall|j: int| 0 <= j < s.len() - 1 implies s[j] == s.drop_last()[j] by {}
    }
}

/// The decision `can_send_message` reaches on a table: after the sweep, the
/// account is loaded and evaluated.
pub open spec fn store_may_send(s: Seq<Account>, id: u128, now: i64) -> bool {
    match lookup(sweep_all(s, now), id) {
        Some(a) => match loaded(a, now) {
            Some(b) => may_send(b, now),
            None => false,
        },
        None => false,
    }
}

/// The table after `can_send_message`.
pub open spec fn store_after_check(s: Seq<Account>, id: u128, now: i64) -> Seq<Account> {
    let t = sweep_all(s, now);
    match lookup(t, id) {
        Some(a) => put(t, id, after_load(a, now)),
        None => t,
    }
}

/// The records whose grace window has not closed, in order.
pub open spec fn kept(s: Seq<Account>, now: i64) -> Seq<Account>
    decreases s.len(),
{
    if s.len() == 0 {
        s
    } else if purge_due(s[0], now) {
        kept(s.drop_first(), now)
    } else {
        seq![s[0]] + kept(s.drop_first(), now)
    }
}

/// The ids of the records whose grace window has closed, in order.
pub open spec fn expired_ids(s: Seq<Account>, now: i64) -> Seq<u128>
    decreases s.len(),
{
    if s.len() == 0 {
        Seq::empty()
    } else if purge_due(s.last(), now) {
        expired_ids(s.drop_last(), now).push(s.last().id)
    } else {
        expired_ids(s.drop_last(), now)
    }
}

/// Another active record shares this account's team.
pub open spec fn has_active_teammate(s: Seq<Account>, id: u128, team: u128) -> bool {
    exists|k: int|
        0 <= k < s.len() && (#[trigger] s[k]).team_id == Some(team) && s[k].id != id
            && s[k].account_status == AccountStatus::Active
}

/// The account is on a team plan with a team that has other active members.
pub open spec fn team_admin(s: Seq<Account>, id: u128) -> bool {
    match lookup(s, id) {
        Some(a) => a.account_type == AccountType::Team && match a.team_id {
            Some(t) => has_active_teammate(s, id, t),
            None => false,
        },
        None => false,
    }
}

/// Why a deletion request was refused.
#[derive(Clone, Copy, Debug, PartialEq, Eq, Structural)]
pub enum DeleteError {
    /// No active account with this id.
    NotFound,
    /// The request did not carry the confirmation.
    ConfirmationRequired,
    /// The account holds a team that still has other active members.
    TeamAdmin,
}

/// Index of the last record linked to this provider user, or -1.
pub open spec fn auth_position(s: Seq<Account>, auth: u128) -> int
    decreases s.len(),
{
    if s.len() == 0 {
        -1
    } else if s.last().auth_user_id == Some(auth) {
        s.len() - 1
    } else {
        auth_position(s.drop_last(), auth)
    }
}

pub proof fn lemma_auth_position(s: Seq<Account>, auth: u128)
    ensures
        -1 <= auth_position(s, auth) < s.len(),
        auth_position(s, auth) >= 0 ==> s[auth_position(s, auth)].auth_user_id == Some(auth),
    decreases s.len(),
{
    if s.len() > 0 {
        lemma_auth_position(s.drop_last(), auth);
    }
}

/// Why linking a provider user to an account failed.
#[derive(Clone, Copy, Debug, PartialEq, Eq, Structural)]
pub enum LinkError {
    /// The linked account was deleted and its grace window has closed.
    AccountPermanentlyDeleted,
    /// The id offered for a new account is taken.
    DuplicateId,
}

/// What the client is told about the caller's plan and quota.
pub struct UserStatusResponse {
    pub is_authenticated: bool,
    pub user_id: Option<u128>,
    pub email: Option<String>,
    pub email_verified: bool,
    pub oauth_provider: Option<String>,
    pub access_type: AccountType,
    pub account_type: AccountType,
    pub premium_expires_at: Option<i64>,
    pub messages_remaining: Option<u32>,
    pub total_messages_sent: u32,
    pub subscription_type: Option<BillingPeriod>,
    pub subscription_started_at: Option<i64>,
    pub next_billing_date: Option<i64>,
    pub subscription_status: Option<SubscriptionState>,
}

/// The account loading an optional id yields.
pub open spec fn load_result(s: Seq<Account>, id: Option<u128>, now: i64) -> Option<Account> {
    match id {
        None => None,
        Some(i) => match lookup(s, i) {
            Some(a) => loaded(a, now),
            None => None,
        },
    }
}

/// The table after loading an optional id.
pub open spec fn after_get(s: Seq<Account>, id: Option<u128>, now: i64) -> Seq<Account> {
    match id {
        None => s,
        Some(i) => match lookup(s, i) {
            Some(a) => put(s, i, after_load(a, now)),
            None => s,
        },
    }
}

/// The status reported for a loaded account (or for nobody).
pub open spec fn status_of(a: Option<Account>, id: Option<u128>, total_messages_sent: u32) -> UserStatusResponse {
    match a {
        Some(u) => UserStatusResponse {
            is_authenticated: id is Some && u.account_type != AccountType::TrialUnregistered,
            user_id: id,
            email: Some(u.email),
            email_verified: u.email_verified,
            oauth_provider: u.oauth_provider,
            access_type: access_type_of(u.account_type),
            account_type: u.account_type,
            premium_expires_at: u.premium_expires_at,
            messages_remaining: if is_unlimited_tier(u.account_type) {
                None
            } else {
                u.trial_messages_remaining
            },
            total_messages_sent,
            subscription_type: u.subscription_type,
            subscription_started_at: u.subscription_started_at,
            next_billing_date: u.next_billing_date,
            subscription_status: u.subscription_status,
        },
        None => UserStatusResponse {
            is_authenticated: false,
            user_id: None,
            email: None,
            email_verified: false,
            oauth_provider: None,
            access_type: AccountType::TrialRegistered,
            account_type: AccountType::TrialRegistered,
            premium_expires_at: None,
            messages_remaining: None,
            total_messages_sent: 0,
            subscription_type: None,
            subscription_started_at: None,
            next_billing_date: None,
            subscription_status: None,
        },
    }
}

/// The account table.
pub struct AccountStore {
    accounts: Vec<Account>,
}

impl View for AccountStore {
    type V = Seq<Account>;

    closed spec fn view(&self) -> Seq<Account> {
        self.accounts@
    }
}

/// Why a record could not be added.
#[derive(Clone, Copy, Debug, PartialEq, Eq, Structural)]
pub enum InsertError {
    DuplicateId,
    /// No record with this id to write over.
    Missing,
    /// A deleted record without its deletion time.
    Malformed,
}

impl AccountStore {
    pub open spec fn wf(&self) -> bool {
        records_wf(self@)
    }

    pub fn new() -> (r: AccountStore)
        ensures
            r@ == Seq::<Account>::empty(),
            r.wf(),
    {
        AccountStore { accounts: Vec::new() }
    }

    pub fn len(&self) -> (r: usize)
        ensures
            r == self@.len(),
    {
        self.accounts.len()
    }

    /// The record at a position of the table.
    pub fn account_at(&self, i: usize) -> (r: &Account)
        requires
            i < self@.len(),
        ensures
            *r == self@[i as int],
    {
        &self.accounts[i]
    }

    /// Index of the record with this id.
    fn find(&self, id: u128) -> (r: Option<usize>)
        ensures
            match r {
                Some(i) => i as int == position(self@, id),
                None => position(self@, id) == -1,
            },
    {
        let mut i = self.accounts.len();
        assert(self@.subrange(0, i as int) =~= self@);
        while i > 0
            invariant
                i <= self@.len(),
                position(self@, id) == position(self@.subrange(0, i as int), id),
            decreases i,
        {
            if self.accounts[i - 1].id == id {
                return Some(i - 1);
            }
            assert(self@.subrange(0, i as int).drop_last() =~= self@.subrange(0, i - 1));
            i -= 1;
        }
        None
    }

    /// Adds a record; refuses a second record with the same id and a deleted
    /// record without its deletion time.
    pub fn insert(&mut self, a: Account) -> (r: Result<(), InsertError>)
        requires
            old(self).wf(),
        ensures
            final(self).wf(),
            lookup(old(self)@, a.id) is Some ==> r == Err::<(), InsertError>(InsertError::DuplicateId)
                && final(self)@ == old(self)@,
            lookup(old(self)@, a.id) is None && !a.wf() ==> r == Err::<(), InsertError>(
                InsertError::Malformed,
            ) && final(self)@ == old(self)@,
            lookup(old(self)@, a.id) is None && a.wf() ==> r is Ok && final(self)@ == old(self)@.push(a),
    {
        proof {
            lemma_position(self@, a.id);
        }
        if self.find(a.id).is_some() {
            return Err(InsertError::DuplicateId);
        }
        if a.account_status == AccountStatus::Deleted && a.deleted_at.is_none() {
            return Err(InsertError::Malformed);
        }
        self.accounts.push(a);
        proof {
            let s = self@;
            assert forall|i: int| 0 <= i < s.len() implies (#[trigger] s[i]).wf() by {
                if i < s.len() - 1 {
                    assert(s[i] == old(self)@[i]);
                }
            }
            assert forall|i: int, j: int|
                0 <= i < s.len() && 0 <= j < s.len() && i != j implies s[i].id != s[j].id by {
                if i < s.len() - 1 {
                    assert(s[i] == old(self)@[i]);
                }
                if j < s.len() - 1 {
                    assert(s[j] == old(self)@[j]);
                }
            }
        }
        Ok(())
    }

    /// Writes back a record under its id, as an update of that row would;
    /// refuses an id that is not on file and a deleted record without its
    /// deletion time.
    pub fn replace_account(&mut self, a: Account) -> (r: Result<(), InsertError>)
        requires
            old(self).wf(),
        ensures
            final(self).wf(),
            lookup(old(self)@, a.id) is None ==> r == Err::<(), InsertError>(InsertError::Missing)
                && final(self)@ == old(self)@,
            lookup(old(self)@, a.id) is Some && !a.wf() ==> r == Err::<(), InsertError>(
                InsertError::Malformed,
            ) && final(self)@ == old(self)@,
            lookup(old(self)@, a.id) is Some && a.wf() ==> r is Ok && final(self)@ == put(
                old(self)@,
                a.id,
                a,
            ),
    {
        proof {
            lemma_position(self@, a.id);
        }
        let idx = match self.find(a.id) {
            None => return Err(InsertError::Missing),
            Some(i) => i,
        };
        if a.account_status == AccountStatus::Deleted && a.deleted_at.is_none() {
            return Err(InsertError::Malformed);
        }
        let ghost before = self@;
        self.accounts.set(idx, a);
        proof {
            self.lemma_update_keeps_wf(before, idx as int);
        }
        Ok(())
    }

    /// The record with this id, without side effects.
    pub fn peek(&self, id: u128) -> (r: Option<Account>)
        ensures
            r == lookup(self@, id),
    {
        proof {
            lemma_position(self@, id);
        }
        match self.find(id) {
            Some(i) => Some(self.accounts[i].snapshot()),
            None => None,
        }
    }

    /// Loads an account by id. A deleted account still inside its grace
    /// window is restored on the way; a suspended one, or one past its
    /// grace window, is not returned.
    pub fn get_user(&mut self, id: Option<u128>, now: i64) -> (r: Option<Account>)
        requires
            old(self).wf(),
            valid_time(now),
        ensures
            final(self).wf(),
            match id {
                None => r is None && final(self)@ == old(self)@,
                Some(i) => match lookup(old(self)@, i) {
                    None => r is None && final(self)@ == old(self)@,
                    Some(a) => r == loaded(a, now) && final(self)@ == put(
                        old(self)@,
                        i,
                        after_load(a, now),
                    ),
                },
            },
    {
        let uid = match id {
            None => return None,
            Some(u) => u,
        };
        proof {
            lemma_position(self@, uid);
        }
        let idx = match self.find(uid) {
            None => return None,
            Some(i) => i,
        };
        if self.accounts[idx].account_status == AccountStatus::Active {
            return Some(self.accounts[idx].snapshot());
        }
        if is_within_grace_period(&self.accounts[idx], now) {
            let ghost before = self@;
            self.accounts[idx].account_status = AccountStatus::Active;
            self.accounts[idx].deleted_at = None;
            self.accounts[idx].updated_at = now;
            proof {
                assert(self@ == before.update(idx as int, restored(before[idx as int], now)));
                self.lemma_update_keeps_wf(before, idx as int);
            }
            Some(self.accounts[idx].snapshot())
        } else {
            None
        }
    }

    /// A record replaced by a wf record with the same id keeps the table wf.
    proof fn lemma_update_keeps_wf(&self, before: Seq<Account>, p: int)
        requires
            records_wf(before),
            0 <= p < before.len(),
            self@ == before.update(p, self@[p]),
            self@[p].id == before[p].id,
            self@[p].wf(),
        ensures
            self.wf(),
    {
        let s = self@;
        assert forall|i: int| 0 <= i < s.len() implies (#[trigger] s[i]).wf() by {
            if i != p {
                assert(s[i] == before[i]);
            }
        }
        assert forall|i: int, j: int|
            0 <= i < s.len() && 0 <= j < s.len() && i != j implies s[i].id != s[j].id by {
            assert(s[i].id == before[i].id);
            assert(s[j].id == before[j].id);
        }
    }

    /// Debits one message from the identified account when its guard
    /// holds. An absent caller is reported as such; an unknown id, an
    /// unlimited plan or an empty counter as having no quota.
    pub fn decrement_trial_message(&mut self, id: Option<u128>, now: i64) -> (r: Result<(), QuotaError>)
        requires
            old(self).wf(),
        ensures
            final(self).wf(),
            match id {
                None => r == Err::<(), QuotaError>(QuotaError::NotAuthenticated) && final(self)@ == old(self)@,
                Some(i) => match lookup(old(self)@, i) {
                    Some(a) if debit_allowed(a) => r is Ok && final(self)@ == put(
                        old(self)@,
                        i,
                        debited(a, now),
                    ),
                    _ => r == Err::<(), QuotaError>(QuotaError::NoQuota) && final(self)@ == old(self)@,
                },
            },
    {
        let uid = match id {
            None => return Err(QuotaError::NotAuthenticated),
            Some(u) => u,
        };
        proof {
            lemma_position(self@, uid);
        }
        let idx = match self.find(uid) {
            None => return Err(QuotaError::NoQuota),
            Some(i) => i,
        };
        let ghost before = self@;
        let r = decrement_trial_message(&mut self.accounts[idx], now);
        proof {
            self.lemma_update_keeps_wf(before, idx as int);
        }
        r
    }

    /// The monthly sweep over every record; returns how many were refilled.
    pub fn auto_reset_individual_monthly_limits(&mut self, now: i64) -> (r: usize)
        requires
            old(self).wf(),
            valid_time(now),
        ensures
            final(self).wf(),
            final(self)@ == sweep_all(old(self)@, now),
            r == due_count(old(self)@, now),
    {
        let ghost before = self@;
        let mut count: usize = 0;
        let mut j: usize = 0;
        while j < self.accounts.len()
            invariant
                j <= self@.len(),
                self@.len() == before.len(),
                records_wf(before),
                valid_time(now),
                count == due_count(before.subrange(0, j as int), now),
                count <= j,
                forall|k: int| 0 <= k < j ==> #[trigger] self@[k] == swept(before[k], now),
                forall|k: int| j <= k < self@.len() ==> #[trigger] self@[k] == before[k],
            decreases self@.len() - j,
        {
            let due = apply_monthly_reset(&mut self.accounts[j], now);
            assert(before.subrange(0, j + 1).drop_last() =~= before.subrange(0, j as int));
            if due {
                count += 1;
            }
            j += 1;
        }
        assert(before.subrange(0, j as int) =~= before);
        assert(self@ =~= sweep_all(before, now));
        proof {
            let s = self@;
            assert forall|i: int| 0 <= i < s.len() implies (#[trigger] s[i]).wf() by {
                assert(before[i].wf());
            }
            assert forall|i: int, k: int|
                0 <= i < s.len() && 0 <= k < s.len() && i != k implies s[i].id != s[k].id by {
                assert(s[i].id == before[i].id);
                assert(s[k].id == before[k].id);
            }
        }
        count
    }

    fn find_auth(&self, auth: u128) -> (r: Option<usize>)
        ensures
            match r {
                Some(i) => i as int == auth_position(self@, auth),
                None => auth_position(self@, auth) == -1,
            },
    {
        let mut i = self.accounts.len();
        assert(self@.subrange(0, i as int) =~= self@);
        while i > 0
            invariant
                i <= self@.len(),
                auth_position(self@, auth) == auth_position(self@.subrange(0, i as int), auth),
            decreases i,
        {
            if self.accounts[i - 1].auth_user_id == Some(auth) {
                return Some(i - 1);
            }
            assert(self@.subrange(0, i as int).drop_last() =~= self@.subrange(0, i - 1));
            i -= 1;
        }
        None
    }

    /// Links a provider user on sign-in. An account already linked is
    /// returned, restored first when it is deleted but inside its grace
    /// window, refused when its grace window has closed. Otherwise a new
    /// registered account with the trial quota is created under `new_id`.
    /// Returns the account id and whether it was created.
    pub fn link_user(
        &mut self,
        auth_user_id: u128,
        email: String,
        oauth_provider: Option<String>,
        new_id: u128,
        now: i64,
    ) -> (r: Result<(u128, bool), LinkError>)
        requires
            old(self).wf(),
            valid_time(now),
        ensures
            final(self).wf(),
            ({
                let s = old(self)@;
                let p = auth_position(s, auth_user_id);
                if p >= 0 {
                    if s[p].account_status == AccountStatus::Deleted && !within_grace(s[p], now) {
                        r == Err::<(u128, bool), LinkError>(LinkError::AccountPermanentlyDeleted)
                            && final(self)@ == s
                    } else if s[p].account_status == AccountStatus::Deleted {
                        r == Ok::<(u128, bool), LinkError>((s[p].id, false)) && final(self)@ == s.update(
                            p,
                            restored(s[p], now),
                        )
                    } else {
                        r == Ok::<(u128, bool), LinkError>((s[p].id, false)) && final(self)@ == s
                    }
                } else if lookup(s, new_id) is Some {
                    r == Err::<(u128, bool), LinkError>(LinkError::DuplicateId) && final(self)@ == s
                } else {
                    &&& r == Ok::<(u128, bool), LinkError>((new_id, true))
                    &&& final(self)@.len() == s.len() + 1
                    &&& final(self)@.drop_last() == s
                    &&& final(self)@.last().id == new_id
                    &&& final(self)@.last().auth_user_id == Some(auth_user_id)
                    &&& final(self)@.last().email == email
                    &&& final(self)@.last().account_type == AccountType::TrialRegistered
                    &&& final(self)@.last().account_status == AccountStatus::Active
                    &&& final(self)@.last().trial_messages_remaining == Some(crate::entitlement::TRIAL_MESSAGES)
                }
            }),
    {
        let ghost s = self@;
        proof {
            lemma_auth_position(s, auth_user_id);
        }
        if let Some(p) = self.find_auth(auth_user_id) {
            if self.accounts[p].account_status == AccountStatus::Deleted {
                if !is_within_grace_period(&self.accounts[p], now) {
                    return Err(LinkError::AccountPermanentlyDeleted);
                }
                self.accounts[p].account_status = AccountStatus::Active;
                self.accounts[p].deleted_at = None;
                self.accounts[p].updated_at = now;
                proof {
                    assert(self@ =~= s.update(p as int, restored(s[p as int], now)));
                    self.lemma_update_keeps_wf(s, p as int);
                }
            }
            return Ok((self.accounts[p].id, false));
        }
        let email_verified = match &oauth_provider {
            Some(p) => !text_eq(p.as_str(), "email"),
            None => false,
        };
        let account = Account::new_registered(new_id, Some(auth_user_id), email, email_verified, oauth_provider, now);
        match self.insert(account) {
            Ok(()) => Ok((new_id, true)),
            Err(_) => Err(LinkError::DuplicateId),
        }
    }

    /// The caller's status: the account is loaded as `get_user` loads it
    /// and reported with its client-facing tier and quota; `total` is the
    /// number of messages the caller has sent.
    pub fn get_user_status_optimized(&mut self, id: Option<u128>, total: u32, now: i64) -> (r: UserStatusResponse)
        requires
            old(self).wf(),
            valid_time(now),
        ensures
            final(self).wf(),
            r == status_of(load_result(old(self)@, id, now), id, total),
            final(self)@ == after_get(old(self)@, id, now),
    {
        match self.get_user(id, now) {
            Some(u) => {
                let access_type = u.account_type.access_type();
                let messages_remaining = u.messages_remaining();
                let is_authenticated = id.is_some() && u.is_registered();
                UserStatusResponse {
                    is_authenticated,
                    user_id: id,
                    email: Some(u.email),
                    email_verified: u.email_verified,
                    oauth_provider: u.oauth_provider,
                    access_type,
                    account_type: u.account_type,
                    premium_expires_at: u.premium_expires_at,
                    messages_remaining,
                    total_messages_sent: total,
                    subscription_type: u.subscription_type,
                    subscription_started_at: u.subscription_started_at,
                    next_billing_date: u.next_billing_date,
                    subscription_status: u.subscription_status,
                }
            },
            None => UserStatusResponse {
                is_authenticated: false,
                user_id: None,
                email: None,
                email_verified: false,
                oauth_provider: None,
                access_type: AccountType::TrialRegistered,
                account_type: AccountType::TrialRegistered,
                premium_expires_at: None,
                messages_remaining: None,
                total_messages_sent: 0,
                subscription_type: None,
                subscription_started_at: None,
                next_billing_date: None,
                subscription_status: None,
            },
        }
    }

    /// Whether the identified account may send a message now. The monthly
    /// sweep runs first; then the account is loaded (restoring it when it is
    /// inside its grace window) and evaluated.
    pub fn can_send_message(&mut self, id: Option<u128>, now: i64) -> (r: bool)
        requires
            old(self).wf(),
            valid_time(now),
        ensures
            final(self).wf(),
            match id {
                None => !r && final(self)@ == old(self)@,
                Some(i) => r == store_may_send(old(self)@, i, now) && final(self)@
                    == store_after_check(old(self)@, i, now),
            },
    {
        if id.is_none() {
            return false;
        }
        self.auto_reset_individual_monthly_limits(now);
        let account = self.get_user(id, now);
        can_send_message(account.as_ref(), now)
    }

    /// Soft-deletes the account; returns the deletion time, or `None` when
    /// there is no such account.
    pub fn soft_delete_user(&mut self, id: u128, now: i64) -> (r: Option<i64>)
        requires
            old(self).wf(),
            valid_time(now),
        ensures
            final(self).wf(),
            match lookup(old(self)@, id) {
                None => r is None && final(self)@ == old(self)@,
                Some(a) => r == Some(now) && final(self)@ == put(old(self)@, id, soft_deleted(a, now)),
            },
    {
        proof {
            lemma_position(self@, id);
        }
        let idx = match self.find(id) {
            None => return None,
            Some(i) => i,
        };
        let ghost before = self@;
        soft_delete(&mut self.accounts[idx], now);
        proof {
            self.lemma_update_keeps_wf(before, idx as int);
        }
        Some(now)
    }

    /// Restores a deleted account inside its grace window and returns it.
    pub fn restore_user(&mut self, id: u128, now: i64) -> (r: Result<Account, RestoreError>)
        requires
            old(self).wf(),
            valid_time(now),
        ensures
            final(self).wf(),
            match lookup(old(self)@, id) {
                None => r == Err::<Account, RestoreError>(RestoreError::NotFound) && final(self)@ == old(self)@,
                Some(a) => if within_grace(a, now) {
                    r == Ok::<Account, RestoreError>(restored(a, now)) && final(self)@ == put(
                        old(self)@,
                        id,
                        restored(a, now),
                    )
                } else {
                    r == Err::<Account, RestoreError>(RestoreError::GracePeriodExpired) && final(self)@ == old(self)@
                },
            },
    {
        proof {
            lemma_position(self@, id);
        }
        let idx = match self.find(id) {
            None => return Err(RestoreError::NotFound),
            Some(i) => i,
        };
        let ghost before = self@;
        proof {
            assert(before[idx as int].wf());
        }
        match restore(&mut self.accounts[idx], now) {
            Err(e) => {
                proof {
                    assert(self@ =~= before);
                }
                Err(e)
            },
            Ok(()) => {
                proof {
                    self.lemma_update_keeps_wf(before, idx as int);
                }
                Ok(self.accounts[idx].snapshot())
            },
        }
    }

    /// Whether the account is deleted and still inside its grace window.
    pub fn is_within_grace_period(&self, id: u128, now: i64) -> (r: bool)
        requires
            valid_time(now),
        ensures
            r == match lookup(self@, id) {
                Some(a) => within_grace(a, now),
                None => false,
            },
    {
        proof {
            lemma_position(self@, id);
        }
        match self.find(id) {
            None => false,
            Some(i) => is_within_grace_period(&self.accounts[i], now),
        }
    }

    /// Erases the record with this id; true when there was one.
    pub fn permanently_delete_user(&mut self, id: u128) -> (r: bool)
        requires
            old(self).wf(),
        ensures
            final(self).wf(),
            r == (position(old(self)@, id) >= 0),
            r ==> final(self)@ == old(self)@.remove(position(old(self)@, id)),
            !r ==> final(self)@ == old(self)@,
    {
        proof {
            lemma_position(self@, id);
        }
        let idx = match self.find(id) {
            None => return false,
            Some(i) => i,
        };
        let ghost before = self@;
        self.accounts.remove(idx);
        proof {
            lemma_remove_keeps_wf(before, idx as int);
        }
        true
    }

    /// The ids of the deleted accounts whose grace window has closed.
    pub fn get_expired_deleted_users(&self, now: i64) -> (r: Vec<u128>)
        requires
            valid_time(now),
        ensures
            r@ == expired_ids(self@, now),
    {
        let mut out: Vec<u128> = Vec::new();
        let mut j: usize = 0;
        while j < self.accounts.len()
            invariant
                j <= self@.len(),
                valid_time(now),
                out@ == expired_ids(self@.subrange(0, j as int), now),
            decreases self@.len() - j,
        {
            assert(self@.subrange(0, j + 1).drop_last() =~= self@.subrange(0, j as int));
            if purge_is_due(&self.accounts[j], now) {
                out.push(self.accounts[j].id);
            }
            j += 1;
        }
        assert(self@.subrange(0, j as int) =~= self@);
        out
    }

    /// Erases every deleted account whose grace window has closed; returns
    /// how many were erased.
    pub fn purge_expired_deleted_users(&mut self, now: i64) -> (r: usize)
        requires
            old(self).wf(),
            valid_time(now),
        ensures
            final(self).wf(),
            final(self)@ == kept(old(self)@, now),
            r == old(self)@.len() - kept(old(self)@, now).len(),
    {
        let ghost before = self@;
        let start_len = self.accounts.len();
        let mut i = self.accounts.len();
        assert(before.subrange(i as int, before.len() as int) =~= Seq::<Account>::empty());
        assert(self@ =~= before.subrange(0, i as int) + kept(
            before.subrange(i as int, before.len() as int),
            now,
        ));
        while i > 0
            invariant
                i <= before.len(),
                valid_time(now),
                self.wf(),
                self@ == before.subrange(0, i as int) + kept(
                    before.subrange(i as int, before.len() as int),
                    now,
                ),
            decreases i,
        {
            let ghost tail = before.subrange(i as int, before.len() as int);
            let ghost longer = before.subrange(i - 1, before.len() as int);
            assert(longer.drop_first() =~= tail);
            assert(longer[0] == before[i - 1]);
            assert(self@[i - 1] == before[i - 1]);
            if purge_is_due(&self.accounts[i - 1], now) {
                let ghost prev = self@;
                self.accounts.remove(i - 1);
                proof {
                    lemma_remove_keeps_wf(prev, i - 1);
                }
                assert(self@ =~= before.subrange(0, i - 1) + kept(longer, now));
            } else {
                assert(self@ =~= before.subrange(0, i - 1) + kept(longer, now));
            }
            i -= 1;
        }
        assert(self@ =~= kept(before, now));
        proof {
            lemma_kept_len(before, now);
        }
        start_len - self.accounts.len()
    }

    /// Whether the account holds a team that still has other active members.
    pub fn is_team_admin(&self, id: u128) -> (r: bool)
        ensures
            r == team_admin(self@, id),
    {
        proof {
            lemma_position(self@, id);
        }
        let idx = match self.find(id) {
            None => return false,
            Some(i) => i,
        };
        if self.accounts[idx].account_type != AccountType::Team {
            return false;
        }
        let team = match self.accounts[idx].team_id {
            None => return false,
            Some(t) => t,
        };
        let mut k: usize = 0;
        while k < self.accounts.len()
            invariant
                k <= self@.len(),
                idx as int == position(self@, id),
                0 <= idx < self@.len(),
                self@[idx as int].account_type == AccountType::Team,
                self@[idx as int].team_id == Some(team),
                forall|m: int|
                    0 <= m < k ==> !((#[trigger] self@[m]).team_id == Some(team) && self@[m].id != id
                        && self@[m].account_status == AccountStatus::Active),
            decreases self@.len() - k,
        {
            let other = &self.accounts[k];
            let same_team = match other.team_id {
                Some(t) => t == team,
                None => false,
            };
            if same_team && other.id != id && other.account_status
                == AccountStatus::Active {
                assert(self@[k as int] == *other);
                assert(has_active_teammate(self@, id, team));
                return true;
            }
            k += 1;
        }
        false
    }

    /// Writes the billing provider's status into the account; false when
    /// there is no such account.
    pub fn update_user_subscription(&mut self, id: u128, st: &SubscriptionStatus, now: i64) -> (r: bool)
        requires
            old(self).wf(),
        ensures
            final(self).wf(),
            match lookup(old(self)@, id) {
                None => !r && final(self)@ == old(self)@,
                Some(a) => r && final(self)@ == put(old(self)@, id, synced(a, *st, now)),
            },
    {
        proof {
            lemma_position(self@, id);
        }
        let idx = match self.find(id) {
            None => return false,
            Some(i) => i,
        };
        let ghost before = self@;
        apply_subscription_status(&mut self.accounts[idx], st, now);
        proof {
            self.lemma_update_keeps_wf(before, idx as int);
        }
        true
    }

    /// Cancels the subscription of the account; true when it exists.
    pub fn cancel_subscription(&mut self, id: u128, now: i64) -> (r: bool)
        requires
            old(self).wf(),
        ensures
            final(self).wf(),
            match lookup(old(self)@, id) {
                None => !r && final(self)@ == old(self)@,
                Some(a) => r && final(self)@ == put(old(self)@, id, subscription_cancelled(a, now)),
            },
    {
        proof {
            lemma_position(self@, id);
        }
        let idx = match self.find(id) {
            None => return false,
            Some(i) => i,
        };
        let ghost before = self@;
        crate::lifecycle::cancel_subscription(&mut self.accounts[idx], now);
        proof {
            self.lemma_update_keeps_wf(before, idx as int);
        }
        true
    }

    /// A user's request to delete their account. Refused for an unknown or
    /// inactive account, without confirmation, and for the holder of a team
    /// with other active members; otherwise the account is soft-deleted and
    /// the end of its grace window returned.
    pub fn request_delete_account(&mut self, id: u128, confirmation: bool, now: i64) -> (r: Result<
        i64,
        DeleteError,
    >)
        requires
            old(self).wf(),
            valid_time(now),
        ensures
            final(self).wf(),
            match lookup(old(self)@, id) {
                Some(a) if a.account_status == AccountStatus::Active => if !confirmation {
                    r == Err::<i64, DeleteError>(DeleteError::ConfirmationRequired) && final(self)@
                        == old(self)@
                } else if team_admin(old(self)@, id) {
                    r == Err::<i64, DeleteError>(DeleteError::TeamAdmin) && final(self)@ == old(self)@
                } else {
                    r == Ok::<i64, DeleteError>((now + GRACE_SECS) as i64) && final(self)@ == put(
                        old(self)@,
                        id,
                        soft_deleted(a, now),
                    )
                },
                _ => r == Err::<i64, DeleteError>(DeleteError::NotFound) && final(self)@ == old(self)@,
            },
    {
        proof {
            lemma_position(self@, id);
        }
        let idx = match self.find(id) {
            None => return Err(DeleteError::NotFound),
            Some(i) => i,
        };
        if self.accounts[idx].account_status != AccountStatus::Active {
            return Err(DeleteError::NotFound);
        }
        if !confirmation {
            return Err(DeleteError::ConfirmationRequired);
        }
        if self.is_team_admin(id) {
            return Err(DeleteError::TeamAdmin);
        }
        let ghost before = self@;
        let end = soft_delete(&mut self.accounts[idx], now);
        proof {
            self.lemma_update_keeps_wf(before, idx as int);
        }
        Ok(end)
    }
}

/// Removing a record keeps the table wf.
pub proof fn lemma_remove_keeps_wf(s: Seq<Account>, p: int)
    requires
        records_wf(s),
        0 <= p < s.len(),
    ensures
        records_wf(s.remove(p)),
{
    let t = s.remove(p);
    assert forall|i: int| 0 <= i < t.len() implies (#[trigger] t[i]).wf() by {
        if i < p {
            assert(t[i] == s[i]);
        } else {
            assert(t[i] == s[i + 1]);
        }
    }
    assert forall|i: int, j: int|
        0 <= i < t.len() && 0 <= j < t.len() && i != j implies t[i].id != t[j].id by {
        let a = if i < p { i } else { i + 1 };
        let b = if j < p { j } else { j + 1 };
        assert(t[i] == s[a]);
        assert(t[j] == s[b]);
    }
}

pub proof fn lemma_kept_len(s: Seq<Account>, now: i64)
    ensures
        kept(s, now).len() <= s.len(),
    decreases s.len(),
{
    if s.len() > 0 {
        lemma_kept_len(s.drop_first(), now);
    }
}

} // verus!
