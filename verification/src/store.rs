//! The subscriber store: persisted subscriber records and their
//! confirmation tokens.
//!
//! A record is created with status `PendingConfirmation` and is mutated
//! exactly one way, to `Confirmed`; it is never deleted. Tokens are
//! write-once, unique by construction, and each maps to exactly one
//! subscriber. The store keeps the data of the relational schema
//! (`subscriptions` and `subscription_tokens`) as plain values, so every
//! operation carries an exact contract.

use crate::domain::NewSubscriber;
use crate::random::random_u128;
use vstd::prelude::*;

verus! {

/// Lifecycle state of a subscriber record.
#[derive(Clone, Copy, PartialEq, Eq, Structural, Debug)]
pub enum SubscriberStatus {
    PendingConfirmation,
    Confirmed,
}

/// Failure of a persistence operation: `Conflict` for a uniqueness
/// violation (a token stored twice), `Unavailable` for a connection or
/// query failure of a backing store.
#[derive(Clone, Copy, PartialEq, Eq, Structural, Debug)]
pub enum StoreError {
    Conflict,
    Unavailable,
}

/// One row of `subscriptions`.
pub struct SubscriberRecord {
    pub id: u128,
    pub email: String,
    pub name: String,
    pub subscribed_at: i64,
    pub status: SubscriberStatus,
}

/// One row of `subscription_tokens`.
pub struct TokenRecord {
    pub subscription_token: String,
    pub subscriber_id: u128,
}

pub ghost struct SubscriberRecordView {
    pub id: u128,
    pub email: Seq<char>,
    pub name: Seq<char>,
    pub subscribed_at: i64,
    pub status: SubscriberStatus,
}

pub ghost struct TokenRecordView {
    pub subscription_token: Seq<char>,
    pub subscriber_id: u128,
}

pub ghost struct StoreView {
    pub subscribers: Seq<SubscriberRecordView>,
    pub tokens: Seq<TokenRecordView>,
}

impl View for SubscriberRecord {
    type V = SubscriberRecordView;

    open spec fn view(&self) -> SubscriberRecordView {
        SubscriberRecordView {
            id: self.id,
            email: self.email@,
            name: self.name@,
            subscribed_at: self.subscribed_at,
            status: self.status,
        }
    }
}

impl View for TokenRecord {
    type V = TokenRecordView;

    open spec fn view(&self) -> TokenRecordView {
        TokenRecordView {
            subscription_token: self.subscription_token@,
            subscriber_id: self.subscriber_id,
        }
    }
}

/// No token string occurs twice.
pub open spec fn tokens_unique(tokens: Seq<TokenRecordView>) -> bool {
    forall|i: int, j: int|
        0 <= i < j < tokens.len() ==> tokens[i].subscription_token != tokens[j].subscription_token
}

/// Some token record carries the string `t`.
pub open spec fn has_token(tokens: Seq<TokenRecordView>, t: Seq<char>) -> bool {
    exists|i: int| 0 <= i < tokens.len() && tokens[i].subscription_token == t
}

/// The confirmation transition on one record: a record with the given id
/// moves to `Confirmed`, every other record is untouched.
pub open spec fn spec_confirm_record(
    r: SubscriberRecordView,
    id: u128,
) -> SubscriberRecordView {
    if r.id == id {
        SubscriberRecordView { status: SubscriberStatus::Confirmed, ..r }
    } else {
        r
    }
}

/// The confirmation transition on the whole table.
pub open spec fn spec_confirm(subs: Seq<SubscriberRecordView>, id: u128) -> Seq<
    SubscriberRecordView,
> {
    subs.map_values(|r: SubscriberRecordView| spec_confirm_record(r, id))
}

/// In-memory subscriber store.
pub struct SubscriberStore {
    subscribers: Vec<SubscriberRecord>,
    tokens: Vec<TokenRecord>,
}

impl View for SubscriberStore {
    type V = StoreView;

    closed spec fn view(&self) -> StoreView {
        StoreView {
            subscribers: Seq::new(self.subscribers@.len(), |i: int| self.subscribers@[i]@),
            tokens: Seq::new(self.tokens@.len(), |i: int| self.tokens@[i]@),
        }
    }
}

/// Relies on `chrono::Utc::now` and `DateTime::timestamp`: the current UTC
/// time as whole seconds since the Unix epoch. The result depends on the
/// machine's clock, so nothing is promised of it.
#[verifier::external_body]
fn now_timestamp() -> i64 {
    chrono::Utc::now().timestamp()
}

impl SubscriberStore {
    /// Token strings never repeat.
    pub open spec fn wf(&self) -> bool {
        tokens_unique(self@.tokens)
    }

    pub fn new() -> (r: SubscriberStore)
        ensures
            r.wf(),
            r@.subscribers =~= Seq::<SubscriberRecordView>::empty(),
            r@.tokens =~= Seq::<TokenRecordView>::empty(),
    {
        SubscriberStore { subscribers: Vec::new(), tokens: Vec::new() }
    }

    /// Inserts a new subscriber with a fresh random id, the current time
    /// and status `PendingConfirmation`, and returns the id. Every
    /// existing row, and the token table, is untouched.
    pub fn insert_subscriber(&mut self, new_subscriber: &NewSubscriber) -> (id: u128)
        requires
            old(self).wf(),
        ensures
            final(self).wf(),
            final(self)@.tokens == old(self)@.tokens,
            final(self)@.subscribers.len() == old(self)@.subscribers.len() + 1,
            forall|i: int|
                0 <= i < old(self)@.subscribers.len() ==> final(self)@.subscribers[i] == old(
                    self,
                )@.subscribers[i],
            final(self)@.subscribers.last().id == id,
            final(self)@.subscribers.last().email == new_subscriber.email@,
            final(self)@.subscribers.last().name == new_subscriber.name@,
            final(self)@.subscribers.last().status is PendingConfirmation,
    {
        let id = random_u128();
        let record = SubscriberRecord {
            id,
            email: String::from_str(new_subscriber.email.as_str()),
            name: String::from_str(new_subscriber.name.as_str()),
            subscribed_at: now_timestamp(),
            status: SubscriberStatus::PendingConfirmation,
        };
        self.subscribers.push(record);
        proof {
            assert(final(self)@.tokens =~= old(self)@.tokens);
        }
        id
    }

    /// Persists a token-to-subscriber mapping. Fails with `Conflict`, and
    /// changes nothing, exactly when the token string is already present.
    pub fn store_token(&mut self, subscriber_id: u128, subscription_token: String) -> (r: Result<
        (),
        StoreError,
    >)
        requires
            old(self).wf(),
        ensures
            final(self).wf(),
            final(self)@.subscribers == old(self)@.subscribers,
            r is Ok <==> !has_token(old(self)@.tokens, subscription_token@),
            r is Ok ==> final(self)@.tokens.len() == old(self)@.tokens.len() + 1
                && final(self)@.tokens.last().subscription_token == subscription_token@
                && final(self)@.tokens.last().subscriber_id == subscriber_id,
            r is Ok ==> forall|i: int|
                0 <= i < old(self)@.tokens.len() ==> final(self)@.tokens[i] == old(self)@.tokens[i],
            r is Err ==> final(self)@.tokens == old(self)@.tokens && r->Err_0 is Conflict,
    {
        let n = self.tokens.len();
        let mut i: usize = 0;
        while i < n
            invariant
                0 <= i <= n,
                n == self@.tokens.len(),
                old(self).wf(),
                *self == *old(self),
                forall|j: int| 0 <= j < i ==> self@.tokens[j].subscription_token != subscription_token@,
            decreases n - i,
        {
            if self.tokens[i].subscription_token.eq(&subscription_token) {
                proof {
                    assert(self@.tokens[i as int].subscription_token == subscription_token@);
                }
                return Err(StoreError::Conflict);
            }
            i += 1;
        }
        self.tokens.push(TokenRecord { subscription_token, subscriber_id });
        proof {
            assert(self@.subscribers =~= old(self)@.subscribers);
            assert(self@.tokens.len() == old(self)@.tokens.len() + 1);
            assert forall|k: int| 0 <= k < old(self)@.tokens.len() implies self@.tokens[k] == old(
                self,
            )@.tokens[k] by {
                assert(self.tokens@[k] == old(self).tokens@[k]);
            }
            assert(self@.tokens.last().subscription_token == subscription_token@);
            let toks = self@.tokens;
            assert forall|a: int, b: int|
                0 <= a < b < toks.len() implies toks[a].subscription_token
                != toks[b].subscription_token by {
                if b == toks.len() - 1 {
                    assert(toks[a] == old(self)@.tokens[a]);
                } else {
                    assert(toks[a] == old(self)@.tokens[a]);
                    assert(toks[b] == old(self)@.tokens[b]);
                }
            }
        }
        Ok(())
    }

    /// Exact-match token lookup: `Some(id)` exactly when a token record
    /// carries the string, `None` when the token is unknown.
    pub fn get_subscriber_id_from_token(&self, subscription_token: &String) -> (r: Option<u128>)
        ensures
            match r {
                Some(id) => exists|i: int|
                    0 <= i < self@.tokens.len() && self@.tokens[i].subscription_token
                        == subscription_token@ && self@.tokens[i].subscriber_id == id,
                None => !has_token(self@.tokens, subscription_token@),
            },
    {
        let n = self.tokens.len();
        let mut i: usize = 0;
        while i < n
            invariant
                0 <= i <= n,
                n == self@.tokens.len(),
                forall|j: int| 0 <= j < i ==> self@.tokens[j].subscription_token != subscription_token@,
            decreases n - i,
        {
            if self.tokens[i].subscription_token.eq(subscription_token) {
                proof {
                    assert(self@.tokens[i as int].subscription_token == subscription_token@);
                }
                return Some(self.tokens[i].subscriber_id);
            }
            i += 1;
        }
        None
    }

    /// Marks every record with the given id as `Confirmed` and leaves the
    /// rest untouched. Confirming an already confirmed subscriber changes
    /// nothing, so the operation is idempotent.
    pub fn confirm_subscriber(&mut self, subscriber_id: u128)
        requires
            old(self).wf(),
        ensures
            final(self).wf(),
            final(self)@.tokens == old(self)@.tokens,
            final(self)@.subscribers =~= spec_confirm(old(self)@.subscribers, subscriber_id),
    {
        let n = self.subscribers.len();
        let ghost orig = self@.subscribers;
        let mut i: usize = 0;
        while i < n
            invariant
                0 <= i <= n,
                n == self@.subscribers.len(),
                orig == old(self)@.subscribers,
                self@.subscribers.len() == orig.len(),
                self@.tokens == old(self)@.tokens,
                self.wf(),
                forall|j: int|
                    0 <= j < i ==> #[trigger] self@.subscribers[j] == spec_confirm_record(
                        orig[j],
                        subscriber_id,
                    ),
                forall|j: int| i <= j < n ==> #[trigger] self@.subscribers[j] == orig[j],
            decreases n - i,
        {
            if self.subscribers[i].id == subscriber_id {
                let ghost prev = self@.subscribers;
                let ghost prev_vec = self.subscribers@;
                let updated = SubscriberRecord {
                    id: self.subscribers[i].id,
                    email: self.subscribers[i].email.clone(),
                    name: self.subscribers[i].name.clone(),
                    subscribed_at: self.subscribers[i].subscribed_at,
                    status: SubscriberStatus::Confirmed,
                };
                self.subscribers[i] = updated;
                proof {
                    assert(self@.subscribers[i as int] == updated@);
                    assert(updated@ == spec_confirm_record(orig[i as int], subscriber_id));
                    assert forall|j: int|
                        0 <= j < prev.len() && j != i implies #[trigger] self@.subscribers[j]
                        == prev[j] by {
                        assert(self.subscribers@[j] == prev_vec[j]);
                        assert(self@.subscribers[j] == self.subscribers@[j]@);
                        assert(prev[j] == prev_vec[j]@);
                    }
                }
            } else {
                proof {
                    assert(self@.subscribers[i as int] == orig[i as int]);
                    assert(self@.subscribers[i as int].id != subscriber_id);
                }
            }
            i += 1;
        }
        proof {
            assert forall|j: int| 0 <= j < orig.len() implies self@.subscribers[j] == spec_confirm(
                orig,
                subscriber_id,
            )[j] by {
                assert(spec_confirm(orig, subscriber_id)[j] == spec_confirm_record(
                    orig[j],
                    subscriber_id,
                ));
            }
            assert(self@.subscribers =~= spec_confirm(old(self)@.subscribers, subscriber_id));
        }
    }

    pub fn subscriber_count(&self) -> (n: usize)
        ensures
            n == self@.subscribers.len(),
    {
        self.subscribers.len()
    }

    pub fn subscriber_at(&self, i: usize) -> (r: &SubscriberRecord)
        requires
            i < self@.subscribers.len(),
        ensures
            r@ == self@.subscribers[i as int],
    {
        &self.subscribers[i]
    }

    pub fn token_count(&self) -> (n: usize)
        ensures
            n == self@.tokens.len(),
    {
        self.tokens.len()
    }

    pub fn token_at(&self, i: usize) -> (r: &TokenRecord)
        requires
            i < self@.tokens.len(),
        ensures
            r@ == self@.tokens[i as int],
    {
        &self.tokens[i]
    }
}

/// Confirming twice is the same as confirming once: the confirmation
/// transition is idempotent on the subscriber table.
pub proof fn lemma_confirm_idempotent(subs: Seq<SubscriberRecordView>, id: u128)
    ensures
        spec_confirm(spec_confirm(subs, id), id) =~= spec_confirm(subs, id),
{
    assert forall|i: int| 0 <= i < subs.len() implies spec_confirm(spec_confirm(subs, id), id)[i]
        == spec_confirm(subs, id)[i] by {
        assert(spec_confirm(subs, id)[i] == spec_confirm_record(subs[i], id));
    }
}

/// The token issued at a successful intake confirms that intake's
/// subscriber: applying the confirmation transition with the id carried
/// by the newest record marks that record `Confirmed` and keeps the
/// table's length.
pub proof fn lemma_confirm_issued_token(subs: Seq<SubscriberRecordView>, id: u128)
    requires
        subs.len() > 0,
        subs.last().id == id,
    ensures
        spec_confirm(subs, id).len() == subs.len(),
        spec_confirm(subs, id).last().status is Confirmed,
{
    assert(spec_confirm(subs, id)[subs.len() - 1] == spec_confirm_record(subs.last(), id));
}

/// A confirmed record never leaves `Confirmed`: the status transition goes
/// one way only.
pub proof fn lemma_confirm_monotone(subs: Seq<SubscriberRecordView>, id: u128, i: int)
    requires
        0 <= i < subs.len(),
        subs[i].status is Confirmed,
    ensures
        spec_confirm(subs, id)[i].status is Confirmed,
{
}

} // verus!
