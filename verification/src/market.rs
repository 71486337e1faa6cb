//! The prediction-market core: question registry and position ledger.
//!
//! Every operation is transactional: it either completes, with all of its
//! writes visible together, or fails with a typed error and writes nothing.
//! Readings that only the hosting environment can supply — the current time
//! and the value actually transferred with a call — arrive as arguments, and
//! the actions the host must perform on success (a currency transfer, an
//! event to emit) are returned as plain values.

use crate::store::KeyValueStore;
use vstd::prelude::*;

verus! {

broadcast use vstd::array::group_array_axioms;

/// An opaque fixed-width user identifier, supplied by the environment.
pub type AccountId = [u8; 32];

/// An opaque fixed-width question identifier, externally supplied and
/// assumed collision-free.
pub type QuestionId = [u8; 32];

/// The single balance unit in which stakes are accounted.
pub type Balance = u128;

/// A point in time, in seconds.
pub type Timestamp = u64;

/// Where a question stands in its lifecycle: running until the first status
/// read at or past its expiration, locking from then on, never reverting.
#[derive(Clone, Copy, PartialEq, Eq, Structural, Debug)]
pub enum Status {
    QuestionRunning,
    LockingPeriodStart,
}

/// Why an operation was refused.
#[derive(Clone, Copy, PartialEq, Eq, Structural, Debug)]
pub enum Error {
    /// A time-window or payment-amount condition was violated.
    InvalidCredentials,
    /// A question with the same identifier is already registered.
    QuestionAlreadyExists,
    /// The referenced question or position is absent.
    QuestionDoesNotExists,
}

/// A user's position on one question: the side backed and the stake
/// accumulated so far.
#[derive(Clone, Copy, PartialEq, Eq, Structural, Debug)]
pub struct UserResponseStorage {
    pub response: bool,
    pub betting_amount: Balance,
}

/// A registered question's stored record.
#[derive(Clone, Copy, PartialEq, Eq, Debug)]
pub struct QuestionStorage {
    pub question_id: QuestionId,
    pub question_creation_time: Timestamp,
    pub question_expiration_time: Timestamp,
    pub question_locking_period: Timestamp,
    pub status: Status,
}

/// The event a successful bet asks the host's transport to emit.
#[derive(Clone, Copy, PartialEq, Eq, Debug)]
pub struct EmitResponse {
    pub user_id: AccountId,
    pub question_id: QuestionId,
    pub user_response: bool,
    pub betting_amount: Balance,
}

/// The ledger's key for a position: the user identifier followed by the
/// question identifier. Both inputs have fixed width, so the concatenation
/// is injective.
pub open spec fn response_key(user_id: AccountId, question_id: QuestionId) -> Seq<u8> {
    user_id@ + question_id@
}

/// The position bound to `key`, if one was ever staked.
pub open spec fn prior_position(
    responses: Map<Seq<u8>, UserResponseStorage>,
    key: Seq<u8>,
) -> Option<UserResponseStorage> {
    if responses.contains_key(key) {
        Some(responses[key])
    } else {
        None
    }
}

/// Whether a bet is admitted: placed at or before the question's expiration,
/// paid for exactly, and free of overflow in the accumulated stake.
pub open spec fn bet_admissible(
    expiration: Timestamp,
    now: Timestamp,
    amount: Balance,
    paid_amount: Balance,
    prior: Option<UserResponseStorage>,
) -> bool {
    &&& now <= expiration
    &&& paid_amount == amount
    &&& (prior matches Some(p) ==> p.betting_amount + amount <= u128::MAX)
}

/// The position an admitted bet stores: stake added to any prior stake, and
/// the side overwritten with the newly supplied one.
pub open spec fn bet_update(
    prior: Option<UserResponseStorage>,
    side: bool,
    amount: Balance,
) -> UserResponseStorage {
    match prior {
        Some(p) => UserResponseStorage {
            response: side,
            betting_amount: (p.betting_amount + amount) as Balance,
        },
        None => UserResponseStorage { response: side, betting_amount: amount },
    }
}

/// The record `register_question` stores for fresh arguments.
pub open spec fn new_question(
    question_id: QuestionId,
    question_creation_time: Timestamp,
    question_expiration_time: Timestamp,
    question_locking_period: Timestamp,
) -> QuestionStorage {
    QuestionStorage {
        question_id,
        question_creation_time,
        question_expiration_time,
        question_locking_period,
        status: Status::QuestionRunning,
    }
}

/// Registration: exclusive on the question identifier; a duplicate leaves
/// the registry untouched.
pub open spec fn spec_register(
    questions: Map<Seq<u8>, QuestionStorage>,
    q: QuestionStorage,
) -> (Map<Seq<u8>, QuestionStorage>, Result<QuestionStorage, Error>) {
    if questions.contains_key(q.question_id@) {
        (questions, Err(Error::QuestionAlreadyExists))
    } else {
        (questions.insert(q.question_id@, q), Ok(q))
    }
}

/// The stored record after a status read at time `now`: flipped to locking
/// once `now` has passed the expiration boundary, unchanged before that.
pub open spec fn status_after_read(q: QuestionStorage, now: Timestamp) -> QuestionStorage {
    if now > q.question_expiration_time {
        QuestionStorage {
            question_id: q.question_id,
            question_creation_time: q.question_creation_time,
            question_expiration_time: q.question_expiration_time,
            question_locking_period: q.question_locking_period,
            status: Status::LockingPeriodStart,
        }
    } else {
        q
    }
}

/// A status read: reports the pre-transition snapshot and stores the
/// post-transition record.
pub open spec fn spec_read_status(
    questions: Map<Seq<u8>, QuestionStorage>,
    key: Seq<u8>,
    now: Timestamp,
) -> (Map<Seq<u8>, QuestionStorage>, Result<QuestionStorage, Error>) {
    if !questions.contains_key(key) {
        (questions, Err(Error::QuestionDoesNotExists))
    } else {
        let q = questions[key];
        if now > q.question_expiration_time {
            (questions.insert(key, status_after_read(q, now)), Ok(q))
        } else {
            (questions, Ok(q))
        }
    }
}

/// Normalizes the environment's millisecond reading to the seconds this
/// core gates on.
pub fn timestamp_to_seconds(millis: u64) -> (r: Timestamp)
    ensures
        r == millis / 1000,
{
    millis / 1000
}

/// Appends the bytes of a fixed-width identifier to `dst`.
fn push_id_bytes(dst: &mut Vec<u8>, src: &[u8; 32])
    ensures
        final(dst)@ == old(dst)@ + src@,
{
    let mut i: usize = 0;
    while i < 32
        invariant
            i <= 32,
            dst@ == old(dst)@ + src@.take(i as int),
        decreases 32 - i,
    {
        proof {
            assert(src@.take(i + 1) =~= src@.take(i as int).push(src@[i as int]));
        }
        dst.push(src[i]);
        i += 1;
    }
    proof {
        assert(src@.take(32) =~= src@);
    }
}

/// The registry key for a question identifier: its bytes.
fn question_key_bytes(question_id: &QuestionId) -> (r: Vec<u8>)
    ensures
        r@ == question_id@,
{
    let mut bytes: Vec<u8> = Vec::new();
    push_id_bytes(&mut bytes, question_id);
    proof {
        assert(Seq::<u8>::empty() + question_id@ =~= question_id@);
    }
    bytes
}

/// The market's whole state: the question registry and the position ledger,
/// two independent mappings exclusively owned by the core.
pub struct PolymarketStore {
    user_response_mapping: KeyValueStore<UserResponseStorage>,
    question_info: KeyValueStore<QuestionStorage>,
}

impl PolymarketStore {
    /// The registry's abstract state: question-identifier bytes to record.
    pub closed spec fn questions(&self) -> Map<Seq<u8>, QuestionStorage> {
        self.question_info@
    }

    /// The ledger's abstract state: composite key bytes to position.
    pub closed spec fn responses(&self) -> Map<Seq<u8>, UserResponseStorage> {
        self.user_response_mapping@
    }

    /// A market with no questions and no positions.
    pub fn new_() -> (s: Self)
        ensures
            s.questions() == Map::<Seq<u8>, QuestionStorage>::empty(),
            s.responses() == Map::<Seq<u8>, UserResponseStorage>::empty(),
    {
        PolymarketStore {
            user_response_mapping: KeyValueStore::new(),
            question_info: KeyValueStore::new(),
        }
    }

    /// Registers a betting question. Fails with `QuestionAlreadyExists`, and
    /// writes nothing, if the identifier is already registered; otherwise
    /// stores the question as running and returns the stored record.
    pub fn register_question(
        &mut self,
        question_id: QuestionId,
        question_creation_time: Timestamp,
        question_expiration_time: Timestamp,
        question_locking_period: Timestamp,
    ) -> (r: Result<QuestionStorage, Error>)
        ensures
            final(self).responses() == old(self).responses(),
            ({
                let q = new_question(
                    question_id,
                    question_creation_time,
                    question_expiration_time,
                    question_locking_period,
                );
                let (qs, res) = spec_register(old(self).questions(), q);
                final(self).questions() == qs && r == res
            }),
    {
        let key = question_key_bytes(&question_id);
        if !self.question_info.contains(&key) {
            let question = QuestionStorage {
                question_id,
                question_creation_time,
                question_expiration_time,
                question_locking_period,
                status: Status::QuestionRunning,
            };
            self.question_info.insert(key, question);
            Ok(question)
        } else {
            Err(Error::QuestionAlreadyExists)
        }
    }

    /// Places a bet of `betting_amount` on `user_response`, `paid_amount`
    /// being the value the environment actually received with the call and
    /// `now` its clock reading in seconds.
    ///
    /// Fails with `QuestionDoesNotExists`, writing nothing, if the question
    /// is not registered. Fails with `InvalidCredentials`, writing nothing,
    /// if the question has expired, the payment does not match the declared
    /// stake, or the accumulated stake would overflow. Otherwise stores the
    /// accumulated position — stake added, side overwritten — and returns
    /// the event the host is to emit, carrying the new total stake.
    pub fn bet_question(
        &mut self,
        user_id: AccountId,
        question_id: QuestionId,
        user_response: bool,
        betting_amount: Balance,
        paid_amount: Balance,
        now: Timestamp,
    ) -> (r: Result<EmitResponse, Error>)
        ensures
            final(self).questions() == old(self).questions(),
            !old(self).questions().contains_key(question_id@) ==> r == Err::<
                EmitResponse,
                Error,
            >(Error::QuestionDoesNotExists) && final(self).responses() == old(self).responses(),
            old(self).questions().contains_key(question_id@) ==> ({
                let expiration = old(self).questions()[question_id@].question_expiration_time;
                let key = response_key(user_id, question_id);
                let prior = prior_position(old(self).responses(), key);
                if bet_admissible(expiration, now, betting_amount, paid_amount, prior) {
                    let stored = bet_update(prior, user_response, betting_amount);
                    &&& final(self).responses() == old(self).responses().insert(key, stored)
                    &&& r == Ok::<EmitResponse, Error>(
                        EmitResponse {
                            user_id,
                            question_id,
                            user_response,
                            betting_amount: stored.betting_amount,
                        },
                    )
                } else {
                    &&& r == Err::<EmitResponse, Error>(Error::InvalidCredentials)
                    &&& final(self).responses() == old(self).responses()
                }
            }),
    {
        let question_key = question_key_bytes(&question_id);
        let question_expiration_time: Timestamp = match self.question_info.get(&question_key) {
            None => {
                return Err(Error::QuestionDoesNotExists);
            },
            Some(q) => q.question_expiration_time,
        };
        let new_id = self.concatenate_account_id_and_hash(&user_id, &question_id);
        let prior: Option<UserResponseStorage> = match self.user_response_mapping.get(&new_id) {
            Some(p) => Some(*p),
            None => None,
        };
        if now <= question_expiration_time && paid_amount == betting_amount {
            match prior {
                Some(p) => {
                    if betting_amount <= u128::MAX - p.betting_amount {
                        let new_betting_amount = p.betting_amount + betting_amount;
                        let response_store = UserResponseStorage {
                            response: user_response,
                            betting_amount: new_betting_amount,
                        };
                        self.user_response_mapping.insert(new_id, response_store);
                        Ok(
                            EmitResponse {
                                user_id,
                                question_id,
                                user_response,
                                betting_amount: new_betting_amount,
                            },
                        )
                    } else {
                        Err(Error::InvalidCredentials)
                    }
                },
                None => {
                    let response_store = UserResponseStorage {
                        response: user_response,
                        betting_amount,
                    };
                    self.user_response_mapping.insert(new_id, response_store);
                    Ok(
                        EmitResponse {
                            user_id,
                            question_id,
                            user_response,
                            betting_amount,
                        },
                    )
                },
            }
        } else {
            Err(Error::InvalidCredentials)
        }
    }

    /// Withdraws the whole of a user's stake on a question while the
    /// question is still open.
    ///
    /// Fails with `QuestionDoesNotExists`, writing nothing, if the question
    /// or the position is absent, and with `InvalidCredentials`, writing
    /// nothing, once the question has expired — an expired stake stays in
    /// place. Otherwise zeroes the stored stake, leaves the side unchanged,
    /// and returns the amount the host is to transfer back to the user.
    pub fn withdraw_bet(&mut self, user_id: AccountId, question_id: QuestionId, now: Timestamp) -> (r:
        Result<Balance, Error>)
        ensures
            final(self).questions() == old(self).questions(),
            !old(self).questions().contains_key(question_id@) ==> r == Err::<Balance, Error>(
                Error::QuestionDoesNotExists,
            ) && final(self).responses() == old(self).responses(),
            old(self).questions().contains_key(question_id@) ==> ({
                let expiration = old(self).questions()[question_id@].question_expiration_time;
                let key = response_key(user_id, question_id);
                if !old(self).responses().contains_key(key) {
                    &&& r == Err::<Balance, Error>(Error::QuestionDoesNotExists)
                    &&& final(self).responses() == old(self).responses()
                } else {
                    let p = old(self).responses()[key];
                    if now <= expiration {
                        &&& r == Ok::<Balance, Error>(p.betting_amount)
                        &&& final(self).responses() == old(self).responses().insert(
                            key,
                            (UserResponseStorage { response: p.response, betting_amount: 0 }),
                        )
                    } else {
                        &&& r == Err::<Balance, Error>(Error::InvalidCredentials)
                        &&& final(self).responses() == old(self).responses()
                    }
                }
            }),
    {
        let question_key = question_key_bytes(&question_id);
        let question_expiration_time: Timestamp = match self.question_info.get(&question_key) {
            None => {
                return Err(Error::QuestionDoesNotExists);
            },
            Some(q) => q.question_expiration_time,
        };
        let new_id = self.concatenate_account_id_and_hash(&user_id, &question_id);
        let position: UserResponseStorage = match self.user_response_mapping.get(&new_id) {
            None => {
                return Err(Error::QuestionDoesNotExists);
            },
            Some(p) => *p,
        };
        if now <= question_expiration_time {
            let response_store = UserResponseStorage {
                response: position.response,
                betting_amount: 0,
            };
            self.user_response_mapping.insert(new_id, response_store);
            Ok(position.betting_amount)
        } else {
            Err(Error::InvalidCredentials)
        }
    }

    /// Reads a user's position on a question. Fails with
    /// `QuestionDoesNotExists` if none was ever staked. No side effects.
    pub fn read_user_response(&self, user_id: AccountId, question_id: QuestionId) -> (r: Result<
        UserResponseStorage,
        Error,
    >)
        ensures
            ({
                let key = response_key(user_id, question_id);
                if self.responses().contains_key(key) {
                    r == Ok::<UserResponseStorage, Error>(self.responses()[key])
                } else {
                    r == Err::<UserResponseStorage, Error>(Error::QuestionDoesNotExists)
                }
            }),
    {
        let new_id = self.concatenate_account_id_and_hash(&user_id, &question_id);
        match self.user_response_mapping.get(&new_id) {
            Some(response) => Ok(*response),
            None => Err(Error::QuestionDoesNotExists),
        }
    }

    /// Reads a question's status at time `now`, firing the lazy lifecycle
    /// transition: past the expiration boundary the stored status flips to
    /// `LockingPeriodStart` — idempotently, never reverting — while the
    /// caller is handed the pre-transition snapshot, so a first read past
    /// the boundary still reports the question as it stood. Fails with
    /// `QuestionDoesNotExists` if the identifier is not registered.
    pub fn read_question_status(&mut self, question_id: QuestionId, now: Timestamp) -> (r: Result<
        QuestionStorage,
        Error,
    >)
        ensures
            final(self).responses() == old(self).responses(),
            ({
                let (qs, res) = spec_read_status(old(self).questions(), question_id@, now);
                final(self).questions() == qs && r == res
            }),
    {
        let question_key = question_key_bytes(&question_id);
        let stored: QuestionStorage = match self.question_info.get(&question_key) {
            None => {
                return Err(Error::QuestionDoesNotExists);
            },
            Some(q) => *q,
        };
        if now > stored.question_expiration_time {
            let question_store = QuestionStorage {
                question_id: stored.question_id,
                question_creation_time: stored.question_creation_time,
                question_expiration_time: stored.question_expiration_time,
                question_locking_period: stored.question_locking_period,
                status: Status::LockingPeriodStart,
            };
            self.question_info.insert(question_key, question_store);
            Ok(stored)
        } else {
            Ok(stored)
        }
    }

    /// The ledger's composite key: the user identifier's bytes followed by
    /// the question identifier's bytes.
    pub fn concatenate_account_id_and_hash(&self, account_id: &AccountId, hash: &QuestionId) -> (r:
        Vec<u8>)
        ensures
            r@ == response_key(*account_id, *hash),
    {
        let mut concatenated: Vec<u8> = Vec::new();
        push_id_bytes(&mut concatenated, account_id);
        push_id_bytes(&mut concatenated, hash);
        proof {
            assert(Seq::<u8>::empty() + account_id@ =~= account_id@);
        }
        concatenated
    }
}

} // verus!
