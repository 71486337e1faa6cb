//! Laws of the market core, stated over the spec-level state transitions
//! that the executable operations' contracts are phrased in.

use crate::market::{
    bet_update, response_key, spec_read_status, spec_register, AccountId, Balance, Error,
    QuestionId, QuestionStorage, Status, Timestamp, UserResponseStorage,
};
use vstd::prelude::*;

verus! {

broadcast use vstd::array::group_array_axioms;

/// Registration is exclusive: once an identifier is taken, registering it
/// again fails with `QuestionAlreadyExists` and leaves the registry — in
/// particular the first registration's stored record — unchanged.
pub proof fn lemma_register_exclusive(
    questions: Map<Seq<u8>, QuestionStorage>,
    q1: QuestionStorage,
    q2: QuestionStorage,
)
    requires
        !questions.contains_key(q1.question_id@),
        q2.question_id@ == q1.question_id@,
    ensures
        ({
            let (qs1, r1) = spec_register(questions, q1);
            let (qs2, r2) = spec_register(qs1, q2);
            &&& r1 == Ok::<QuestionStorage, Error>(q1)
            &&& r2 == Err::<QuestionStorage, Error>(Error::QuestionAlreadyExists)
            &&& qs2 == qs1
            &&& qs2[q1.question_id@] == q1
        }),
{
}

/// The sum of the amounts of a sequence of bets.
pub open spec fn sum_amounts(bets: Seq<(bool, Balance)>) -> int
    decreases bets.len(),
{
    if bets.len() == 0 {
        0
    } else {
        sum_amounts(bets.drop_last()) + bets.last().1
    }
}

/// The position left by a sequence of admitted bets, each applied as
/// `bet_question` stores it.
pub open spec fn apply_bets(
    prior: Option<UserResponseStorage>,
    bets: Seq<(bool, Balance)>,
) -> Option<UserResponseStorage>
    decreases bets.len(),
{
    if bets.len() == 0 {
        prior
    } else {
        Some(bet_update(apply_bets(prior, bets.drop_last()), bets.last().0, bets.last().1))
    }
}

proof fn lemma_sum_amounts_nonneg(bets: Seq<(bool, Balance)>)
    ensures
        sum_amounts(bets) >= 0,
    decreases bets.len(),
{
    if bets.len() > 0 {
        lemma_sum_amounts_nonneg(bets.drop_last());
    }
}

/// Stake accumulates and the side is overwritten: a fresh position hit by
/// any non-empty sequence of admitted bets whose total fits the balance
/// type ends with stake exactly the sum of the amounts and side exactly
/// that of the last bet.
pub proof fn lemma_stake_accumulates(bets: Seq<(bool, Balance)>)
    requires
        bets.len() > 0,
        sum_amounts(bets) <= u128::MAX,
    ensures
        ({
            let p = apply_bets(None, bets);
            &&& p is Some
            &&& p->Some_0.betting_amount == sum_amounts(bets)
            &&& p->Some_0.response == bets.last().0
        }),
    decreases bets.len(),
{
    lemma_sum_amounts_nonneg(bets.drop_last());
    let prior = apply_bets(None, bets.drop_last());
    let last = bets.last();
    assert(apply_bets(None, bets) == Some(bet_update(prior, last.0, last.1)));
    if bets.len() == 1 {
        assert(bets.drop_last().len() == 0);
        assert(prior is None);
    } else {
        lemma_stake_accumulates(bets.drop_last());
        assert(prior->Some_0.betting_amount + last.1 == sum_amounts(bets));
    }
}

/// The lifecycle transition is one-way and idempotent: a status read past
/// the expiration boundary flips a running question to locking and reports
/// the pre-transition snapshot; any later read leaves the stored state
/// exactly as it is and reports the question as locking.
pub proof fn lemma_locking_is_permanent(
    questions: Map<Seq<u8>, QuestionStorage>,
    key: Seq<u8>,
    now1: Timestamp,
    now2: Timestamp,
)
    requires
        questions.contains_key(key),
        questions[key].status == Status::QuestionRunning,
        now1 > questions[key].question_expiration_time,
        now2 >= now1,
    ensures
        ({
            let (qs1, r1) = spec_read_status(questions, key, now1);
            let (qs2, r2) = spec_read_status(qs1, key, now2);
            &&& r1 == Ok::<QuestionStorage, Error>(questions[key])
            &&& qs1[key].status == Status::LockingPeriodStart
            &&& qs2 == qs1
            &&& r2 == Ok::<QuestionStorage, Error>(qs1[key])
            &&& r2->Ok_0.status == Status::LockingPeriodStart
        }),
{
    let (qs1, r1) = spec_read_status(questions, key, now1);
    let (qs2, r2) = spec_read_status(qs1, key, now2);
    assert(qs2 =~= qs1);
}

/// The composite ledger key is injective: both identifiers have fixed
/// width, so equal keys come only from equal user and question identifiers.
pub proof fn lemma_response_key_injective(
    user1: AccountId,
    question1: QuestionId,
    user2: AccountId,
    question2: QuestionId,
)
    requires
        response_key(user1, question1) == response_key(user2, question2),
    ensures
        user1@ == user2@,
        question1@ == question2@,
{
    let k = response_key(user1, question1);
    assert(user1@ =~= k.take(32));
    assert(user2@ =~= k.take(32));
    assert(question1@ =~= k.skip(32));
    assert(question2@ =~= k.skip(32));
}

} // verus!
