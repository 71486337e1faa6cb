use polymarket::market::{Error, PolymarketStore, Status};

fn id(b: u8) -> [u8; 32] {
    [b; 32]
}

#[test]
fn register_stores_running_question() {
    let mut m = PolymarketStore::new_();
    let q = m.register_question(id(1), 10, 1000, 50).unwrap();
    assert_eq!(q.question_id, id(1));
    assert_eq!(q.question_creation_time, 10);
    assert_eq!(q.question_expiration_time, 1000);
    assert_eq!(q.question_locking_period, 50);
    assert!(matches!(q.status, Status::QuestionRunning));
}

#[test]
fn register_twice_fails_and_keeps_first() {
    let mut m = PolymarketStore::new_();
    m.register_question(id(1), 10, 1000, 50).unwrap();
    let second = m.register_question(id(1), 99, 2222, 77);
    assert_eq!(second, Err(Error::QuestionAlreadyExists));
    let stored = m.read_question_status(id(1), 0).unwrap();
    assert_eq!(stored.question_creation_time, 10);
    assert_eq!(stored.question_expiration_time, 1000);
    assert_eq!(stored.question_locking_period, 50);
    assert!(matches!(stored.status, Status::QuestionRunning));
}

#[test]
fn bet_on_missing_question_fails() {
    let mut m = PolymarketStore::new_();
    let r = m.bet_question(id(9), id(1), true, 5, 5, 0);
    assert_eq!(r, Err(Error::QuestionDoesNotExists));
}

#[test]
fn bet_creates_position_and_emits_new_total() {
    let mut m = PolymarketStore::new_();
    m.register_question(id(1), 0, 1000, 50).unwrap();
    let event = m.bet_question(id(9), id(1), true, 50, 50, 500).unwrap();
    assert_eq!(event.user_id, id(9));
    assert_eq!(event.question_id, id(1));
    assert!(event.user_response);
    assert_eq!(event.betting_amount, 50);
    let pos = m.read_user_response(id(9), id(1)).unwrap();
    assert!(pos.response);
    assert_eq!(pos.betting_amount, 50);
}

#[test]
fn bets_accumulate_stake_and_last_side_wins() {
    let mut m = PolymarketStore::new_();
    m.register_question(id(1), 0, 1000, 50).unwrap();
    m.bet_question(id(9), id(1), true, 50, 50, 100).unwrap();
    m.bet_question(id(9), id(1), true, 25, 25, 200).unwrap();
    let event = m.bet_question(id(9), id(1), false, 30, 30, 300).unwrap();
    assert_eq!(event.betting_amount, 105);
    let pos = m.read_user_response(id(9), id(1)).unwrap();
    assert_eq!(pos.betting_amount, 105);
    assert!(!pos.response);
}

#[test]
fn bet_with_mismatched_payment_fails_and_writes_nothing() {
    let mut m = PolymarketStore::new_();
    m.register_question(id(1), 0, 1000, 50).unwrap();
    m.bet_question(id(9), id(1), true, 50, 50, 100).unwrap();
    // Underpaid, overpaid, and mismatched past the window: all refused.
    assert_eq!(m.bet_question(id(9), id(1), false, 30, 29, 200), Err(Error::InvalidCredentials));
    assert_eq!(m.bet_question(id(9), id(1), false, 30, 31, 200), Err(Error::InvalidCredentials));
    assert_eq!(m.bet_question(id(9), id(1), false, 30, 29, 2000), Err(Error::InvalidCredentials));
    let pos = m.read_user_response(id(9), id(1)).unwrap();
    assert_eq!(pos.betting_amount, 50);
    assert!(pos.response);
}

#[test]
fn bet_past_expiration_fails_and_stake_is_unchanged() {
    let mut m = PolymarketStore::new_();
    m.register_question(id(1), 0, 1000, 50).unwrap();
    m.bet_question(id(9), id(1), true, 50, 50, 100).unwrap();
    let late = m.bet_question(id(9), id(1), false, 30, 30, 1001);
    assert_eq!(late, Err(Error::InvalidCredentials));
    let pos = m.read_user_response(id(9), id(1)).unwrap();
    assert_eq!(pos.betting_amount, 50);
    assert!(pos.response);
}

#[test]
fn bet_at_expiration_boundary_is_still_accepted() {
    let mut m = PolymarketStore::new_();
    m.register_question(id(1), 0, 1000, 50).unwrap();
    let r = m.bet_question(id(9), id(1), true, 50, 50, 1000);
    assert!(r.is_ok());
}

#[test]
fn bet_overflowing_stake_fails_and_writes_nothing() {
    let mut m = PolymarketStore::new_();
    m.register_question(id(1), 0, 1000, 50).unwrap();
    m.bet_question(id(9), id(1), true, u128::MAX - 10, u128::MAX - 10, 100).unwrap();
    let r = m.bet_question(id(9), id(1), true, 11, 11, 200);
    assert_eq!(r, Err(Error::InvalidCredentials));
    let pos = m.read_user_response(id(9), id(1)).unwrap();
    assert_eq!(pos.betting_amount, u128::MAX - 10);
    // Filling exactly to the maximum is still admitted.
    let r = m.bet_question(id(9), id(1), true, 10, 10, 300);
    assert!(r.is_ok());
    assert_eq!(m.read_user_response(id(9), id(1)).unwrap().betting_amount, u128::MAX);
}

#[test]
fn distinct_users_and_questions_have_distinct_positions() {
    let mut m = PolymarketStore::new_();
    m.register_question(id(1), 0, 1000, 50).unwrap();
    m.register_question(id(2), 0, 1000, 50).unwrap();
    m.bet_question(id(9), id(1), true, 50, 50, 100).unwrap();
    m.bet_question(id(9), id(2), false, 60, 60, 100).unwrap();
    m.bet_question(id(8), id(1), false, 70, 70, 100).unwrap();
    assert_eq!(m.read_user_response(id(9), id(1)).unwrap().betting_amount, 50);
    assert_eq!(m.read_user_response(id(9), id(2)).unwrap().betting_amount, 60);
    assert_eq!(m.read_user_response(id(8), id(1)).unwrap().betting_amount, 70);
}

#[test]
fn withdraw_returns_stake_zeroes_it_and_keeps_side() {
    let mut m = PolymarketStore::new_();
    m.register_question(id(1), 0, 1000, 50).unwrap();
    m.bet_question(id(9), id(1), true, 80, 80, 100).unwrap();
    let transferred = m.withdraw_bet(id(9), id(1), 700).unwrap();
    assert_eq!(transferred, 80);
    let pos = m.read_user_response(id(9), id(1)).unwrap();
    assert_eq!(pos.betting_amount, 0);
    assert!(pos.response);
}

#[test]
fn withdraw_past_expiration_fails_and_stake_is_unchanged() {
    let mut m = PolymarketStore::new_();
    m.register_question(id(1), 0, 1000, 50).unwrap();
    m.bet_question(id(9), id(1), true, 80, 80, 100).unwrap();
    let late = m.withdraw_bet(id(9), id(1), 1001);
    assert_eq!(late, Err(Error::InvalidCredentials));
    let pos = m.read_user_response(id(9), id(1)).unwrap();
    assert_eq!(pos.betting_amount, 80);
}

#[test]
fn withdraw_without_question_or_position_fails() {
    let mut m = PolymarketStore::new_();
    assert_eq!(m.withdraw_bet(id(9), id(1), 100), Err(Error::QuestionDoesNotExists));
    m.register_question(id(1), 0, 1000, 50).unwrap();
    assert_eq!(m.withdraw_bet(id(9), id(1), 100), Err(Error::QuestionDoesNotExists));
}

#[test]
fn read_user_response_without_position_fails() {
    let mut m = PolymarketStore::new_();
    m.register_question(id(1), 0, 1000, 50).unwrap();
    assert_eq!(m.read_user_response(id(9), id(1)), Err(Error::QuestionDoesNotExists));
}
