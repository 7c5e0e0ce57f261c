use microfund::error::AppError;
use microfund::model::LoanStatus;
use microfund::platform::Platform;
use microfund::trust::max_loan;

const KEY: &[u8] = b"test-signing-key";
const T0: u64 = 1_700_000_000;

fn with_users(names: &[&str]) -> (Platform, Vec<u128>) {
    let mut p = Platform::new(KEY.to_vec()).unwrap();
    let mut ids = Vec::new();
    for name in names {
        let (_, id) = p.register(name, &format!("{}@example.com", name), "password123", T0).unwrap();
        ids.push(id);
    }
    (p, ids)
}

#[test]
fn ceiling_is_twice_the_reputation_in_cents() {
    assert_eq!(max_loan(100), 20_000);
    assert_eq!(max_loan(0), 0);
    assert_eq!(max_loan(-5), -1_000);
    assert_eq!(max_loan(i32::MAX), i32::MAX as i64 * 200);
}

#[test]
fn alice_borrows_within_her_limit() {
    let (mut p, ids) = with_users(&["alice"]);
    let alice = ids[0];
    let id = p.create_loan(alice, 15_000, Some("School fees".to_string()), T0).unwrap();
    assert_eq!(p.loans.len(), 1);
    assert_eq!(p.loans[0].id, id);
    assert_eq!(p.loans[0].user_id, alice);
    assert_eq!(p.loans[0].amount, 15_000);
    assert_eq!(p.loans[0].status, LoanStatus::Pending);
    assert_eq!(p.loans[0].lender_id, None);
    assert!(matches!(p.create_loan(alice, 25_000, None, T0), Err(AppError::BadRequest(_))));
    assert_eq!(p.loans.len(), 1);
}

#[test]
fn loan_at_the_ceiling_succeeds_and_above_fails() {
    let (mut p, ids) = with_users(&["alice"]);
    assert!(p.create_loan(ids[0], 20_000, None, T0).is_ok());
    assert!(matches!(p.create_loan(ids[0], 20_001, None, T0), Err(AppError::BadRequest(_))));
}

#[test]
fn zero_loan_is_refused() {
    let (mut p, ids) = with_users(&["alice"]);
    assert!(matches!(p.create_loan(ids[0], 0, None, T0), Err(AppError::BadRequest(_))));
    assert!(p.loans.is_empty());
    assert!(p.ledger.is_empty());
}

#[test]
fn loan_for_unknown_borrower_is_a_store_failure() {
    let (mut p, _) = with_users(&[]);
    assert!(matches!(p.create_loan(5, 100, None, T0), Err(AppError::InternalServerError)));
}

#[test]
fn loan_request_is_recorded_on_the_ledger() {
    let (mut p, ids) = with_users(&["alice"]);
    p.create_loan(ids[0], 15_000, Some("Seeds".to_string()), T0).unwrap();
    assert_eq!(p.ledger.len(), 1);
    let entry = &p.ledger[0];
    assert_eq!(entry.activity_type, "LOAN_REQUEST");
    assert_eq!(entry.description, "Loan for: Seeds");
    assert_eq!(entry.amount, 15_000);
    assert_eq!(entry.created_at, T0);
    assert!(entry.signature.starts_with("5tZ..."));
    assert_eq!(entry.signature.len(), "5tZ...".len() + 8);
    p.create_loan(ids[0], 100, None, T0).unwrap();
    assert_eq!(p.ledger[1].description, "Loan for: ");
}

#[test]
fn bob_funds_alices_loan_once() {
    let (mut p, ids) = with_users(&["alice", "bob"]);
    let (alice, bob) = (ids[0], ids[1]);
    let loan = p.create_loan(alice, 10_000, None, T0).unwrap();
    p.fund_loan(bob, loan).unwrap();
    assert_eq!(p.loans[0].status, LoanStatus::Approved);
    assert_eq!(p.loans[0].lender_id, Some(bob));
    assert!(matches!(p.fund_loan(bob, loan), Err(AppError::BadRequest(_))));
    assert_eq!(p.loans[0].lender_id, Some(bob));
}

#[test]
fn second_lender_observes_bad_request() {
    let (mut p, ids) = with_users(&["alice", "bob", "carol"]);
    let loan = p.create_loan(ids[0], 10_000, None, T0).unwrap();
    let first = p.fund_loan(ids[1], loan);
    let second = p.fund_loan(ids[2], loan);
    assert!(first.is_ok());
    assert!(matches!(second, Err(AppError::BadRequest(_))));
    assert_eq!(p.loans[0].lender_id, Some(ids[1]));
}

#[test]
fn borrower_cannot_fund_own_loan_and_unknown_loan_is_refused() {
    let (mut p, ids) = with_users(&["alice"]);
    let loan = p.create_loan(ids[0], 10_000, None, T0).unwrap();
    assert!(matches!(p.fund_loan(ids[0], loan), Err(AppError::BadRequest(_))));
    assert!(matches!(p.fund_loan(ids[0], loan.wrapping_add(1)), Err(AppError::BadRequest(_))));
    assert_eq!(p.loans[0].status, LoanStatus::Pending);
}

#[test]
fn repayment_raises_reputation_by_ten() {
    let (mut p, ids) = with_users(&["alice", "bob"]);
    let (alice, bob) = (ids[0], ids[1]);
    let loan = p.create_loan(alice, 10_000, None, T0).unwrap();
    p.fund_loan(bob, loan).unwrap();
    p.repay_loan(alice, loan, T0 + 60).unwrap();
    assert_eq!(p.loans[0].status, LoanStatus::Repaid);
    assert_eq!(p.loans[0].repaid_at, Some(T0 + 60));
    assert_eq!(p.users[0].reputation_score, 110);
    assert_eq!(p.users[1].reputation_score, 100);
    let last = p.ledger.last().unwrap();
    assert_eq!(last.activity_type, "REPAYMENT");
    assert_eq!(last.amount, 0);
    assert_eq!(last.description, format!("Loan {} repaid", uuid::Uuid::from_u128(loan)));
    assert_eq!(max_loan(p.users[0].reputation_score), 22_000);
}

#[test]
fn non_borrower_cannot_repay() {
    let (mut p, ids) = with_users(&["alice", "bob"]);
    let loan = p.create_loan(ids[0], 10_000, None, T0).unwrap();
    p.fund_loan(ids[1], loan).unwrap();
    assert!(matches!(p.repay_loan(ids[1], loan, T0), Err(AppError::NotFound)));
    assert_eq!(p.loans[0].status, LoanStatus::Approved);
    assert_eq!(p.users[1].reputation_score, 100);
}

#[test]
fn unfunded_or_repaid_loan_cannot_be_repaid() {
    let (mut p, ids) = with_users(&["alice", "bob"]);
    let loan = p.create_loan(ids[0], 10_000, None, T0).unwrap();
    assert!(matches!(p.repay_loan(ids[0], loan, T0), Err(AppError::NotFound)));
    p.fund_loan(ids[1], loan).unwrap();
    p.repay_loan(ids[0], loan, T0).unwrap();
    assert!(matches!(p.repay_loan(ids[0], loan, T0), Err(AppError::NotFound)));
    assert_eq!(p.users[0].reputation_score, 110);
}

#[test]
fn reputation_overflow_leaves_everything_unchanged() {
    let (mut p, ids) = with_users(&["alice", "bob"]);
    let loan = p.create_loan(ids[0], 10_000, None, T0).unwrap();
    p.fund_loan(ids[1], loan).unwrap();
    p.users[0].reputation_score = i32::MAX - 5;
    let ledger_len = p.ledger.len();
    assert!(matches!(p.repay_loan(ids[0], loan, T0), Err(AppError::InternalServerError)));
    assert_eq!(p.loans[0].status, LoanStatus::Approved);
    assert_eq!(p.users[0].reputation_score, i32::MAX - 5);
    assert_eq!(p.ledger.len(), ledger_len);
}

#[test]
fn marketplace_shows_others_pending_loans() {
    let (mut p, ids) = with_users(&["alice", "bob", "carol"]);
    let a1 = p.create_loan(ids[0], 1_000, Some("Tools".to_string()), T0).unwrap();
    let a2 = p.create_loan(ids[0], 2_000, None, T0 + 1).unwrap();
    let b1 = p.create_loan(ids[1], 3_000, None, T0 + 2).unwrap();
    p.fund_loan(ids[2], a2).unwrap();
    let seen_by_bob = p.get_marketplace(ids[1]);
    assert_eq!(seen_by_bob.len(), 1);
    assert_eq!(seen_by_bob[0].id, a1);
    assert_eq!(seen_by_bob[0].borrower_username, "alice");
    assert_eq!(seen_by_bob[0].description, Some("Tools".to_string()));
    let seen_by_carol: Vec<u128> = p.get_marketplace(ids[2]).iter().map(|m| m.id).collect();
    assert_eq!(seen_by_carol, vec![a1, b1]);
}

#[test]
fn my_loans_lists_borrowed_and_lent_newest_first() {
    let (mut p, ids) = with_users(&["alice", "bob", "carol"]);
    let a1 = p.create_loan(ids[0], 1_000, None, T0).unwrap();
    let b1 = p.create_loan(ids[1], 1_000, None, T0 + 1).unwrap();
    let c1 = p.create_loan(ids[2], 1_000, None, T0 + 2).unwrap();
    p.fund_loan(ids[0], c1).unwrap();
    let mine: Vec<u128> = p.get_loans(ids[0]).iter().map(|l| l.id).collect();
    assert_eq!(mine, vec![c1, a1]);
    let bobs: Vec<u128> = p.get_loans(ids[1]).iter().map(|l| l.id).collect();
    assert_eq!(bobs, vec![b1]);
}

#[test]
fn stats_count_and_sum() {
    let (mut p, ids) = with_users(&["alice", "bob"]);
    let a1 = p.create_loan(ids[0], 1_000, None, T0).unwrap();
    p.create_loan(ids[1], 2_500, None, T0).unwrap();
    p.fund_loan(ids[1], a1).unwrap();
    let goal = p.create_savings(ids[0], "Roof".to_string(), T0).unwrap();
    p.deposit(goal, 700, None, T0).unwrap();
    let s = p.stats();
    assert_eq!(s.total_users, 2);
    assert_eq!(s.total_loans_value, 3_500);
    assert_eq!(s.total_savings_value, 700);
    assert_eq!(s.active_p2p_deals, 1);
}

#[test]
fn recent_ledger_is_newest_first_and_limited() {
    let (mut p, ids) = with_users(&["alice"]);
    p.create_loan(ids[0], 100, None, T0).unwrap();
    p.create_loan(ids[0], 200, None, T0).unwrap();
    p.create_loan(ids[0], 300, None, T0).unwrap();
    let amounts: Vec<u64> = p.recent(2).iter().map(|e| e.amount).collect();
    assert_eq!(amounts, vec![300, 200]);
    assert_eq!(p.recent(50).len(), 3);
    assert!(p.recent(0).is_empty());
}

#[test]
fn record_returns_the_entry_signature() {
    let (mut p, _) = with_users(&[]);
    let sig = p.record("AUDIT", "note".to_string(), 5, T0);
    assert_eq!(p.ledger.len(), 1);
    assert_eq!(p.ledger[0].signature, sig);
    let expected = format!("5tZ...{}", &uuid::Uuid::from_u128(p.ledger[0].id).to_string()[..8]);
    assert_eq!(sig, expected);
}

#[test]
fn my_loans_are_ordered_by_creation_time_not_insertion() {
    let (mut p, ids) = with_users(&["alice"]);
    let late = p.create_loan(ids[0], 100, None, T0 + 100).unwrap();
    let early = p.create_loan(ids[0], 100, None, T0).unwrap();
    let middle = p.create_loan(ids[0], 100, None, T0 + 50).unwrap();
    let mine: Vec<u128> = p.get_loans(ids[0]).iter().map(|l| l.id).collect();
    assert_eq!(mine, vec![late, middle, early]);
}

#[test]
fn recent_ledger_is_ordered_by_time() {
    let (mut p, _) = with_users(&[]);
    p.record("A", "late".to_string(), 1, T0 + 10);
    p.record("B", "early".to_string(), 2, T0);
    p.record("C", "middle".to_string(), 3, T0 + 5);
    let amounts: Vec<u64> = p.recent(2).iter().map(|e| e.amount).collect();
    assert_eq!(amounts, vec![1, 3]);
    let all: Vec<u64> = p.recent(10).iter().map(|e| e.amount).collect();
    assert_eq!(all, vec![1, 3, 2]);
}

#[test]
fn insert_loan_on_given_identity() {
    let (mut p, ids) = with_users(&["alice"]);
    assert_eq!(p.insert_loan(77, ids[0], 500, Some("Stall".to_string()), T0).unwrap(), 77);
    assert_eq!(p.loans[0].id, 77);
    assert_eq!(p.loans[0].status, LoanStatus::Pending);
    assert_eq!(p.ledger.len(), 1);
    assert!(matches!(p.insert_loan(77, ids[0], 900, None, T0), Err(AppError::InternalServerError)));
    assert_eq!(p.loans.len(), 1);
    assert_eq!(p.loans[0].amount, 500);
    assert_eq!(p.ledger.len(), 1);
}

#[test]
fn first_loan_and_first_goal_always_succeed() {
    let (mut p, ids) = with_users(&["alice"]);
    assert!(p.create_loan(ids[0], 100, None, T0).is_ok());
    assert!(p.create_savings(ids[0], "Roof".to_string(), T0).is_ok());
}
