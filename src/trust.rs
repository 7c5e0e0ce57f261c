use vstd::prelude::*;

verus! {

/// Cents of loan ceiling per point of reputation: the ceiling is twice the score.
pub const CENTS_PER_REPUTATION_POINT: i64 = 200;

/// Reputation a borrower gains with each repayment.
pub const REPAYMENT_REWARD: i32 = 10;

/// Reputation a new user starts with.
pub const INITIAL_REPUTATION: i32 = 100;

/// The largest loan, in cents, that a borrower with this reputation may request.
pub open spec fn loan_ceiling(reputation_score: i32) -> int {
    reputation_score * CENTS_PER_REPUTATION_POINT
}

/// The largest loan, in cents, that a borrower with this reputation may request:
/// twice the score, in currency units.
pub fn max_loan(reputation_score: i32) -> (r: i64)
    ensures
        r == loan_ceiling(reputation_score),
{
    reputation_score as i64 * CENTS_PER_REPUTATION_POINT
}

/// `amount` (in cents) is a loan a borrower with this reputation may request.
pub open spec fn within_ceiling(amount: u64, reputation_score: i32) -> bool {
    0 < amount && amount <= loan_ceiling(reputation_score)
}

/// The reputation after one more repayment, unless it would not fit.
pub fn rewarded(reputation_score: i32) -> (r: Option<i32>)
    ensures
        r matches Some(v) ==> v == reputation_score + REPAYMENT_REWARD,
        r is None <==> reputation_score + REPAYMENT_REWARD > i32::MAX,
{
    reputation_score.checked_add(REPAYMENT_REWARD)
}

} // verus!
