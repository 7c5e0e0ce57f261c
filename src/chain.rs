use vstd::prelude::*;

verus! {

/// A microloan as recorded on chain: an immutable record of the debt that
/// can be marked repaid once, by its borrower.
#[derive(Debug)]
pub struct LoanAccount {
    /// The borrower's public key.
    pub borrower: [u8; 32],
    pub amount: u64,
    pub description: String,
    pub repaid: bool,
    pub created_at: i64,
    pub repaid_at: i64,
}

/// Why the chain refuses to record a repayment.
#[derive(Debug, Clone, Copy, PartialEq, Eq, Structural)]
pub enum LoanError {
    /// This loan has already been repaid.
    AlreadyRepaid,
    /// The signer is not the loan's borrower.
    NotBorrower,
}

/// Records a new, unrepaid loan of `borrower` at time `now`.
pub fn initialize_loan(borrower: [u8; 32], amount: u64, description: String, now: i64) -> (r: LoanAccount)
    ensures
        r.borrower == borrower,
        r.amount == amount,
        r.description == description,
        !r.repaid,
        r.created_at == now,
        r.repaid_at == 0,
{
    LoanAccount { borrower, amount, description, repaid: false, created_at: now, repaid_at: 0 }
}

/// Whether two public keys are the same.
pub fn same_key(a: &[u8; 32], b: &[u8; 32]) -> (r: bool)
    ensures
        r == (a@ == b@),
{
    let mut i: usize = 0;
    while i < 32
        invariant
            i <= 32,
            a@.len() == 32,
            b@.len() == 32,
            forall|k: int| 0 <= k < i ==> a@[k] == b@[k],
        decreases 32 - i,
    {
        if a[i] != b[i] {
            return false;
        }
        i = i + 1;
    }
    assert(a@ =~= b@);
    true
}

/// Marks `loan` repaid at time `now`, when `signer` is its borrower and it
/// is not repaid yet; otherwise the record is left as it was.
pub fn repay_loan(loan: &mut LoanAccount, signer: [u8; 32], now: i64) -> (r: Result<(), LoanError>)
    ensures
        signer@ != old(loan).borrower@ ==> r == Err::<(), LoanError>(LoanError::NotBorrower),
        signer@ == old(loan).borrower@ && old(loan).repaid ==> r == Err::<(), LoanError>(LoanError::AlreadyRepaid),
        r is Err ==> *final(loan) == *old(loan),
        r is Ok <==> signer@ == old(loan).borrower@ && !old(loan).repaid,
        r is Ok ==> *final(loan) == (LoanAccount { repaid: true, repaid_at: now, ..*old(loan) }),
{
    if !same_key(&signer, &loan.borrower) {
        return Err(LoanError::NotBorrower);
    }
    if loan.repaid {
        return Err(LoanError::AlreadyRepaid);
    }
    loan.repaid = true;
    loan.repaid_at = now;
    Ok(())
}

} // verus!
