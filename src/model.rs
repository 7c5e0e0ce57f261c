use vstd::prelude::*;

verus! {

/// A registered user. Amounts elsewhere are in cents; times are Unix seconds.
#[derive(Debug)]
pub struct User {
    pub id: u128,
    pub username: String,
    pub email: String,
    /// The salted argon2 hash of the password, as a PHC string.
    pub password_hash: String,
    pub reputation_score: i32,
    pub created_at: u64,
}

/// Where a loan stands; it only ever moves forward, one step at a time.
#[derive(Debug, Clone, Copy, PartialEq, Eq, Structural)]
pub enum LoanStatus {
    Pending,
    Approved,
    Repaid,
}

#[derive(Debug)]
pub struct Loan {
    pub id: u128,
    /// The borrower.
    pub user_id: u128,
    pub lender_id: Option<u128>,
    /// The amount in cents.
    pub amount: u64,
    pub status: LoanStatus,
    pub description: Option<String>,
    pub created_at: u64,
    pub repaid_at: Option<u64>,
}

/// A loan as the marketplace shows it, with the borrower's username.
#[derive(Debug)]
pub struct MarketplaceLoan {
    pub id: u128,
    pub user_id: u128,
    pub borrower_username: String,
    pub amount: u64,
    pub description: Option<String>,
    pub created_at: u64,
}

/// A savings goal; its balance in cents is the sum of its deposits.
#[derive(Debug)]
pub struct Savings {
    pub id: u128,
    pub user_id: u128,
    pub amount: u64,
    pub goal_name: Option<String>,
    pub created_at: u64,
    pub updated_at: u64,
}

/// One row of the audit trail of a savings goal.
#[derive(Debug)]
pub struct SavingsTransaction {
    pub id: u128,
    pub savings_id: u128,
    pub amount: u64,
    pub transaction_type: String,
    pub created_at: u64,
}

/// One entry of the platform's append-only audit ledger.
#[derive(Debug)]
pub struct PlatformTransaction {
    pub id: u128,
    pub activity_type: String,
    pub description: String,
    pub amount: u64,
    pub signature: String,
    pub created_at: u64,
}

/// Aggregate counters over the whole store.
#[derive(Debug, Clone, Copy, PartialEq, Eq, Structural)]
pub struct PlatformStats {
    pub total_users: u64,
    pub total_loans_value: u128,
    pub total_savings_value: u128,
    pub active_p2p_deals: u64,
}

/// A copy of an optional text.
pub fn copy_text(o: &Option<String>) -> (r: Option<String>)
    ensures
        r == *o,
{
    match o {
        Some(s) => Some(s.clone()),
        None => None,
    }
}

impl Loan {
    /// A copy of this loan.
    pub fn duplicate(&self) -> (r: Loan)
        ensures
            r == *self,
    {
        Loan {
            id: self.id,
            user_id: self.user_id,
            lender_id: self.lender_id,
            amount: self.amount,
            status: self.status,
            description: copy_text(&self.description),
            created_at: self.created_at,
            repaid_at: self.repaid_at,
        }
    }
}

impl PlatformTransaction {
    /// A copy of this ledger entry.
    pub fn duplicate(&self) -> (r: PlatformTransaction)
        ensures
            r == *self,
    {
        PlatformTransaction {
            id: self.id,
            activity_type: self.activity_type.clone(),
            description: self.description.clone(),
            amount: self.amount,
            signature: self.signature.clone(),
            created_at: self.created_at,
        }
    }
}

/// The consistency of a loan's lender and repayment time with its status.
pub open spec fn loan_consistent(l: Loan) -> bool {
    match l.status {
        LoanStatus::Pending => l.lender_id is None && l.repaid_at is None,
        LoanStatus::Approved => l.lender_id matches Some(x) && x != l.user_id && l.repaid_at is None,
        LoanStatus::Repaid => l.lender_id matches Some(x) && x != l.user_id && l.repaid_at is Some,
    }
}

/// The sum of the deposits recorded for savings goal `sid`.
pub open spec fn deposits_total(txs: Seq<SavingsTransaction>, sid: u128) -> int
    decreases txs.len(),
{
    if txs.len() == 0 {
        0
    } else {
        deposits_total(txs.drop_last(), sid) + if txs.last().savings_id == sid {
            txs.last().amount as int
        } else {
            0
        }
    }
}

pub proof fn lemma_deposits_total_absent(txs: Seq<SavingsTransaction>, sid: u128)
    requires
        forall|k: int| 0 <= k < txs.len() ==> #[trigger] txs[k].savings_id != sid,
    ensures
        deposits_total(txs, sid) == 0,
    decreases txs.len(),
{
    if txs.len() > 0 {
        lemma_deposits_total_absent(txs.drop_last(), sid);
    }
}

} // verus!
