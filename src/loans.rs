use vstd::prelude::*;
use crate::error::AppError;
use crate::ids::{fresh_id, uuid_text, uuid_text_of};
use crate::ledger::appended;
use crate::model::{copy_text, loan_consistent, Loan, LoanStatus, MarketplaceLoan, User};
use crate::platform::{loan_exists, loans_distinct, user_exists, Platform};
use crate::services::{attempt_side_call, BlockchainService};
use crate::trust::{loan_ceiling, max_loan, rewarded, within_ceiling, REPAYMENT_REWARD};

verus! {

/// `l` is the pending loan that a request with these fields creates.
pub open spec fn new_loan_record(
    l: Loan,
    id: u128,
    borrower: u128,
    amount: u64,
    description: Option<String>,
    now: u64,
) -> bool {
    &&& l.id == id
    &&& l.user_id == borrower
    &&& l.lender_id is None
    &&& l.amount == amount
    &&& l.status == LoanStatus::Pending
    &&& l.description == description
    &&& l.created_at == now
    &&& l.repaid_at is None
}

/// The ledger text of a loan request.
pub open spec fn request_note(description: Option<String>) -> Seq<char> {
    "Loan for: "@ + match description {
        Some(d) => d@,
        None => Seq::<char>::empty(),
    }
}

/// The ledger text of a repayment.
pub open spec fn repayment_note(loan_id: u128) -> Seq<char> {
    "Loan "@ + uuid_text_of(loan_id) + " repaid"@
}

/// A loan that `lender` may fund: it is pending and not the lender's own.
pub open spec fn fundable(loans: Seq<Loan>, lender: u128, loan_id: u128) -> bool {
    exists|i: int|
        0 <= i < loans.len() && #[trigger] loans[i].id == loan_id && loans[i].status
            == LoanStatus::Pending && loans[i].user_id != lender
}

/// A loan that `borrower` may repay: their own, funded and not yet repaid.
pub open spec fn repayable(loans: Seq<Loan>, borrower: u128, loan_id: u128) -> bool {
    exists|i: int|
        0 <= i < loans.len() && #[trigger] loans[i].id == loan_id && loans[i].user_id == borrower
            && loans[i].status == LoanStatus::Approved
}

/// `new` is `old` funded by `lender`.
pub open spec fn funded_from(new: Loan, old: Loan, lender: u128) -> bool {
    new == Loan { lender_id: Some(lender), status: LoanStatus::Approved, ..old }
}

/// `new` is `old` repaid at time `now`.
pub open spec fn repaid_from(new: Loan, old: Loan, now: u64) -> bool {
    new == Loan { status: LoanStatus::Repaid, repaid_at: Some(now), ..old }
}

/// `after` is `before` with the element at `i` replaced by `x`.
pub open spec fn replaced<T>(before: Seq<T>, after: Seq<T>, i: int, x: T) -> bool {
    0 <= i < before.len() && after == before.update(i, x)
}

/// The username of the registered user `id`.
pub open spec fn borrower_name(users: Seq<User>, id: u128) -> String {
    users[choose|k: int| 0 <= k < users.len() && #[trigger] users[k].id == id].username
}

/// The marketplace row that shows loan `l`.
pub open spec fn market_row(l: Loan, users: Seq<User>) -> MarketplaceLoan {
    MarketplaceLoan {
        id: l.id,
        user_id: l.user_id,
        borrower_username: borrower_name(users, l.user_id),
        amount: l.amount,
        description: l.description,
        created_at: l.created_at,
    }
}

/// The marketplace that `viewer` sees in `loans`, in order of creation:
/// the pending loans of other borrowers who are registered.
pub open spec fn market_rows(loans: Seq<Loan>, users: Seq<User>, viewer: u128) -> Seq<MarketplaceLoan>
    decreases loans.len(),
{
    if loans.len() == 0 {
        Seq::empty()
    } else {
        let rest = market_rows(loans.drop_last(), users, viewer);
        let l = loans.last();
        if l.status == LoanStatus::Pending && l.user_id != viewer && user_exists(users, l.user_id) {
            rest.push(market_row(l, users))
        } else {
            rest
        }
    }
}

/// The loans that `viewer` borrowed or lent, in the store's order.
pub open spec fn own_loans(loans: Seq<Loan>, viewer: u128) -> Seq<Loan>
    decreases loans.len(),
{
    if loans.len() == 0 {
        Seq::empty()
    } else {
        let rest = own_loans(loans.drop_first(), viewer);
        if loans[0].user_id == viewer || loans[0].lender_id == Some(viewer) {
            seq![loans[0]] + rest
        } else {
            rest
        }
    }
}

/// `s`, ordered newest first, with `x` placed after every loan created no
/// later than it.
pub open spec fn insert_loan_by_time(s: Seq<Loan>, x: Loan) -> Seq<Loan>
    decreases s.len(),
{
    if s.len() == 0 {
        seq![x]
    } else if s[0].created_at < x.created_at {
        seq![x] + s
    } else {
        seq![s[0]] + insert_loan_by_time(s.drop_first(), x)
    }
}

/// `s` ordered by creation time, newest first; among loans created at the
/// same time, the one stored last comes first.
pub open spec fn loans_by_time(s: Seq<Loan>) -> Seq<Loan>
    decreases s.len(),
{
    if s.len() == 0 {
        Seq::empty()
    } else {
        insert_loan_by_time(loans_by_time(s.drop_first()), s[0])
    }
}

pub open spec fn loans_newest_first(s: Seq<Loan>) -> bool {
    forall|i: int, j: int| 0 <= i < j < s.len() ==> s[i].created_at >= s[j].created_at
}

proof fn lemma_insert_loan_at(s: Seq<Loan>, x: Loan, p: int)
    requires
        0 <= p <= s.len(),
        forall|k: int| 0 <= k < p ==> s[k].created_at >= x.created_at,
        p < s.len() ==> s[p].created_at < x.created_at,
    ensures
        insert_loan_by_time(s, x) == s.insert(p, x),
    decreases s.len(),
{
    if s.len() == 0 {
        assert(s.insert(p, x) =~= seq![x]);
    } else if p == 0 {
        assert(s.insert(0, x) =~= seq![x] + s);
    } else {
        lemma_insert_loan_at(s.drop_first(), x, p - 1);
        assert(s.insert(p, x) =~= seq![s[0]] + s.drop_first().insert(p - 1, x));
    }
}

proof fn lemma_insert_loan_sorted(s: Seq<Loan>, x: Loan)
    requires
        loans_newest_first(s),
    ensures
        loans_newest_first(insert_loan_by_time(s, x)),
        insert_loan_by_time(s, x).len() == s.len() + 1,
        insert_loan_by_time(s, x)[0] == if s.len() == 0 || s[0].created_at < x.created_at {
            x
        } else {
            s[0]
        },
    decreases s.len(),
{
    if s.len() > 0 && s[0].created_at >= x.created_at {
        let t = s.drop_first();
        lemma_insert_loan_sorted(t, x);
        let r = insert_loan_by_time(t, x);
        assert forall|i: int, j: int| 0 <= i < j < r.len() + 1 implies (seq![s[0]] + r)[i].created_at >= (seq![
            s[0]] + r)[j].created_at by {
            if i == 0 {
                assert(r[0].created_at >= r[j - 1].created_at || j - 1 == 0);
            }
        }
    }
}

proof fn lemma_loans_by_time_sorted(s: Seq<Loan>)
    ensures
        loans_newest_first(loans_by_time(s)),
    decreases s.len(),
{
    if s.len() > 0 {
        lemma_loans_by_time_sorted(s.drop_first());
        lemma_insert_loan_sorted(loans_by_time(s.drop_first()), s[0]);
    }
}

/// Places `x` in `v`, kept newest first, after every loan created no later.
fn place_loan_by_time(v: &mut Vec<Loan>, x: Loan)
    ensures
        final(v)@ == insert_loan_by_time(old(v)@, x),
{
    let mut p: usize = 0;
    while p < v.len() && v[p].created_at >= x.created_at
        invariant
            v@ == old(v)@,
            p <= v@.len(),
            forall|k: int| 0 <= k < p ==> v@[k].created_at >= x.created_at,
        decreases v@.len() - p,
    {
        p = p + 1;
    }
    proof {
        lemma_insert_loan_at(v@, x, p as int);
    }
    v.insert(p, x);
}

/// A loan cannot be funded twice: once one funding of it has succeeded, no
/// lender can fund it again, so `fund_loan` refuses every later attempt with
/// `BadRequest`.
pub proof fn lemma_funded_once(before: Seq<Loan>, after: Seq<Loan>, i: int, lender: u128, other_lender: u128)
    requires
        loans_distinct(before),
        replaced(before, after, i, Loan { lender_id: Some(lender), status: LoanStatus::Approved, ..before[i] }),
    ensures
        !fundable(after, other_lender, before[i].id),
{
    assert forall|j: int| 0 <= j < after.len() && #[trigger] after[j].id == before[i].id implies after[j].status
        != LoanStatus::Pending by {
        if j != i {
            assert(before[j].id != before[i].id);
        }
    }
}

/// Only its borrower can repay a loan: for any other caller `repay_loan`
/// finds nothing to repay and answers `NotFound`.
pub proof fn lemma_only_borrower_repays(loans: Seq<Loan>, i: int, caller: u128)
    requires
        loans_distinct(loans),
        0 <= i < loans.len(),
        loans[i].user_id != caller,
    ensures
        !repayable(loans, caller, loans[i].id),
{
    assert forall|j: int| 0 <= j < loans.len() && #[trigger] loans[j].id == loans[i].id implies loans[j].user_id
        != caller by {
        if j != i {
            assert(loans[j].id != loans[i].id);
        }
    }
}

impl Platform {
    /// Stores the pending loan `id` and records its request on the platform
    /// ledger: the step of `create_loan` that follows the drawing of the
    /// identity, for a request already checked. An identity already in use
    /// is a store failure, and then nothing changes.
    pub fn insert_loan(&mut self, id: u128, borrower: u128, amount: u64, description: Option<String>, now: u64) -> (r:
        Result<u128, AppError>)
        requires
            old(self).wf(),
        ensures
            final(self).wf(),
            final(self).signing_key == old(self).signing_key,
            loan_exists(old(self).loans@, id) ==> r == Err::<u128, AppError>(AppError::InternalServerError)
                && *final(self) == *old(self),
            !loan_exists(old(self).loans@, id) ==> r == Ok::<u128, AppError>(id),
            r is Ok ==> {
                &&& final(self).loans@.len() == old(self).loans@.len() + 1
                &&& final(self).loans@.drop_last() == old(self).loans@
                &&& new_loan_record(final(self).loans@.last(), id, borrower, amount, description, now)
                &&& appended(old(self).ledger@, final(self).ledger@, "LOAN_REQUEST"@, request_note(description), amount, now)
                &&& final(self).users == old(self).users
                &&& final(self).savings == old(self).savings
                &&& final(self).savings_transactions == old(self).savings_transactions
            },
    {
        if self.find_loan(id).is_some() {
            return Err(AppError::InternalServerError);
        }
        let text = match &description {
            Some(d) => d.clone(),
            None => String::new(),
        };
        let note = String::from_str("Loan for: ").concat(text.as_str());
        self.record("LOAN_REQUEST", note, amount, now);
        let loan = Loan {
            id,
            user_id: borrower,
            lender_id: None,
            amount,
            status: LoanStatus::Pending,
            description,
            created_at: now,
            repaid_at: None,
        };
        let ghost before = self.loans@;
        self.loans.push(loan);
        proof {
            assert(self.loans@.drop_last() =~= before);
            assert forall|i: int, j: int|
                0 <= i < self.loans@.len() && 0 <= j < self.loans@.len() && i != j implies self.loans@[i].id
                    != self.loans@[j].id by {
                if i < before.len() {
                    assert(before[i] == self.loans@[i]);
                }
                if j < before.len() {
                    assert(before[j] == self.loans@[j]);
                }
            }
            assert forall|i: int| 0 <= i < self.loans@.len() implies loan_consistent(#[trigger] self.loans@[i]) by {
                if i < before.len() {
                    assert(before[i] == self.loans@[i]);
                }
            }
        }
        Ok(id)
    }

    /// Opens a pending loan of `amount` cents for `borrower`. An amount of
    /// zero, or one above the borrower's trust ceiling, is refused with
    /// `BadRequest`. A loan request is recorded on the platform ledger. The
    /// loan's identity is drawn at random; only a draw that hits an identity
    /// in use fails the store.
    pub fn create_loan(&mut self, borrower: u128, amount: u64, description: Option<String>, now: u64) -> (r:
        Result<u128, AppError>)
        requires
            old(self).wf(),
        ensures
            final(self).wf(),
            final(self).signing_key == old(self).signing_key,
            amount == 0 ==> r matches Err(AppError::BadRequest(_)),
            amount > 0 && !user_exists(old(self).users@, borrower) ==> r == Err::<u128, AppError>(
                AppError::InternalServerError,
            ),
            forall|k: int|
                0 <= k < old(self).users@.len() && #[trigger] old(self).users@[k].id == borrower ==> {
                    let score = old(self).users@[k].reputation_score;
                    &&& amount > loan_ceiling(score) ==> (r matches Err(AppError::BadRequest(_)))
                    &&& within_ceiling(amount, score) ==> r is Ok || (r == Err::<u128, AppError>(
                        AppError::InternalServerError,
                    ) && old(self).loans@.len() > 0)
                },
            r is Err ==> *final(self) == *old(self),
            r matches Ok(id) ==> {
                &&& exists|k: int|
                    0 <= k < old(self).users@.len() && #[trigger] old(self).users@[k].id == borrower
                        && within_ceiling(amount, old(self).users@[k].reputation_score)
                &&& !loan_exists(old(self).loans@, id)
                &&& final(self).loans@.len() == old(self).loans@.len() + 1
                &&& final(self).loans@.drop_last() == old(self).loans@
                &&& new_loan_record(final(self).loans@.last(), id, borrower, amount, description, now)
                &&& appended(old(self).ledger@, final(self).ledger@, "LOAN_REQUEST"@, request_note(description), amount, now)
                &&& final(self).users == old(self).users
                &&& final(self).savings == old(self).savings
                &&& final(self).savings_transactions == old(self).savings_transactions
            },
    {
        if amount == 0 {
            return Err(AppError::bad_request("Loan amount must be positive"));
        }
        let ui = match self.find_user(borrower) {
            Some(i) => i,
            None => return Err(AppError::InternalServerError),
        };
        let ceiling = max_loan(self.users[ui].reputation_score);
        if amount as i128 > ceiling as i128 {
            return Err(
                AppError::bad_request(
                    "Your Trust Score restricts this loan. Repay more loans to increase your limit!",
                ),
            );
        }
        self.insert_loan(fresh_id(), borrower, amount, description, now)
    }

    /// Funds a pending loan: sets its lender and moves it to `Approved` in
    /// one step. A loan that is absent, no longer pending, or the lender's
    /// own is refused with `BadRequest`, so of two attempts on one loan only
    /// the first can succeed.
    pub fn fund_loan(&mut self, lender: u128, loan_id: u128) -> (r: Result<(), AppError>)
        requires
            old(self).wf(),
        ensures
            final(self).wf(),
            r is Ok <==> fundable(old(self).loans@, lender, loan_id),
            r is Err ==> (r matches Err(AppError::BadRequest(_))) && *final(self) == *old(self),
            r is Ok ==> exists|i: int|
                0 <= i < old(self).loans@.len() && #[trigger] old(self).loans@[i].id == loan_id
                    && replaced(
                    old(self).loans@,
                    final(self).loans@,
                    i,
                    Loan { lender_id: Some(lender), status: LoanStatus::Approved, ..old(self).loans@[i] },
                ),
            r is Ok ==> {
                &&& final(self).users == old(self).users
                &&& final(self).savings == old(self).savings
                &&& final(self).savings_transactions == old(self).savings_transactions
                &&& final(self).ledger == old(self).ledger
                &&& final(self).signing_key == old(self).signing_key
            },
    {
        let i = match self.find_loan(loan_id) {
            Some(i) => i,
            None => return Err(AppError::bad_request("Loan not available for funding")),
        };
        let current = &self.loans[i];
        if current.status != LoanStatus::Pending || current.user_id == lender {
            proof {
                assert forall|j: int| 0 <= j < self.loans@.len() && #[trigger] self.loans@[j].id == loan_id implies j == i by {
                    if j != i {
                        assert(self.loans@[j].id != self.loans@[i as int].id);
                    }
                }
            }
            return Err(AppError::bad_request("Loan not available for funding"));
        }
        let funded = Loan {
            id: current.id,
            user_id: current.user_id,
            lender_id: Some(lender),
            amount: current.amount,
            status: LoanStatus::Approved,
            description: copy_text(&current.description),
            created_at: current.created_at,
            repaid_at: current.repaid_at,
        };
        let ghost before = self.loans@;
        self.loans.set(i, funded);
        proof {
            assert(self.loans@ == before.update(i as int, funded));
            assert forall|a: int, b: int|
                0 <= a < self.loans@.len() && 0 <= b < self.loans@.len() && a != b implies self.loans@[a].id
                    != self.loans@[b].id by {
                assert(before[a].id == self.loans@[a].id);
                assert(before[b].id == self.loans@[b].id);
            }
            assert forall|a: int| 0 <= a < self.loans@.len() implies loan_consistent(#[trigger] self.loans@[a]) by {
                if a != i {
                    assert(before[a] == self.loans@[a]);
                }
            }
        }
        attempt_side_call(BlockchainService::log_loan_repayment(loan_id, "FUNDING_SIG"));
        Ok(())
    }

    /// Repays a funded loan of `borrower`: marks it `Repaid` at `now`, raises
    /// the borrower's reputation by 10 and records the repayment on the
    /// platform ledger. A loan that is absent, not the caller's, not funded
    /// or already repaid is refused with `NotFound`. Nothing changes unless
    /// all of it does.
    pub fn repay_loan(&mut self, borrower: u128, loan_id: u128, now: u64) -> (r: Result<(), AppError>)
        requires
            old(self).wf(),
        ensures
            final(self).wf(),
            final(self).signing_key == old(self).signing_key,
            !repayable(old(self).loans@, borrower, loan_id) ==> r == Err::<(), AppError>(AppError::NotFound),
            repayable(old(self).loans@, borrower, loan_id) && !user_exists(old(self).users@, borrower)
                ==> r == Err::<(), AppError>(AppError::InternalServerError),
            forall|k: int|
                0 <= k < old(self).users@.len() && #[trigger] old(self).users@[k].id == borrower
                    && repayable(old(self).loans@, borrower, loan_id) ==> if old(self).users@[k].reputation_score
                    + REPAYMENT_REWARD > i32::MAX {
                    r == Err::<(), AppError>(AppError::InternalServerError)
                } else {
                    r is Ok
                },
            r is Err ==> *final(self) == *old(self),
            r is Ok ==> exists|i: int|
                0 <= i < old(self).loans@.len() && #[trigger] old(self).loans@[i].id == loan_id
                    && old(self).loans@[i].user_id == borrower && replaced(
                    old(self).loans@,
                    final(self).loans@,
                    i,
                    Loan { status: LoanStatus::Repaid, repaid_at: Some(now), ..old(self).loans@[i] },
                ),
            r is Ok ==> exists|k: int|
                0 <= k < old(self).users@.len() && #[trigger] old(self).users@[k].id == borrower
                    && replaced(
                    old(self).users@,
                    final(self).users@,
                    k,
                    User {
                        reputation_score: (old(self).users@[k].reputation_score + REPAYMENT_REWARD) as i32,
                        ..old(self).users@[k]
                    },
                ),
            r is Ok ==> appended(old(self).ledger@, final(self).ledger@, "REPAYMENT"@, repayment_note(loan_id), 0, now),
            r is Ok ==> final(self).savings == old(self).savings && final(self).savings_transactions
                == old(self).savings_transactions,
    {
        let i = match self.find_loan(loan_id) {
            Some(i) => i,
            None => return Err(AppError::NotFound),
        };
        proof {
            assert forall|j: int| 0 <= j < self.loans@.len() && #[trigger] self.loans@[j].id == loan_id implies j == i by {
                if j != i {
                    assert(self.loans@[j].id != self.loans@[i as int].id);
                }
            }
        }
        if self.loans[i].user_id != borrower || self.loans[i].status != LoanStatus::Approved {
            return Err(AppError::NotFound);
        }
        let k = match self.find_user(borrower) {
            Some(k) => k,
            None => return Err(AppError::InternalServerError),
        };
        proof {
            assert forall|j: int| 0 <= j < self.users@.len() && #[trigger] self.users@[j].id == borrower implies j == k by {
                if j != k {
                    assert(self.users@[j].id != self.users@[k as int].id);
                }
            }
        }
        let score = match rewarded(self.users[k].reputation_score) {
            Some(v) => v,
            None => return Err(AppError::InternalServerError),
        };
        let ghost old_loans = self.loans@;
        let ghost old_users = self.users@;
        let ghost old_ledger = self.ledger@;
        let current = &self.loans[i];
        let repaid = Loan {
            id: current.id,
            user_id: current.user_id,
            lender_id: current.lender_id,
            amount: current.amount,
            status: LoanStatus::Repaid,
            description: copy_text(&current.description),
            created_at: current.created_at,
            repaid_at: Some(now),
        };
        let u = &self.users[k];
        let raised = User {
            id: u.id,
            username: u.username.clone(),
            email: u.email.clone(),
            password_hash: u.password_hash.clone(),
            reputation_score: score,
            created_at: u.created_at,
        };
        let note = String::from_str("Loan ").concat(uuid_text(loan_id).as_str()).concat(" repaid");
        self.record("REPAYMENT", note, 0, now);
        self.loans.set(i, repaid);
        self.users.set(k, raised);
        proof {
            assert(self.loans@ == old_loans.update(i as int, repaid));
            assert(self.users@ == old_users.update(k as int, raised));
            assert forall|a: int, b: int|
                0 <= a < self.loans@.len() && 0 <= b < self.loans@.len() && a != b implies self.loans@[a].id
                    != self.loans@[b].id by {
                assert(old_loans[a].id == self.loans@[a].id);
                assert(old_loans[b].id == self.loans@[b].id);
            }
            assert forall|a: int| 0 <= a < self.loans@.len() implies loan_consistent(#[trigger] self.loans@[a]) by {
                if a != i {
                    assert(old_loans[a] == self.loans@[a]);
                }
            }
            assert forall|a: int, b: int|
                0 <= a < self.users@.len() && 0 <= b < self.users@.len() && a != b implies {
                &&& self.users@[a].id != self.users@[b].id
                &&& self.users@[a].username@ != self.users@[b].username@
                &&& self.users@[a].email@ != self.users@[b].email@
            } by {
                assert(old_users[a].id == self.users@[a].id);
                assert(old_users[b].id == self.users@[b].id);
                assert(old_users[a].username == self.users@[a].username);
                assert(old_users[b].username == self.users@[b].username);
                assert(old_users[a].email == self.users@[a].email);
                assert(old_users[b].email == self.users@[b].email);
            }
        }
        Ok(())
    }

    /// The marketplace as `viewer` sees it: the pending loans of other
    /// borrowers, each with its borrower's username, in order of creation.
    pub fn get_marketplace(&self, viewer: u128) -> (r: Vec<MarketplaceLoan>)
        requires
            self.wf(),
        ensures
            r@ == market_rows(self.loans@, self.users@, viewer),
    {
        let mut r: Vec<MarketplaceLoan> = Vec::new();
        let mut i: usize = 0;
        while i < self.loans.len()
            invariant
                i <= self.loans@.len(),
                self.wf(),
                r@ == market_rows(self.loans@.subrange(0, i as int), self.users@, viewer),
            decreases self.loans@.len() - i,
        {
            let ghost prefix = self.loans@.subrange(0, i + 1);
            assert(prefix.drop_last() =~= self.loans@.subrange(0, i as int));
            let l = &self.loans[i];
            if l.status == LoanStatus::Pending && l.user_id != viewer {
                match self.find_user(l.user_id) {
                    Some(k) => {
                        let row = MarketplaceLoan {
                            id: l.id,
                            user_id: l.user_id,
                            borrower_username: self.users[k].username.clone(),
                            amount: l.amount,
                            description: copy_text(&l.description),
                            created_at: l.created_at,
                        };
                        proof {
                            let users = self.users@;
                            let c = choose|c: int| 0 <= c < users.len() && #[trigger] users[c].id == l.user_id;
                            if c != k as int {
                                assert(users[c].id != users[k as int].id);
                            }
                            assert(row == market_row(*l, users));
                        }
                        r.push(row);
                    },
                    None => {},
                }
            }
            i = i + 1;
        }
        assert(self.loans@.subrange(0, self.loans@.len() as int) =~= self.loans@);
        r
    }

    /// The loans that `viewer` borrowed or lent, most recently created
    /// first.
    pub fn get_loans(&self, viewer: u128) -> (r: Vec<Loan>)
        ensures
            r@ == loans_by_time(own_loans(self.loans@, viewer)),
            loans_newest_first(r@),
    {
        let mut r: Vec<Loan> = Vec::new();
        let n = self.loans.len();
        let mut i: usize = n;
        while i > 0
            invariant
                n == self.loans@.len(),
                i <= n,
                r@ == loans_by_time(own_loans(self.loans@.subrange(i as int, n as int), viewer)),
            decreases i,
        {
            let ghost rest = self.loans@.subrange(i as int, n as int);
            let ghost longer = self.loans@.subrange(i - 1, n as int);
            assert(longer.drop_first() =~= rest);
            assert(longer[0] == self.loans@[i - 1]);
            let l = &self.loans[i - 1];
            if l.user_id == viewer || l.lender_id == Some(viewer) {
                assert((seq![*l] + own_loans(rest, viewer)).drop_first() =~= own_loans(rest, viewer));
                place_loan_by_time(&mut r, l.duplicate());
            }
            i = i - 1;
        }
        assert(self.loans@.subrange(0, n as int) =~= self.loans@);
        proof {
            lemma_loans_by_time_sorted(own_loans(self.loans@, viewer));
        }
        r
    }
}

} // verus!
