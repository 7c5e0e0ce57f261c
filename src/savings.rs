use vstd::prelude::*;
use crate::error::AppError;
use crate::ids::fresh_id;
use crate::ledger::appended;
use crate::model::{copy_text, deposits_total, lemma_deposits_total_absent, Savings, SavingsTransaction};
use crate::platform::{has_savings, Platform};
use crate::services::{attempt_side_call, MpesaService};

verus! {

/// `s` is the empty goal that `owner` opens at time `now`.
pub open spec fn new_goal_record(s: Savings, id: u128, owner: u128, goal_name: String, now: u64) -> bool {
    &&& s.id == id
    &&& s.user_id == owner
    &&& s.amount == 0
    &&& s.goal_name == Some(goal_name)
    &&& s.created_at == now
    &&& s.updated_at == now
}

/// `t` is the audit row of a deposit of `amount` into goal `sid` at `now`.
pub open spec fn deposit_row(t: SavingsTransaction, sid: u128, amount: u64, now: u64) -> bool {
    &&& t.savings_id == sid
    &&& t.amount == amount
    &&& t.transaction_type@ == "deposit"@
    &&& t.created_at == now
}

/// The savings goals of `owner`, in order of creation.
pub open spec fn goals_of(savings: Seq<Savings>, owner: u128) -> Seq<Savings>
    decreases savings.len(),
{
    if savings.len() == 0 {
        Seq::empty()
    } else {
        let rest = goals_of(savings.drop_last(), owner);
        if savings.last().user_id == owner {
            rest.push(savings.last())
        } else {
            rest
        }
    }
}

impl Platform {
    /// Stores the empty savings goal `id` of `owner`: the step of
    /// `create_savings` that follows the drawing of the identity. An
    /// identity already in use is a store failure, and then nothing changes.
    pub fn insert_savings(&mut self, id: u128, owner: u128, goal_name: String, now: u64) -> (r: Result<u128, AppError>)
        requires
            old(self).wf(),
        ensures
            final(self).wf(),
            has_savings(old(self).savings@, id) ==> r == Err::<u128, AppError>(AppError::InternalServerError)
                && *final(self) == *old(self),
            !has_savings(old(self).savings@, id) ==> r == Ok::<u128, AppError>(id),
            r is Ok ==> {
                &&& final(self).savings@.len() == old(self).savings@.len() + 1
                &&& final(self).savings@.drop_last() == old(self).savings@
                &&& new_goal_record(final(self).savings@.last(), id, owner, goal_name, now)
                &&& final(self).users == old(self).users
                &&& final(self).loans == old(self).loans
                &&& final(self).savings_transactions == old(self).savings_transactions
                &&& final(self).ledger == old(self).ledger
                &&& final(self).signing_key == old(self).signing_key
            },
    {
        if self.find_savings(id).is_some() {
            return Err(AppError::InternalServerError);
        }
        let goal = Savings {
            id,
            user_id: owner,
            amount: 0,
            goal_name: Some(goal_name),
            created_at: now,
            updated_at: now,
        };
        let ghost before = self.savings@;
        let ghost txs = self.savings_transactions@;
        proof {
            assert forall|k: int| 0 <= k < txs.len() implies #[trigger] txs[k].savings_id != id by {
                assert(has_savings(before, txs[k].savings_id));
            }
            lemma_deposits_total_absent(txs, id);
        }
        self.savings.push(goal);
        proof {
            assert(self.savings@.drop_last() =~= before);
            assert forall|a: int, b: int|
                0 <= a < self.savings@.len() && 0 <= b < self.savings@.len() && a != b implies self.savings@[a].id
                    != self.savings@[b].id by {
                if a < before.len() {
                    assert(before[a] == self.savings@[a]);
                }
                if b < before.len() {
                    assert(before[b] == self.savings@[b]);
                }
            }
            assert forall|a: int| 0 <= a < self.savings@.len() implies #[trigger] self.savings@[a].amount
                == deposits_total(txs, self.savings@[a].id) by {
                if a < before.len() {
                    assert(before[a] == self.savings@[a]);
                }
            }
            assert forall|k: int| 0 <= k < txs.len() implies has_savings(self.savings@, #[trigger] txs[k].savings_id) by {
                let c = choose|c: int| 0 <= c < before.len() && #[trigger] before[c].id == txs[k].savings_id;
                assert(self.savings@[c] == before[c]);
            }
        }
        Ok(id)
    }

    /// Opens an empty savings goal for `owner`. The goal's identity is drawn
    /// at random; only a draw that hits an identity in use fails the store.
    pub fn create_savings(&mut self, owner: u128, goal_name: String, now: u64) -> (r: Result<u128, AppError>)
        requires
            old(self).wf(),
        ensures
            final(self).wf(),
            r is Err ==> r == Err::<u128, AppError>(AppError::InternalServerError) && *final(self)
                == *old(self) && old(self).savings@.len() > 0,
            r matches Ok(id) ==> {
                &&& !has_savings(old(self).savings@, id)
                &&& final(self).savings@.len() == old(self).savings@.len() + 1
                &&& final(self).savings@.drop_last() == old(self).savings@
                &&& new_goal_record(final(self).savings@.last(), id, owner, goal_name, now)
                &&& final(self).users == old(self).users
                &&& final(self).loans == old(self).loans
                &&& final(self).savings_transactions == old(self).savings_transactions
                &&& final(self).ledger == old(self).ledger
                &&& final(self).signing_key == old(self).signing_key
            },
    {
        self.insert_savings(fresh_id(), owner, goal_name, now)
    }

    /// Deposits `amount` cents into goal `savings_id`. When a phone number is
    /// given, a payment prompt is first pushed to it; its outcome does not
    /// hold the deposit back. The balance increment, the goal's audit row and
    /// the ledger entry are made together: on any failure nothing changes.
    pub fn deposit(&mut self, savings_id: u128, amount: u64, phone_number: Option<&str>, now: u64) -> (r:
        Result<(), AppError>)
        requires
            old(self).wf(),
        ensures
            final(self).wf(),
            r is Err ==> *final(self) == *old(self),
            amount == 0 ==> (r matches Err(AppError::BadRequest(_))),
            amount > 0 && !has_savings(old(self).savings@, savings_id) ==> r == Err::<(), AppError>(
                AppError::InternalServerError,
            ),
            forall|i: int|
                0 <= i < old(self).savings@.len() && #[trigger] old(self).savings@[i].id == savings_id
                    && amount > 0 ==> if old(self).savings@[i].amount + amount > u64::MAX {
                    r == Err::<(), AppError>(AppError::InternalServerError)
                } else {
                    r is Ok
                },
            r is Ok ==> exists|i: int|
                0 <= i < old(self).savings@.len() && #[trigger] old(self).savings@[i].id == savings_id
                    && final(self).savings@.len() == old(self).savings@.len()
                    && (forall|j: int| 0 <= j < old(self).savings@.len() && j != i ==> final(self).savings@[j]
                        == old(self).savings@[j])
                    && final(self).savings@[i] == (Savings {
                    amount: (old(self).savings@[i].amount + amount) as u64,
                    updated_at: now,
                    ..old(self).savings@[i]
                }),
            r is Ok ==> {
                &&& final(self).savings_transactions@.len() == old(self).savings_transactions@.len() + 1
                &&& final(self).savings_transactions@.drop_last() == old(self).savings_transactions@
                &&& deposit_row(final(self).savings_transactions@.last(), savings_id, amount, now)
                &&& appended(old(self).ledger@, final(self).ledger@, "SAVINGS_DEPOSIT"@, "Deposit to savings goal"@, amount, now)
                &&& final(self).users == old(self).users
                &&& final(self).loans == old(self).loans
                &&& final(self).signing_key == old(self).signing_key
            },
    {
        if amount == 0 {
            return Err(AppError::bad_request("Deposit amount must be positive"));
        }
        match phone_number {
            Some(phone) => attempt_side_call(MpesaService::initiate_stk_push(phone, amount)),
            None => {},
        }
        let i = match self.find_savings(savings_id) {
            Some(i) => i,
            None => return Err(AppError::InternalServerError),
        };
        proof {
            assert forall|j: int| 0 <= j < self.savings@.len() && #[trigger] self.savings@[j].id == savings_id implies j == i by {
                if j != i {
                    assert(self.savings@[j].id != self.savings@[i as int].id);
                }
            }
        }
        let balance = match self.savings[i].amount.checked_add(amount) {
            Some(b) => b,
            None => return Err(AppError::InternalServerError),
        };
        let ghost old_savings = self.savings@;
        let ghost old_txs = self.savings_transactions@;
        let current = &self.savings[i];
        let updated = Savings {
            id: current.id,
            user_id: current.user_id,
            amount: balance,
            goal_name: copy_text(&current.goal_name),
            created_at: current.created_at,
            updated_at: now,
        };
        let row = SavingsTransaction {
            id: fresh_id(),
            savings_id,
            amount,
            transaction_type: String::from_str("deposit"),
            created_at: now,
        };
        self.record("SAVINGS_DEPOSIT", String::from_str("Deposit to savings goal"), amount, now);
        self.savings.set(i, updated);
        self.savings_transactions.push(row);
        proof {
            let txs = self.savings_transactions@;
            assert(txs.drop_last() =~= old_txs);
            assert(self.savings@ == old_savings.update(i as int, updated));
            assert forall|a: int, b: int|
                0 <= a < self.savings@.len() && 0 <= b < self.savings@.len() && a != b implies self.savings@[a].id
                    != self.savings@[b].id by {
                assert(old_savings[a].id == self.savings@[a].id);
                assert(old_savings[b].id == self.savings@[b].id);
            }
            assert forall|a: int| 0 <= a < self.savings@.len() implies #[trigger] self.savings@[a].amount
                == deposits_total(txs, self.savings@[a].id) by {
                assert(deposits_total(txs, self.savings@[a].id) == deposits_total(old_txs, self.savings@[a].id)
                    + if self.savings@[a].id == savings_id { amount as int } else { 0 });
                if a != i {
                    assert(old_savings[a] == self.savings@[a]);
                    assert(old_savings[a].id != old_savings[i as int].id);
                }
            }
            assert forall|k: int| 0 <= k < txs.len() implies has_savings(self.savings@, #[trigger] txs[k].savings_id) by {
                if k < old_txs.len() {
                    assert(txs[k] == old_txs[k]);
                    let c = choose|c: int| 0 <= c < old_savings.len() && #[trigger] old_savings[c].id == txs[k].savings_id;
                    assert(self.savings@[c].id == old_savings[c].id);
                } else {
                    assert(self.savings@[i as int].id == savings_id);
                }
            }
        }
        Ok(())
    }

    /// The savings goals of `owner`, in order of creation.
    pub fn get_savings(&self, owner: u128) -> (r: Vec<&Savings>)
        ensures
            r@.map_values(|s: &Savings| *s) == goals_of(self.savings@, owner),
    {
        let mut r: Vec<&Savings> = Vec::new();
        let mut i: usize = 0;
        while i < self.savings.len()
            invariant
                i <= self.savings@.len(),
                r@.map_values(|s: &Savings| *s) == goals_of(self.savings@.subrange(0, i as int), owner),
            decreases self.savings@.len() - i,
        {
            assert(self.savings@.subrange(0, i + 1).drop_last() =~= self.savings@.subrange(0, i as int));
            let s = &self.savings[i];
            if s.user_id == owner {
                let ghost before = r@;
                r.push(s);
                assert(r@.map_values(|x: &Savings| *x) =~= before.map_values(|x: &Savings| *x).push(*s));
            }
            i = i + 1;
        }
        assert(self.savings@.subrange(0, self.savings@.len() as int) =~= self.savings@);
        r
    }
}

} // verus!
