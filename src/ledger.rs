use vstd::prelude::*;
use crate::ids::{fresh_id, signature_for, signature_text};
use crate::model::{LoanStatus, Loan, PlatformStats, PlatformTransaction, Savings};
use crate::platform::Platform;

verus! {

/// `e` is the entry that recording this activity at time `now` appends.
pub open spec fn ledger_entry(e: PlatformTransaction, kind: Seq<char>, description: Seq<char>, amount: u64, now: u64) -> bool {
    &&& e.activity_type@ == kind
    &&& e.description@ == description
    &&& e.amount == amount
    &&& e.signature@ == signature_text(e.id)
    &&& e.created_at == now
}

/// `after` is `before` with one more entry, recording this activity.
pub open spec fn appended(
    before: Seq<PlatformTransaction>,
    after: Seq<PlatformTransaction>,
    kind: Seq<char>,
    description: Seq<char>,
    amount: u64,
    now: u64,
) -> bool {
    &&& after.len() == before.len() + 1
    &&& after.drop_last() == before
    &&& ledger_entry(after.last(), kind, description, amount, now)
}

pub open spec fn loans_total(loans: Seq<Loan>) -> int
    decreases loans.len(),
{
    if loans.len() == 0 {
        0
    } else {
        loans_total(loans.drop_last()) + loans.last().amount
    }
}

pub open spec fn savings_total(savings: Seq<Savings>) -> int
    decreases savings.len(),
{
    if savings.len() == 0 {
        0
    } else {
        savings_total(savings.drop_last()) + savings.last().amount
    }
}

pub open spec fn pending_count(loans: Seq<Loan>) -> int
    decreases loans.len(),
{
    if loans.len() == 0 {
        0
    } else {
        pending_count(loans.drop_last()) + if loans.last().status == LoanStatus::Pending {
            1int
        } else {
            0
        }
    }
}

/// `s`, ordered newest first, with `x` placed after every entry made no
/// later than it.
pub open spec fn insert_entry_by_time(s: Seq<PlatformTransaction>, x: PlatformTransaction) -> Seq<PlatformTransaction>
    decreases s.len(),
{
    if s.len() == 0 {
        seq![x]
    } else if s[0].created_at < x.created_at {
        seq![x] + s
    } else {
        seq![s[0]] + insert_entry_by_time(s.drop_first(), x)
    }
}

/// `s` ordered by time, newest first; among entries made at the same time,
/// the one appended last comes first.
pub open spec fn entries_by_time(s: Seq<PlatformTransaction>) -> Seq<PlatformTransaction>
    decreases s.len(),
{
    if s.len() == 0 {
        Seq::empty()
    } else {
        insert_entry_by_time(entries_by_time(s.drop_first()), s[0])
    }
}

pub open spec fn entries_newest_first(s: Seq<PlatformTransaction>) -> bool {
    forall|i: int, j: int| 0 <= i < j < s.len() ==> s[i].created_at >= s[j].created_at
}

proof fn lemma_insert_entry_at(s: Seq<PlatformTransaction>, x: PlatformTransaction, p: int)
    requires
        0 <= p <= s.len(),
        forall|k: int| 0 <= k < p ==> s[k].created_at >= x.created_at,
        p < s.len() ==> s[p].created_at < x.created_at,
    ensures
        insert_entry_by_time(s, x) == s.insert(p, x),
    decreases s.len(),
{
    if s.len() == 0 {
        assert(s.insert(p, x) =~= seq![x]);
    } else if p == 0 {
        assert(s.insert(0, x) =~= seq![x] + s);
    } else {
        lemma_insert_entry_at(s.drop_first(), x, p - 1);
        assert(s.insert(p, x) =~= seq![s[0]] + s.drop_first().insert(p - 1, x));
    }
}

proof fn lemma_insert_entry_sorted(s: Seq<PlatformTransaction>, x: PlatformTransaction)
    requires
        entries_newest_first(s),
    ensures
        entries_newest_first(insert_entry_by_time(s, x)),
        insert_entry_by_time(s, x).len() == s.len() + 1,
        insert_entry_by_time(s, x)[0] == if s.len() == 0 || s[0].created_at < x.created_at {
            x
        } else {
            s[0]
        },
    decreases s.len(),
{
    if s.len() > 0 && s[0].created_at >= x.created_at {
        let t = s.drop_first();
        lemma_insert_entry_sorted(t, x);
        let r = insert_entry_by_time(t, x);
        assert forall|i: int, j: int| 0 <= i < j < r.len() + 1 implies (seq![s[0]] + r)[i].created_at >= (seq![
            s[0]] + r)[j].created_at by {
            if i == 0 {
                assert(r[0].created_at >= r[j - 1].created_at || j - 1 == 0);
            }
        }
    }
}

proof fn lemma_entries_by_time(s: Seq<PlatformTransaction>)
    ensures
        entries_newest_first(entries_by_time(s)),
        entries_by_time(s).len() == s.len(),
    decreases s.len(),
{
    if s.len() > 0 {
        lemma_entries_by_time(s.drop_first());
        lemma_insert_entry_sorted(entries_by_time(s.drop_first()), s[0]);
    }
}

/// Places `x` in `v`, kept newest first, after every entry made no later.
fn place_entry_by_time(v: &mut Vec<PlatformTransaction>, x: PlatformTransaction)
    ensures
        final(v)@ == insert_entry_by_time(old(v)@, x),
{
    let mut p: usize = 0;
    while p < v.len() && v[p].created_at >= x.created_at
        invariant
            v@ == old(v)@,
            p <= v@.len(),
            forall|k: int| 0 <= k < p ==> v@[k].created_at >= x.created_at,
        decreases v@.len() - p,
    {
        p = p + 1;
    }
    proof {
        lemma_insert_entry_at(v@, x, p as int);
    }
    v.insert(p, x);
}

impl Platform {
    /// Appends an entry to the platform ledger and returns its signature, an
    /// opaque display-only correlation id. Auditing is best effort: nothing
    /// here can fail the operation that records.
    pub fn record(&mut self, kind: &str, description: String, amount: u64, now: u64) -> (r: String)
        requires
            old(self).wf(),
        ensures
            final(self).wf(),
            appended(old(self).ledger@, final(self).ledger@, kind@, description@, amount, now),
            r@ == final(self).ledger@.last().signature@,
            final(self).users == old(self).users,
            final(self).loans == old(self).loans,
            final(self).savings == old(self).savings,
            final(self).savings_transactions == old(self).savings_transactions,
            final(self).signing_key == old(self).signing_key,
    {
        let id = fresh_id();
        let signature = signature_for(id);
        let entry = PlatformTransaction {
            id,
            activity_type: String::from_str(kind),
            description,
            amount,
            signature: signature.clone(),
            created_at: now,
        };
        let ghost before = self.ledger@;
        self.ledger.push(entry);
        assert(self.ledger@.drop_last() =~= before);
        signature
    }

    /// The `limit` most recent ledger entries by time, newest first.
    pub fn recent(&self, limit: usize) -> (r: Vec<PlatformTransaction>)
        ensures
            r@ == entries_by_time(self.ledger@).take(
                if limit < self.ledger@.len() { limit as int } else { self.ledger@.len() as int },
            ),
            entries_newest_first(r@),
    {
        let mut all: Vec<PlatformTransaction> = Vec::new();
        let n = self.ledger.len();
        let mut i: usize = n;
        while i > 0
            invariant
                n == self.ledger@.len(),
                i <= n,
                all@ == entries_by_time(self.ledger@.subrange(i as int, n as int)),
            decreases i,
        {
            let ghost rest = self.ledger@.subrange(i as int, n as int);
            let ghost longer = self.ledger@.subrange(i - 1, n as int);
            assert(longer.drop_first() =~= rest);
            assert(longer[0] == self.ledger@[i - 1]);
            place_entry_by_time(&mut all, self.ledger[i - 1].duplicate());
            i = i - 1;
        }
        assert(self.ledger@.subrange(0, n as int) =~= self.ledger@);
        proof {
            lemma_entries_by_time(self.ledger@);
        }
        let ghost sorted = all@;
        let mut r: Vec<PlatformTransaction> = Vec::new();
        let mut k: usize = 0;
        while k < all.len() && k < limit
            invariant
                all@ == sorted,
                sorted.len() == n,
                k <= n,
                k <= limit,
                r@ == sorted.take(k as int),
            decreases n - k,
        {
            assert(sorted.take(k + 1) =~= sorted.take(k as int).push(sorted[k as int]));
            r.push(all[k].duplicate());
            k = k + 1;
        }
        assert(r@ =~= sorted.take(k as int));
        assert forall|a: int, b: int| 0 <= a < b < r@.len() implies r@[a].created_at >= r@[b].created_at by {
            assert(r@[a] == sorted[a] && r@[b] == sorted[b]);
        }
        r
    }

    /// Counts of users and pending loans, and the sums of loan amounts and of
    /// savings balances, in cents.
    pub fn stats(&self) -> (r: PlatformStats)
        ensures
            r.total_users == self.users@.len(),
            r.total_loans_value == loans_total(self.loans@),
            r.total_savings_value == savings_total(self.savings@),
            r.active_p2p_deals == pending_count(self.loans@),
    {
        let mut loans_value: u128 = 0;
        let mut pending: u64 = 0;
        let mut i: usize = 0;
        while i < self.loans.len()
            invariant
                i <= self.loans@.len(),
                loans_value == loans_total(self.loans@.subrange(0, i as int)),
                loans_value <= i * 0xffff_ffff_ffff_ffffu64,
                pending == pending_count(self.loans@.subrange(0, i as int)),
                pending <= i,
            decreases self.loans@.len() - i,
        {
            assert(self.loans@.subrange(0, i + 1).drop_last() =~= self.loans@.subrange(0, i as int));
            proof {
                assert((i + 1) * 0xffff_ffff_ffff_ffffu64 == i * 0xffff_ffff_ffff_ffffu64 + 0xffff_ffff_ffff_ffffu64) by (nonlinear_arith);
                assert(i * 0xffff_ffff_ffff_ffffu64 <= 0xffff_ffff_ffff_ffffu64 * 0xffff_ffff_ffff_ffffu64) by (nonlinear_arith)
                    requires i <= 0xffff_ffff_ffff_ffffu64;
            }
            loans_value = loans_value + self.loans[i].amount as u128;
            if self.loans[i].status == LoanStatus::Pending {
                pending = pending + 1;
            }
            i = i + 1;
        }
        assert(self.loans@.subrange(0, self.loans@.len() as int) =~= self.loans@);
        let mut savings_value: u128 = 0;
        let mut j: usize = 0;
        while j < self.savings.len()
            invariant
                j <= self.savings@.len(),
                savings_value == savings_total(self.savings@.subrange(0, j as int)),
                savings_value <= j * 0xffff_ffff_ffff_ffffu64,
            decreases self.savings@.len() - j,
        {
            assert(self.savings@.subrange(0, j + 1).drop_last() =~= self.savings@.subrange(0, j as int));
            proof {
                assert((j + 1) * 0xffff_ffff_ffff_ffffu64 == j * 0xffff_ffff_ffff_ffffu64 + 0xffff_ffff_ffff_ffffu64) by (nonlinear_arith);
                assert(j * 0xffff_ffff_ffff_ffffu64 <= 0xffff_ffff_ffff_ffffu64 * 0xffff_ffff_ffff_ffffu64) by (nonlinear_arith)
                    requires j <= 0xffff_ffff_ffff_ffffu64;
            }
            savings_value = savings_value + self.savings[j].amount as u128;
            j = j + 1;
        }
        assert(self.savings@.subrange(0, self.savings@.len() as int) =~= self.savings@);
        PlatformStats {
            total_users: self.users.len() as u64,
            total_loans_value: loans_value,
            total_savings_value: savings_value,
            active_p2p_deals: pending,
        }
    }
}

} // verus!
