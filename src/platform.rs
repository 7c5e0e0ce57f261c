use vstd::prelude::*;
use crate::error::AppError;
use crate::model::{
    deposits_total, loan_consistent, Loan, PlatformTransaction, Savings, SavingsTransaction, User,
};

verus! {

/// The platform's store: users, loans, savings goals with their audit trails,
/// and the platform ledger, with the key that signs session tokens.
pub struct Platform {
    pub users: Vec<User>,
    pub loans: Vec<Loan>,
    pub savings: Vec<Savings>,
    pub savings_transactions: Vec<SavingsTransaction>,
    pub ledger: Vec<PlatformTransaction>,
    pub signing_key: Vec<u8>,
}

pub open spec fn users_distinct(users: Seq<User>) -> bool {
    forall|i: int, j: int|
        #![trigger users[i], users[j]]
        0 <= i < users.len() && 0 <= j < users.len() && i != j ==> {
            &&& users[i].id != users[j].id
            &&& users[i].username@ != users[j].username@
            &&& users[i].email@ != users[j].email@
        }
}

pub open spec fn loans_distinct(loans: Seq<Loan>) -> bool {
    forall|i: int, j: int|
        #![trigger loans[i], loans[j]]
        0 <= i < loans.len() && 0 <= j < loans.len() && i != j ==> loans[i].id != loans[j].id
}

pub open spec fn savings_distinct(savings: Seq<Savings>) -> bool {
    forall|i: int, j: int|
        #![trigger savings[i], savings[j]]
        0 <= i < savings.len() && 0 <= j < savings.len() && i != j ==> savings[i].id
            != savings[j].id
}

pub open spec fn has_savings(savings: Seq<Savings>, sid: u128) -> bool {
    exists|i: int| 0 <= i < savings.len() && #[trigger] savings[i].id == sid
}

/// Each goal's balance is the sum of its recorded deposits, and each recorded
/// deposit belongs to a goal.
pub open spec fn savings_balanced(savings: Seq<Savings>, txs: Seq<SavingsTransaction>) -> bool {
    &&& forall|i: int|
        0 <= i < savings.len() ==> #[trigger] savings[i].amount == deposits_total(
            txs,
            savings[i].id,
        )
    &&& forall|k: int| 0 <= k < txs.len() ==> has_savings(savings, #[trigger] txs[k].savings_id)
}

pub open spec fn user_exists(users: Seq<User>, id: u128) -> bool {
    exists|i: int| 0 <= i < users.len() && #[trigger] users[i].id == id
}

pub open spec fn loan_exists(loans: Seq<Loan>, id: u128) -> bool {
    exists|i: int| 0 <= i < loans.len() && #[trigger] loans[i].id == id
}

/// Some user already holds this username or this e-mail address.
pub open spec fn name_taken(users: Seq<User>, username: Seq<char>, email: Seq<char>) -> bool {
    exists|i: int|
        #![trigger users[i]]
        0 <= i < users.len() && (users[i].username@ == username || users[i].email@ == email)
}

impl Platform {
    /// The store's invariant.
    pub open spec fn wf(&self) -> bool {
        &&& users_distinct(self.users@)
        &&& loans_distinct(self.loans@)
        &&& forall|i: int| 0 <= i < self.loans@.len() ==> loan_consistent(#[trigger] self.loans@[i])
        &&& savings_distinct(self.savings@)
        &&& savings_balanced(self.savings@, self.savings_transactions@)
    }

    /// An empty store that signs tokens with `signing_key`. An empty key is
    /// refused: the platform does not run without a configured secret.
    pub fn new(signing_key: Vec<u8>) -> (r: Option<Platform>)
        ensures
            r is Some <==> signing_key@.len() > 0,
            r matches Some(p) ==> {
                &&& p.wf()
                &&& p.users@.len() == 0
                &&& p.loans@.len() == 0
                &&& p.savings@.len() == 0
                &&& p.savings_transactions@.len() == 0
                &&& p.ledger@.len() == 0
                &&& p.signing_key@ == signing_key@
            },
    {
        if signing_key.len() == 0 {
            return None;
        }
        Some(
            Platform {
                users: Vec::new(),
                loans: Vec::new(),
                savings: Vec::new(),
                savings_transactions: Vec::new(),
                ledger: Vec::new(),
                signing_key,
            },
        )
    }

    /// The position of the user with identity `id`.
    pub fn find_user(&self, id: u128) -> (r: Option<usize>)
        ensures
            r matches Some(i) ==> i < self.users@.len() && self.users@[i as int].id == id,
            r is None ==> !user_exists(self.users@, id),
    {
        let mut i: usize = 0;
        while i < self.users.len()
            invariant
                i <= self.users@.len(),
                forall|k: int| 0 <= k < i ==> #[trigger] self.users@[k].id != id,
            decreases self.users@.len() - i,
        {
            if self.users[i].id == id {
                return Some(i);
            }
            i = i + 1;
        }
        None
    }

    /// The position of the user called `username`.
    pub fn find_user_by_name(&self, username: &str) -> (r: Option<usize>)
        ensures
            r matches Some(i) ==> i < self.users@.len() && self.users@[i as int].username@
                == username@,
            r is None ==> forall|k: int|
                0 <= k < self.users@.len() ==> #[trigger] self.users@[k].username@ != username@,
    {
        let name = String::from_str(username);
        let mut i: usize = 0;
        while i < self.users.len()
            invariant
                i <= self.users@.len(),
                name@ == username@,
                forall|k: int| 0 <= k < i ==> #[trigger] self.users@[k].username@ != username@,
            decreases self.users@.len() - i,
        {
            if self.users[i].username == name {
                return Some(i);
            }
            i = i + 1;
        }
        None
    }

    /// The position of the loan with identity `id`.
    pub fn find_loan(&self, id: u128) -> (r: Option<usize>)
        ensures
            r matches Some(i) ==> i < self.loans@.len() && self.loans@[i as int].id == id,
            r is None ==> !loan_exists(self.loans@, id),
    {
        let mut i: usize = 0;
        while i < self.loans.len()
            invariant
                i <= self.loans@.len(),
                forall|k: int| 0 <= k < i ==> #[trigger] self.loans@[k].id != id,
            decreases self.loans@.len() - i,
        {
            if self.loans[i].id == id {
                return Some(i);
            }
            i = i + 1;
        }
        None
    }

    /// The position of the savings goal with identity `id`.
    pub fn find_savings(&self, id: u128) -> (r: Option<usize>)
        ensures
            r matches Some(i) ==> i < self.savings@.len() && self.savings@[i as int].id == id,
            r is None ==> !has_savings(self.savings@, id),
    {
        let mut i: usize = 0;
        while i < self.savings.len()
            invariant
                i <= self.savings@.len(),
                forall|k: int| 0 <= k < i ==> #[trigger] self.savings@[k].id != id,
            decreases self.savings@.len() - i,
        {
            if self.savings[i].id == id {
                return Some(i);
            }
            i = i + 1;
        }
        None
    }

    /// Whether some user already holds `username` or `email`.
    pub fn is_name_taken(&self, username: &str, email: &str) -> (r: bool)
        ensures
            r == name_taken(self.users@, username@, email@),
    {
        let name = String::from_str(username);
        let mail = String::from_str(email);
        let mut i: usize = 0;
        while i < self.users.len()
            invariant
                i <= self.users@.len(),
                name@ == username@,
                mail@ == email@,
                forall|k: int|
                    0 <= k < i ==> (#[trigger] self.users@[k]).username@ != username@
                        && self.users@[k].email@ != email@,
            decreases self.users@.len() - i,
        {
            if self.users[i].username == name {
                return true;
            }
            if self.users[i].email == mail {
                return true;
            }
            i = i + 1;
        }
        false
    }

    /// Resolves the caller's identity from an `Authorization` header value
    /// with the platform's signing key.
    pub fn get_user_id_from_req(&self, header: Option<&str>, now: u64) -> (r: Result<u128, AppError>)
        ensures
            r == crate::token::resolve_spec(
                crate::token::header_view(header),
                self.signing_key@,
                now as int,
            ),
    {
        crate::token::resolve_identity(header, self.signing_key.as_slice(), now)
    }
}

} // verus!
