use vstd::prelude::*;
use crate::credentials::{
    argon2_accepts, hash_of, hash_password, phc_well_formed, registration_valid,
    validate_registration, verify_password, MAX_PASSWORD_CHARS,
};
use crate::error::AppError;
use crate::ids::fresh_id;
use crate::model::User;
use crate::platform::{name_taken, user_exists, Platform};
use crate::token::{issue_token, issued, TOKEN_LIFETIME_SECS};
use crate::trust::INITIAL_REPUTATION;

verus! {

/// `u` is the record a registration with these fields creates at time `now`.
pub open spec fn new_user_record(
    u: User,
    username: Seq<char>,
    email: Seq<char>,
    password: Seq<char>,
    now: u64,
) -> bool {
    &&& u.username@ == username
    &&& u.email@ == email
    &&& hash_of(u.password_hash@, password)
    &&& u.reputation_score == INITIAL_REPUTATION
    &&& u.created_at == now
}

/// Once a user is registered under `username` and `email`, every later
/// registration that repeats either of them is one that `register` refuses
/// with `Conflict`, leaving the store, and so that user's record, unchanged.
pub proof fn lemma_duplicate_registration(
    users: Seq<User>,
    k: int,
    other_username: Seq<char>,
    other_email: Seq<char>,
)
    requires
        0 <= k < users.len(),
    ensures
        name_taken(users, users[k].username@, other_email),
        name_taken(users, other_username, users[k].email@),
{
}

impl Platform {
    /// Stores the user `id`, whose fields are already checked and whose
    /// password is already hashed, and signs them in: the step of `register`
    /// that follows the drawing of the identity. An identity already in use
    /// is a store failure, as is a token that cannot be signed.
    pub fn insert_user(&mut self, id: u128, username: &str, email: &str, password_hash: String, now: u64) -> (r:
        Result<(String, u128), AppError>)
        requires
            old(self).wf(),
            !name_taken(old(self).users@, username@, email@),
        ensures
            final(self).wf(),
            final(self).signing_key == old(self).signing_key,
            r is Err ==> r == Err::<(String, u128), AppError>(AppError::InternalServerError) && *final(self)
                == *old(self),
            user_exists(old(self).users@, id) ==> r is Err,
            !user_exists(old(self).users@, id) && now + TOKEN_LIFETIME_SECS <= u64::MAX ==> r is Ok,
            now + TOKEN_LIFETIME_SECS > u64::MAX ==> r is Err,
            r matches Ok((t, i)) ==> {
                &&& i == id
                &&& issued(t@, id, now, old(self).signing_key@)
                &&& final(self).users@.len() == old(self).users@.len() + 1
                &&& final(self).users@.drop_last() == old(self).users@
                &&& final(self).users@.last().id == id
                &&& final(self).users@.last().username@ == username@
                &&& final(self).users@.last().email@ == email@
                &&& final(self).users@.last().password_hash == password_hash
                &&& final(self).users@.last().reputation_score == INITIAL_REPUTATION
                &&& final(self).users@.last().created_at == now
                &&& final(self).loans == old(self).loans
                &&& final(self).savings == old(self).savings
                &&& final(self).savings_transactions == old(self).savings_transactions
                &&& final(self).ledger == old(self).ledger
            },
    {
        if self.find_user(id).is_some() {
            return Err(AppError::InternalServerError);
        }
        let token = issue_token(id, now, self.signing_key.as_slice())?;
        let user = User {
            id,
            username: String::from_str(username),
            email: String::from_str(email),
            password_hash,
            reputation_score: INITIAL_REPUTATION,
            created_at: now,
        };
        let ghost old_users = self.users@;
        self.users.push(user);
        proof {
            assert(self.users@.drop_last() =~= old_users);
            assert forall|i: int, j: int|
                0 <= i < self.users@.len() && 0 <= j < self.users@.len() && i != j implies {
                &&& self.users@[i].id != self.users@[j].id
                &&& self.users@[i].username@ != self.users@[j].username@
                &&& self.users@[i].email@ != self.users@[j].email@
            } by {
                if i == old_users.len() as int {
                    assert(old_users[j] == self.users@[j]);
                } else if j == old_users.len() as int {
                    assert(old_users[i] == self.users@[i]);
                } else {
                    assert(old_users[i] == self.users@[i]);
                    assert(old_users[j] == self.users@[j]);
                }
            }
        }
        Ok((token, id))
    }

    /// Registers a user and signs them in. A username or e-mail address that
    /// is already held is refused with `Conflict`; a malformed registration
    /// with `BadRequest`. The password is stored salted and hashed, and the
    /// user starts with a reputation of 100. The identity is drawn at
    /// random; only a draw that hits an identity in use fails the store.
    pub fn register(&mut self, username: &str, email: &str, password: &str, now: u64) -> (r:
        Result<(String, u128), AppError>)
        requires
            old(self).wf(),
        ensures
            final(self).wf(),
            final(self).signing_key == old(self).signing_key,
            r matches Err(AppError::Conflict(_)) <==> name_taken(old(self).users@, username@, email@),
            r matches Err(AppError::BadRequest(_)) <==> !name_taken(old(self).users@, username@, email@)
                && !registration_valid(username@, email@, password@),
            r is Err ==> *final(self) == *old(self),
            r matches Ok((t, id)) ==> {
                &&& !user_exists(old(self).users@, id)
                &&& issued(t@, id, now, old(self).signing_key@)
                &&& final(self).users@.len() == old(self).users@.len() + 1
                &&& final(self).users@.drop_last() == old(self).users@
                &&& final(self).users@.last().id == id
                &&& new_user_record(final(self).users@.last(), username@, email@, password@, now)
                &&& final(self).loans == old(self).loans
                &&& final(self).savings == old(self).savings
                &&& final(self).savings_transactions == old(self).savings_transactions
                &&& final(self).ledger == old(self).ledger
            },
            !name_taken(old(self).users@, username@, email@) && registration_valid(
                username@,
                email@,
                password@,
            ) && password@.len() <= MAX_PASSWORD_CHARS && now + TOKEN_LIFETIME_SECS <= u64::MAX ==> r is Ok
                || (r == Err::<(String, u128), AppError>(AppError::InternalServerError) && old(self).users@.len()
                > 0),
            !name_taken(old(self).users@, username@, email@) && registration_valid(
                username@,
                email@,
                password@,
            ) && now + TOKEN_LIFETIME_SECS > u64::MAX ==> r == Err::<(String, u128), AppError>(
                AppError::InternalServerError,
            ),
    {
        if self.is_name_taken(username, email) {
            return Err(AppError::conflict("Username or email already exists"));
        }
        validate_registration(username, email, password)?;
        let password_hash = hash_password(password)?;
        let id = fresh_id();
        self.insert_user(id, username, email, password_hash, now)
    }

    /// Signs a user in. An unknown username or a password that does not
    /// verify against the stored hash is refused with `Unauthorized`, and no
    /// token is issued.
    pub fn login(&self, username: &str, password: &str, now: u64) -> (r: Result<(String, u128), AppError>)
        requires
            self.wf(),
        ensures
            (forall|k: int| 0 <= k < self.users@.len() ==> #[trigger] self.users@[k].username@
                != username@) ==> r == Err::<(String, u128), AppError>(AppError::Unauthorized),
            forall|k: int|
                0 <= k < self.users@.len() && #[trigger] self.users@[k].username@ == username@ ==> {
                    let stored = self.users@[k].password_hash@;
                    &&& !phc_well_formed(stored) ==> r == Err::<(String, u128), AppError>(
                        AppError::InternalServerError,
                    )
                    &&& phc_well_formed(stored) && !argon2_accepts(password@, stored) ==> r == Err::<
                        (String, u128),
                        AppError,
                    >(AppError::Unauthorized)
                    &&& phc_well_formed(stored) && argon2_accepts(password@, stored) && now
                        + TOKEN_LIFETIME_SECS <= u64::MAX ==> (r matches Ok((t, id)) && id
                        == self.users@[k].id && issued(t@, id, now, self.signing_key@))
                    &&& phc_well_formed(stored) && argon2_accepts(password@, stored) && now
                        + TOKEN_LIFETIME_SECS > u64::MAX ==> r == Err::<(String, u128), AppError>(
                        AppError::InternalServerError,
                    )
                },
    {
        let i = match self.find_user_by_name(username) {
            Some(i) => i,
            None => return Err(AppError::Unauthorized),
        };
        let user = &self.users[i];
        if !verify_password(password, user.password_hash.as_str())? {
            return Err(AppError::Unauthorized);
        }
        let token = issue_token(user.id, now, self.signing_key.as_slice())?;
        Ok((token, user.id))
    }

    /// The username, e-mail address and reputation of user `id`.
    pub fn get_profile(&self, id: u128) -> (r: Result<(String, String, i32), AppError>)
        requires
            self.wf(),
        ensures
            !user_exists(self.users@, id) ==> r == Err::<(String, String, i32), AppError>(
                AppError::NotFound,
            ),
            forall|k: int|
                0 <= k < self.users@.len() && #[trigger] self.users@[k].id == id ==> (r matches Ok(
                    (name, mail, score),
                ) && name@ == self.users@[k].username@ && mail@ == self.users@[k].email@ && score
                    == self.users@[k].reputation_score),
    {
        match self.find_user(id) {
            Some(i) => {
                let u = &self.users[i];
                Ok((u.username.clone(), u.email.clone(), u.reputation_score))
            },
            None => Err(AppError::NotFound),
        }
    }
}

} // verus!
