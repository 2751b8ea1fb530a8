//! The business layer over the repository: e-mail validation, creation,
//! lookup and listing.

use crate::json::all_digits;
use crate::json::dec_val;
use crate::json::parse_u64;
use crate::json::users_views;
use crate::user::NewUser;
use crate::user::User;
use crate::user::UserV;
use crate::warehouse::db::email_taken;
use crate::warehouse::db::repo_wf;
use crate::warehouse::UserRepoError;
use crate::warehouse::UserRepository;
use vstd::prelude::*;

verus! {

/// Why a service call failed.
#[derive(Debug, Clone, PartialEq, Eq)]
pub enum ServiceError {
    /// The store refused the creation: the e-mail is already registered.
    EmailTaken(UserRepoError),
    /// This user was not found.
    UserNotFound(UserRepoError),
    /// The provided e-mail or user id was malformed.
    ValidationError(String),
}

/// An e-mail address the service accepts: at least five characters.
pub open spec fn valid_email(s: Seq<char>) -> bool {
    s.len() >= 5
}

/// A user id as it appears in a request path: a non-empty digit string
/// whose value fits in a `u64`.
pub open spec fn valid_id(s: Seq<char>) -> bool {
    s.len() >= 1 && all_digits(s) && 0 <= dec_val(s) <= u64::MAX
}

/// The business layer; owns the repository.
#[derive(Debug, Clone)]
pub struct Service {
    pub db: UserRepository,
}

impl View for Service {
    type V = Seq<UserV>;

    open spec fn view(&self) -> Seq<UserV> {
        self.db@
    }
}

impl Service {
    pub fn new(db: UserRepository) -> (r: Self)
        ensures
            r@ == db@,
    {
        Self { db }
    }

    /// The service's e-mail rule: fails on addresses shorter than five
    /// characters.
    fn validate_email(email: &String) -> (r: Result<(), ServiceError>)
        ensures
            match r {
                Ok(()) => valid_email(email@),
                Err(e) => !valid_email(email@) && (e matches ServiceError::ValidationError(m)
                    && m@ == "Email Empty"@),
            },
    {
        let n = email.as_str().unicode_len();
        let invalid_email = n == 0 || n < 5;
        if invalid_email {
            return Err(ServiceError::ValidationError(String::from_str("Email Empty")));
        }
        Ok(())
    }

    /// Creates a user: validates the e-mail, then stores it unless the
    /// address is taken. On success the new user is appended to the
    /// store, with the next id.
    pub fn create(&mut self, new_user: &NewUser) -> (r: Result<User, ServiceError>)
        requires
            repo_wf(old(self)@),
            old(self)@.len() < u64::MAX,
        ensures
            repo_wf(final(self)@),
            match r {
                Ok(u) => valid_email(new_user@.email) && !email_taken(
                    old(self)@,
                    new_user@.email,
                ) && u@ == (UserV {
                    id: (old(self)@.len() + 1) as u64,
                    email: new_user@.email,
                }) && final(self)@ == old(self)@.push(u@),
                Err(e) => final(self)@ == old(self)@ && match e {
                    ServiceError::ValidationError(_) => !valid_email(new_user@.email),
                    ServiceError::EmailTaken(_) => valid_email(new_user@.email) && email_taken(
                        old(self)@,
                        new_user@.email,
                    ),
                    ServiceError::UserNotFound(_) => false,
                },
            },
    {
        match Self::validate_email(&new_user.email) {
            Err(e) => Err(e),
            Ok(()) => match self.db.create(new_user) {
                Ok(u) => Ok(u),
                Err(e) => Err(ServiceError::EmailTaken(e)),
            },
        }
    }

    /// The user named by the path segment `id`: rejects anything but a
    /// digit string, then looks the number up in the store.
    pub fn get(&self, id: &str) -> (r: Result<User, ServiceError>)
        requires
            repo_wf(self@),
        ensures
            match r {
                Ok(u) => valid_id(id@) && 1 <= dec_val(id@) <= self@.len() && u@ == self@[dec_val(
                    id@,
                ) - 1],
                Err(e) => match e {
                    ServiceError::ValidationError(_) => !valid_id(id@),
                    ServiceError::UserNotFound(inner) => valid_id(id@) && !(1 <= dec_val(id@)
                        <= self@.len()) && inner == UserRepoError::UserNotFound(
                        dec_val(id@) as u64,
                    ),
                    ServiceError::EmailTaken(_) => false,
                },
            },
    {
        match parse_u64(id) {
            None => Err(
                ServiceError::ValidationError(String::from_str("not a valid user id")),
            ),
            Some(n) => match self.db.get(n) {
                Ok(u) => Ok(u),
                Err(e) => Err(ServiceError::UserNotFound(e)),
            },
        }
    }

    /// All users, in the store's order.
    pub fn list(&self) -> (r: Result<Vec<User>, ServiceError>)
        ensures
            r is Ok,
            users_views(r->Ok_0@) == self@,
    {
        match self.db.list() {
            Ok(users) => Ok(users),
            Err(_) => vstd::pervasive::unreached(),
        }
    }
}

} // verus!
