//! The in-memory user store: create with a uniqueness rule on the
//! e-mail, get by id, list.

use crate::json::users_views;
use crate::user::NewUser;
use crate::user::User;
use crate::user::UserV;
use vstd::prelude::*;

verus! {

/// What the store keeps in order: ids are handed out as one plus the
/// number of users already stored, so the user at position `i` has id
/// `i + 1`; and no two users share an e-mail address.
pub open spec fn repo_wf(r: Seq<UserV>) -> bool {
    &&& forall|i: int| 0 <= i < r.len() ==> #[trigger] r[i].id == i + 1
    &&& forall|i: int, j: int|
        0 <= i < j < r.len() ==> #[trigger] r[i].email != #[trigger] r[j].email
}

/// Is some stored user already registered under this e-mail address?
pub open spec fn email_taken(r: Seq<UserV>, email: Seq<char>) -> bool {
    exists|i: int| 0 <= i < r.len() && #[trigger] r[i].email == email
}

/// Why a repository call failed.
#[derive(Debug, Clone, PartialEq, Eq)]
pub enum UserRepoError {
    /// No user has this id.
    UserNotFound(u64),
    /// This e-mail address is already registered.
    EmailTaken(String),
}

/// An in-memory keyed collection of users. Ids are assigned by the store
/// itself, in creation order starting from one.
#[derive(Debug, Clone)]
pub struct UserRepository {
    users: Vec<User>,
}

impl View for UserRepository {
    type V = Seq<UserV>;

    closed spec fn view(&self) -> Seq<UserV> {
        users_views(self.users@)
    }
}

impl Default for UserRepository {
    fn default() -> (r: Self)
        ensures
            r@ == Seq::<UserV>::empty(),
            repo_wf(r@),
    {
        Self::new()
    }
}

impl UserRepository {
    pub fn new() -> (r: Self)
        ensures
            r@ == Seq::<UserV>::empty(),
            repo_wf(r@),
    {
        let r = Self { users: Vec::new() };
        proof {
            assert(r@ =~= Seq::<UserV>::empty());
        }
        r
    }

    /// The id the next created user will get: one more than the count of
    /// stored users.
    fn random_id(&self) -> (r: u64)
        requires
            self@.len() < u64::MAX,
        ensures
            r == self@.len() + 1,
    {
        (self.users.len() as u64) + 1
    }

    /// Is `email` free? Fails with `EmailTaken` when a stored user
    /// already has it.
    fn email_is_available(&self, email: &String) -> (r: Result<(), UserRepoError>)
        ensures
            match r {
                Ok(()) => !email_taken(self@, email@),
                Err(e) => email_taken(self@, email@) && (e matches UserRepoError::EmailTaken(m)
                    && m@ == email@),
            },
    {
        let mut i: usize = 0;
        while i < self.users.len()
            invariant
                i <= self.users@.len(),
                forall|k: int| 0 <= k < i ==> #[trigger] self@[k].email != email@,
            decreases self.users@.len() - i,
        {
            if self.users[i].email == *email {
                proof {
                    assert(self@[i as int].email == email@);
                }
                return Err(UserRepoError::EmailTaken(email.clone()));
            }
            i += 1;
        }
        Ok(())
    }

    /// Creates a user from a creation request: assigns the next id and
    /// stores the pair, unless the e-mail address is already registered.
    pub fn create(&mut self, new_user: &NewUser) -> (r: Result<User, UserRepoError>)
        requires
            repo_wf(old(self)@),
            old(self)@.len() < u64::MAX,
        ensures
            repo_wf(final(self)@),
            match r {
                Ok(u) => !email_taken(old(self)@, new_user@.email) && u@ == (UserV {
                    id: (old(self)@.len() + 1) as u64,
                    email: new_user@.email,
                }) && final(self)@ == old(self)@.push(u@),
                Err(e) => email_taken(old(self)@, new_user@.email) && final(self)@ == old(self)@
                    && (e matches UserRepoError::EmailTaken(m) && m@ == new_user@.email),
            },
    {
        match self.email_is_available(&new_user.email) {
            Err(e) => Err(e),
            Ok(()) => {
                let new_id = self.random_id();
                let user = User::new(new_id, new_user.email.clone());
                let copy = user.duplicate();
                self.users.push(user);
                proof {
                    assert(self@ =~= old(self)@.push(copy@));
                }
                Ok(copy)
            },
        }
    }

    /// All stored users, in creation order (which, by the id rule, is
    /// ascending id order).
    pub fn list(&self) -> (r: Result<Vec<User>, UserRepoError>)
        ensures
            r is Ok,
            users_views(r->Ok_0@) == self@,
    {
        let mut out: Vec<User> = Vec::new();
        let mut i: usize = 0;
        proof {
            assert(users_views(out@) =~= self@.subrange(0, 0));
        }
        while i < self.users.len()
            invariant
                i <= self.users@.len(),
                users_views(out@) == self@.subrange(0, i as int),
            decreases self.users@.len() - i,
        {
            let u = self.users[i].duplicate();
            let ghost out0 = out@;
            let ghost uv = u@;
            out.push(u);
            proof {
                assert(self@[i as int] == self.users@[i as int]@);
                assert(users_views(out@) =~= users_views(out0).push(uv));
                assert(self@.subrange(0, i as int).push(self@[i as int]) =~= self@.subrange(
                    0,
                    i + 1,
                ));
            }
            i += 1;
        }
        proof {
            assert(self@.subrange(0, self@.len() as int) =~= self@);
        }
        Ok(out)
    }

    /// The user with id `user_id`, or `UserNotFound`. On a well-formed
    /// store the user with id `n` sits at position `n - 1`.
    pub fn get(&self, user_id: u64) -> (r: Result<User, UserRepoError>)
        requires
            repo_wf(self@),
        ensures
            match r {
                Ok(u) => 1 <= user_id <= self@.len() && u@ == self@[user_id - 1],
                Err(e) => !(1 <= user_id <= self@.len()) && e == UserRepoError::UserNotFound(
                    user_id,
                ),
            },
    {
        let n = self.users.len();
        if user_id >= 1 && user_id <= n as u64 {
            let idx = (user_id - 1) as usize;
            let u = self.users[idx].duplicate();
            Ok(u)
        } else {
            Err(UserRepoError::UserNotFound(user_id))
        }
    }
}

} // verus!
