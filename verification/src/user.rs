//! The domain payload: users and creation requests.

use vstd::prelude::*;

verus! {

/// A request to create a user: only the e-mail address.
#[derive(Debug)]
pub struct NewUser {
    pub email: String,
}

/// Mathematical value of a [`NewUser`].
pub ghost struct NewUserV {
    pub email: Seq<char>,
}

impl View for NewUser {
    type V = NewUserV;

    open spec fn view(&self) -> NewUserV {
        NewUserV { email: self.email@ }
    }
}

impl NewUser {
    pub fn new(email: String) -> (r: Self)
        ensures
            r@ == (NewUserV { email: email@ }),
    {
        Self { email }
    }
}

/// A stored user: a numeric id and the e-mail address it was created with.
#[derive(Debug, Clone, PartialEq, Eq)]
pub struct User {
    pub id: u64,
    pub email: String,
}

/// Mathematical value of a [`User`].
pub ghost struct UserV {
    pub id: u64,
    pub email: Seq<char>,
}

impl View for User {
    type V = UserV;

    open spec fn view(&self) -> UserV {
        UserV { id: self.id, email: self.email@ }
    }
}

impl User {
    pub fn new(id: u64, email: String) -> (r: Self)
        ensures
            r@ == (UserV { id, email: email@ }),
    {
        Self { id, email }
    }

    /// A copy whose mathematical value is the same as `self`'s.
    pub fn duplicate(&self) -> (r: Self)
        ensures
            r@ == self@,
    {
        User { id: self.id, email: self.email.clone() }
    }
}

} // verus!
