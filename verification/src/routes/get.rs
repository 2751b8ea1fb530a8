//! The lookup endpoint: reads a user id from the request path and
//! answers with that user or a structured error body.

use crate::error::ErrorBody;
use crate::json::dec_val;
use crate::json::encode_error_spec;
use crate::json::encode_user;
use crate::json::encode_user_spec;
use crate::json::u64_to_string;
use crate::json::dec_rep;
use crate::response::RespV;
use crate::response::Response;
use crate::service::valid_id;
use crate::service::Service;
use crate::service::ServiceError;
use crate::user::UserV;
use crate::warehouse::db::repo_wf;
use crate::warehouse::UserRepoError;
use vstd::prelude::*;

verus! {

/// Why a lookup failed.
#[derive(Debug)]
pub enum GetUserErrors {
    /// No user has the requested id.
    UserNotFound(ServiceError),
    /// The path segment is not a user id.
    InvalidUserId(ServiceError),
}

/// The message a failed lookup answers with: the id is named when it
/// was readable at all.
pub open spec fn get_error_message(e: GetUserErrors) -> Seq<char> {
    match e {
        GetUserErrors::UserNotFound(inner) => match inner {
            ServiceError::UserNotFound(UserRepoError::UserNotFound(id)) => "User "@ + dec_rep(
                id as nat,
            ) + " Not Found"@,
            _ => "User Not Found"@,
        },
        GetUserErrors::InvalidUserId(_) => "Invalid User ID"@,
    }
}

/// The status a failed lookup answers with.
pub open spec fn get_error_status(e: GetUserErrors) -> u16 {
    match e {
        GetUserErrors::UserNotFound(_) => 404,
        GetUserErrors::InvalidUserId(_) => 400,
    }
}

impl GetUserErrors {
    /// Sorts a service failure into this endpoint's taxonomy.
    pub fn from(value: ServiceError) -> (r: Self)
        ensures
            match value {
                ServiceError::UserNotFound(_) => r matches GetUserErrors::UserNotFound(i)
                    && i == value,
                ServiceError::ValidationError(_) => r matches GetUserErrors::InvalidUserId(i)
                    && i == value,
                ServiceError::EmailTaken(_) => true,
            },
    {
        match value {
            ServiceError::UserNotFound(_) => Self::UserNotFound(value),
            ServiceError::ValidationError(_) => Self::InvalidUserId(value),
            ServiceError::EmailTaken(_) => Self::InvalidUserId(value),
        }
    }

    fn status_code(&self) -> (r: u16)
        ensures
            r == get_error_status(*self),
    {
        match self {
            Self::UserNotFound(_) => 404,
            Self::InvalidUserId(_) => 400,
        }
    }

    /// The full response for this error: its status, and its message as
    /// a structured error body.
    pub fn to_response(&self) -> (r: Response)
        ensures
            r@.status == get_error_status(*self),
            r@.body == encode_error_spec(get_error_message(*self)),
    {
        let status = self.status_code();
        let msg: String = match self {
            Self::UserNotFound(inner) => match inner {
                ServiceError::UserNotFound(repo_err) => match repo_err {
                    UserRepoError::UserNotFound(id) => {
                        let mut m = String::from_str("User ");
                        let digits = u64_to_string(*id);
                        m.append(digits.as_str());
                        m.append(" Not Found");
                        proof {
                            assert(m@ =~= "User "@ + dec_rep(*id as nat) + " Not Found"@);
                        }
                        m
                    },
                    _ => String::from_str("User Not Found"),
                },
                _ => String::from_str("User Not Found"),
            },
            Self::InvalidUserId(_) => String::from_str("Invalid User ID"),
        };
        Response::new(status, ErrorBody::new(msg).to_json())
    }
}

/// What the lookup endpoint answers, as a function of the store and the
/// path segment.
pub open spec fn get_user_spec(repo: Seq<UserV>, key: Seq<char>) -> RespV {
    if !valid_id(key) {
        RespV { status: 400, body: encode_error_spec("Invalid User ID"@) }
    } else if 1 <= dec_val(key) <= repo.len() {
        RespV { status: 200, body: encode_user_spec(repo[dec_val(key) - 1]) }
    } else {
        RespV {
            status: 404,
            body: encode_error_spec("User "@ + dec_rep(dec_val(key) as nat) + " Not Found"@),
        }
    }
}

/// Looks a user up by the path segment `key`: `200` with the user,
/// `404` when no user has that id, `400` when the segment is no id.
pub fn get_user(service: &Service, key: &str) -> (r: Response)
    requires
        repo_wf(service@),
    ensures
        r@ == get_user_spec(service@, key@),
{
    match service.get(key) {
        Ok(user) => {
            let out = encode_user(&user);
            Response::new(200, out)
        },
        Err(e) => GetUserErrors::from(e).to_response(),
    }
}

} // verus!
