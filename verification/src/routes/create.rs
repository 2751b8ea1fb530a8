//! The creation endpoint: reads a creation request from the body, runs
//! it through the service, and answers with the created user or a
//! structured error body.

use crate::error::ErrorBody;
use crate::json::encode_error_spec;
use crate::json::encode_user;
use crate::json::encode_user_spec;
use crate::json::parse_new_user;
use crate::json::parse_new_user_spec;
use crate::json::lemma_parse_new_user_spec_of;
use crate::response::RespV;
use crate::response::Response;
use crate::service::valid_email;
use crate::service::Service;
use crate::service::ServiceError;
use crate::user::UserV;
use crate::warehouse::db::email_taken;
use crate::warehouse::db::repo_wf;
use vstd::prelude::*;

verus! {

/// Why a creation request was refused.
#[derive(Debug)]
pub enum CreateUserError {
    /// The e-mail was registered previously.
    DuplicateEmail(ServiceError),
    /// The e-mail failed validation.
    Validation(ServiceError),
}

/// The message a creation error answers with.
pub open spec fn create_error_message(e: CreateUserError) -> Seq<char> {
    match e {
        CreateUserError::DuplicateEmail(_) => "Email Already In Use"@,
        CreateUserError::Validation(_) => "Validation error while processing data"@,
    }
}

/// The status a creation error answers with.
pub open spec fn create_error_status(e: CreateUserError) -> u16 {
    match e {
        CreateUserError::DuplicateEmail(_) => 409,
        CreateUserError::Validation(_) => 400,
    }
}

impl CreateUserError {
    fn status_code(&self) -> (r: u16)
        ensures
            r == create_error_status(*self),
    {
        match self {
            Self::DuplicateEmail(_) => 409,
            Self::Validation(_) => 400,
        }
    }

    /// The full response for this error: its status, and its message as
    /// a structured error body.
    pub fn to_response(&self) -> (r: Response)
        ensures
            r@.status == create_error_status(*self),
            r@.body == encode_error_spec(create_error_message(*self)),
    {
        let status = self.status_code();
        let error = match self {
            Self::DuplicateEmail(_) => String::from_str("Email Already In Use"),
            Self::Validation(_) => String::from_str("Validation error while processing data"),
        };
        Response::new(status, ErrorBody::new(error).to_json())
    }
}

/// The message answered when the body is not a creation request.
pub open spec fn bad_body_message() -> Seq<char> {
    "Failed to deserialize the request body"@
}

/// What the creation endpoint does, as a function of the store and the
/// request body: which store it leaves behind and which response it
/// sends.
pub open spec fn create_user_spec(repo: Seq<UserV>, body: Seq<char>) -> (Seq<UserV>, RespV) {
    match parse_new_user_spec(body) {
        None => (repo, RespV { status: 422, body: encode_error_spec(bad_body_message()) }),
        Some(nu) => if !valid_email(nu.email) {
            (
                repo,
                RespV {
                    status: 400,
                    body: encode_error_spec("Validation error while processing data"@),
                },
            )
        } else if email_taken(repo, nu.email) {
            (repo, RespV { status: 409, body: encode_error_spec("Email Already In Use"@) })
        } else {
            let u = UserV { id: (repo.len() + 1) as u64, email: nu.email };
            (repo.push(u), RespV { status: 200, body: encode_user_spec(u) })
        },
    }
}

/// Creates a user from a request body: `200` with the stored user on
/// success, `422` on a body that is no creation request, `400` on an
/// invalid e-mail, `409` when the e-mail is taken.
pub fn create_user(service: &mut Service, body: &str) -> (r: Response)
    requires
        repo_wf(old(service)@),
        old(service)@.len() < u64::MAX,
    ensures
        repo_wf(final(service)@),
        final(service)@ == create_user_spec(old(service)@, body@).0,
        r@ == create_user_spec(old(service)@, body@).1,
{
    match parse_new_user(body) {
        None => {
            let error = String::from_str("Failed to deserialize the request body");
            Response::new(422, ErrorBody::new(error).to_json())
        },
        Some(nu) => {
            proof {
                lemma_parse_new_user_spec_of(body@, nu@);
            }
            match service.create(&nu) {
                Ok(user) => {
                    let out = encode_user(&user);
                    Response::new(200, out)
                },
                Err(e) => {
                    let err = match e {
                        ServiceError::EmailTaken(_) => CreateUserError::DuplicateEmail(e),
                        ServiceError::ValidationError(_) => CreateUserError::Validation(e),
                        ServiceError::UserNotFound(_) => vstd::pervasive::unreached(),
                    };
                    err.to_response()
                },
            }
        },
    }
}

} // verus!
