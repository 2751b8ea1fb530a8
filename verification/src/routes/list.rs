//! The listing endpoint: answers with every stored user, in ascending
//! id order.

use crate::json::encode_users;
use crate::json::encode_users_spec;
use crate::response::RespV;
use crate::response::Response;
use crate::service::Service;
use vstd::prelude::*;

verus! {

/// All stored users as one body: `200` with the list, which is in
/// ascending id order because the store keeps users that way.
pub fn get_users(service: &Service) -> (r: Response)
    ensures
        r@ == (RespV { status: 200, body: encode_users_spec(service@) }),
{
    match service.list() {
        Ok(users) => {
            let out = encode_users(&users);
            Response::new(200, out)
        },
        Err(_) => vstd::pervasive::unreached(),
    }
}

} // verus!
