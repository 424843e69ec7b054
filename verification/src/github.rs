//! The parts of the GitHub REST API that the token flow needs.

use vstd::prelude::*;

verus! {

/// A GitHub user as the `/user` endpoint describes it.
#[derive(Debug)]
pub struct User {
    pub login: String,
}

/// The `Authorization` header value for a bearer token.
pub fn authorization_value(token: &str) -> (r: String)
    ensures
        r@ == "Bearer "@ + token@,
{
    "Bearer ".to_owned().concat(token)
}

} // verus!
