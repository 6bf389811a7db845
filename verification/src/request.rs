//! What a request's `Authorization` header means for this scheme.

use crate::orbit::OrbitId;
use crate::parser::{reads_as, refused};
use crate::token::TezosAuthorizationString;
use vstd::prelude::*;

verus! {

/// What to do with a request.
#[derive(Debug, Clone)]
pub enum Outcome {
    /// The header holds a token of this scheme.
    Success(TezosAuthorizationString),
    /// This scheme does not apply: the request goes on to the next one.
    Forward,
}

/// Reads the token of a request from the value of its `Authorization`
/// header, if it has one. A request without the header, or with one that is
/// no token, is not of this scheme and goes on: that is no error.
pub fn from_request<F: Fn(&str) -> Option<OrbitId>>(
    authorization: Option<&str>,
    parse_orbit: F,
) -> (r: Outcome)
    requires
        forall|text: &str| call_requires(parse_orbit, (text,)),
    ensures
        match r {
            Outcome::Success(token) => authorization matches Some(value) && reads_as(
                value@,
                parse_orbit,
                token,
            ),
            Outcome::Forward => authorization matches Some(value) ==> refused(
                value@,
                parse_orbit,
            ),
        },
{
    match authorization {
        Some(value) => match TezosAuthorizationString::from_str(value, parse_orbit) {
            Ok(token) => Outcome::Success(token),
            Err(_) => Outcome::Forward,
        },
        None => Outcome::Forward,
    }
}

} // verus!
