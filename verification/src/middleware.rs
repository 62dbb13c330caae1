//! Content negotiation: the API serves JSON, so a request may only ask
//! for that (or for anything).

use vstd::prelude::*;

use crate::text::str_eq;

verus! {

/// The Accept header values the API serves: an absent header, any
/// content, or JSON.
pub open spec fn acceptable_accept(accept: Option<&str>) -> bool {
    match accept {
        None => true,
        Some(a) => a@ == "application/json"@ || a@ == "*/*"@,
    }
}

/// A method to check if the request's Accept header is acceptable;
/// a request that is not is answered with Not Acceptable.
pub fn acceptable_headers(accept: Option<&str>) -> (r: bool)
    ensures
        r == acceptable_accept(accept),
{
    match accept {
        None => true,
        Some(a) => str_eq(a, "application/json") || str_eq(a, "*/*"),
    }
}

} // verus!
