//! What the program needs from HTTP itself: which answers count as
//! success, and how a token is presented.

use vstd::prelude::*;
use vstd::string::*;

verus! {

/// An answer succeeds when its status is in the 2xx class, as
/// `StatusCode::is_success` has it.
pub open spec fn is_success(status: u16) -> bool {
    200 <= status <= 299
}

/// Whether an answer with this status code succeeded.
pub fn status_is_success(status: u16) -> (ok: bool)
    ensures
        ok == is_success(status),
        ok <==> 200 <= status && status < 300,
{
    200 <= status && status <= 299
}

/// Exactly the statuses of the 2xx class count as success: a status
/// succeeds when its hundreds digit is 2, and every informational (1xx),
/// redirect (3xx), client error (4xx) or server error (5xx) status fails.
pub proof fn lemma_success_is_2xx(status: u16)
    ensures
        is_success(status) <==> status / 100 == 2,
        status < 200 ==> !is_success(status),
        status >= 300 ==> !is_success(status),
{
}

/// The `Authorization` header value that presents `token`.
pub fn bearer(token: &str) -> (header: String)
    ensures
        header@ == "Bearer "@ + token@,
{
    let mut header = String::from_str("Bearer ");
    header.append(token);
    header
}

} // verus!
