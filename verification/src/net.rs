//! The computed parts of the HTTP helpers.
//!
//! The transport itself (building requests, sending them, reading bodies)
//! is host glue and lives outside this crate; what it injects is computed
//! here.

use vstd::prelude::*;
use vstd::string::StringExecFns;

verus! {

/// The value of the `Authorization` header injected by the authenticated
/// request helpers: the bearer scheme in front of the given token.
pub fn bearer_header_value(token: &str) -> (r: String)
    ensures
        r@ == "Bearer "@ + token@,
{
    let mut s = String::from_str("Bearer ");
    s.append(token);
    s
}

} // verus!
