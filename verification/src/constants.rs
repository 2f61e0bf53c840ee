//! Process-wide read-only names.

use vstd::prelude::*;

verus! {

/// The name under which the session cookie is set and looked up.
pub open spec fn spec_session_cookie_name() -> Seq<char> {
    "session_token"@
}

pub fn session_cookie_name() -> (r: &'static str)
    ensures
        r@ == spec_session_cookie_name(),
{
    "session_token"
}

} // verus!
