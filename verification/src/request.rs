//! The per-request authenticated identity, recovered from the session
//! cookie.

use crate::constants::{session_cookie_name, spec_session_cookie_name};
use crate::cookie::{cookie_value, cookie_value_in};
use crate::errors::Error;
use crate::repositories::{session_user_at, Sessions};
use vstd::prelude::*;

verus! {

/// The authenticated user of one request. No identity, no context.
#[derive(Clone, Copy, Debug, PartialEq, Eq, Structural)]
pub struct UserContext {
    pub user_id: i32,
}

/// The identity a request's `Cookie` header resolves to at the given
/// moment: the value under the session cookie name, looked up in the
/// session store, provided the session has not expired.
pub open spec fn extracted_user(
    records: Seq<crate::repositories::SessionV>,
    header: Option<&str>,
    now: i64,
) -> Option<i32> {
    match header {
        None => None,
        Some(h) => match cookie_value_in(h@, spec_session_cookie_name()) {
            None => None,
            Some(token) => session_user_at(records, token, now),
        },
    }
}

/// Recovers the authenticated identity from a request's `Cookie`
/// header, judged at the given moment: absent header, unknown cookie
/// name, and unknown or expired token all fail with
/// `Unauthenticated`.
pub fn user_context<S: Sessions>(sessions: &S, cookie_header: Option<&str>, now: i64) -> (r:
    Result<UserContext, Error>)
    requires
        sessions.inv(),
    ensures
        match r {
            Ok(uc) => extracted_user(sessions.records(), cookie_header, now) == Some(uc.user_id),
            Err(e) => e == Error::Unauthenticated && extracted_user(
                sessions.records(),
                cookie_header,
                now,
            ) is None,
        },
{
    match cookie_header {
        None => Err(Error::Unauthenticated),
        Some(header) => {
            let token = cookie_value(header, session_cookie_name());
            match token {
                None => Err(Error::Unauthenticated),
                Some(token) => match sessions.load_session(token.as_str(), now) {
                    None => Err(Error::Unauthenticated),
                    Some(user_id) => Ok(UserContext { user_id }),
                },
            }
        },
    }
}

} // verus!
