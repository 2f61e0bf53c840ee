//! Account use cases: registration and sign-in, and the session
//! cookie the latter issues.

use crate::constants::{session_cookie_name, spec_session_cookie_name};
use crate::entities::{Account, AccountV};
use crate::errors::Error;
use crate::hashing::sha256_hex;
use crate::repositories::{
    acct_by_email, lemma_acct_by_email_none, lemma_acct_by_email_some, session_record, Accounts,
    SessionV, Sessions, SESSION_LIFETIME,
};
use crate::time::{current_timestamp, TS_MAX};
use crate::text::{dec_digits, usize_to_string};
use vstd::prelude::*;
use vstd::string::StringExecFns;

verus! {

/// Registers a new account: the password is hashed by the entity
/// factory and the account is handed to the store. Fails with
/// `DuplicateEmail` exactly when the email is already taken.
pub fn create_account<A: Accounts>(
    repo: &mut A,
    email: &str,
    password: &str,
    display_name: &str,
) -> (r: Result<(), Error>)
    requires
        old(repo).inv(),
    ensures
        final(repo).inv(),
        match r {
            Ok(()) => {
                &&& acct_by_email(old(repo).table(), email@) is None
                &&& exists|id: int|
                    final(repo).table() == old(repo).table().push(
                        AccountV {
                            id: Some(id),
                            email: email@,
                            hashed_password: sha256_hex(password@),
                            display_name: display_name@,
                        },
                    )
            },
            Err(e) => {
                &&& final(repo).table() == old(repo).table()
                &&& (e == Error::DuplicateEmail || e == Error::Storage)
                &&& (e == Error::DuplicateEmail <==> acct_by_email(old(repo).table(), email@)
                    is Some)
            },
        },
{
    let new_account = Account::create(email, password, display_name);
    match repo.store(&new_account) {
        Ok(id) => {
            proof {
                assert(final(repo).table() == old(repo).table().push(
                    AccountV {
                        id: Some(id as int),
                        email: email@,
                        hashed_password: sha256_hex(password@),
                        display_name: display_name@,
                    },
                ));
            }
            Ok(())
        },
        Err(e) => Err(e),
    }
}

/// Whether the stored account under this email carries exactly this
/// password hash.
pub open spec fn credentials_match(
    table: Seq<AccountV>,
    email: Seq<char>,
    password_hash: Seq<char>,
) -> bool {
    match acct_by_email(table, email) {
        Some(a) => a.hashed_password == password_hash,
        None => false,
    }
}

/// One session record for this user, expiring one lifetime after
/// `now`, appended to the store.
pub open spec fn session_appended(
    old_records: Seq<SessionV>,
    new_records: Seq<SessionV>,
    token: Seq<char>,
    user_id: i32,
    now: int,
) -> bool {
    new_records == old_records.push(
        SessionV { token, user_id, expires_at: now + SESSION_LIFETIME as int },
    )
}

/// Signs a user in: exactly when the email resolves to an account
/// whose stored hash equals the hash of the supplied password, a
/// server-side session for that account is persisted, expiring one
/// lifetime from now.
pub fn create_session<A: Accounts, S: Sessions>(
    repo: &A,
    sessions: &mut S,
    email: &str,
    password: &str,
) -> (r: Option<SessionToken>)
    requires
        repo.inv(),
        old(sessions).inv(),
    ensures
        final(sessions).inv(),
        r is Some <==> credentials_match(repo.table(), email@, sha256_hex(password@)),
        r is None ==> final(sessions).records() == old(sessions).records(),
        r matches Some(tok) ==> {
            &&& tok@.max_age == SESSION_LIFETIME as nat
            &&& session_record(old(sessions).records(), tok@.token) is None
            &&& match acct_by_email(repo.table(), email@) {
                Some(a) => exists|uid: i32, now: int|
                    {
                        &&& a.id == Some(uid as int)
                        &&& 0 <= now <= TS_MAX as int
                        &&& #[trigger] session_appended(
                            old(sessions).records(),
                            final(sessions).records(),
                            tok@.token,
                            uid,
                            now,
                        )
                    },
                None => false,
            }
        },
{
    let account = repo.find_by(email);
    match account {
        Some(account) => {
            if !account.matches_password(password) {
                return None;
            }
            let uid = match account.id() {
                Some(v) => v,
                None => {
                    proof {
                        assert(false);
                    }
                    0
                },
            };
            let now = current_timestamp();
            let token = sessions.store_session(uid, now);
            proof {
                assert(session_appended(
                    old(sessions).records(),
                    final(sessions).records(),
                    token@,
                    uid,
                    now as int,
                ));
            }
            Some(SessionToken::new(token.as_str()))
        },
        None => None,
    }
}

/// The placeholder token whose cookie makes the browser evict the
/// session cookie.
pub fn clear_session() -> (r: SessionToken)
    ensures
        r@ == (SessionTokenV { token: "deleted"@, max_age: 0 }),
{
    SessionToken::clear()
}

/// The spec-level value of a session token.
pub ghost struct SessionTokenV {
    pub token: Seq<char>,
    pub max_age: nat,
}

/// The cookie-encodable wrapper around a session's opaque identifier
/// and its lifetime in seconds.
pub struct SessionToken {
    token: String,
    max_age: usize,
}

impl View for SessionToken {
    type V = SessionTokenV;

    closed spec fn view(&self) -> SessionTokenV {
        SessionTokenV { token: self.token@, max_age: self.max_age as nat }
    }
}

/// The cookie header line a token renders to.
pub open spec fn cookie_chars(t: SessionTokenV) -> Seq<char> {
    spec_session_cookie_name() + "="@ + t.token + "; Max-Age="@ + dec_digits(t.max_age)
        + "; Path=/; HttpOnly"@
}

impl SessionToken {
    /// An active session token: seven days of lifetime.
    pub fn new(token: &str) -> (r: SessionToken)
        ensures
            r@ == (SessionTokenV { token: token@, max_age: 604800 }),
    {
        SessionToken { token: String::from_str(token), max_age: 604800 }
    }

    /// The cleared token: value `deleted`, zero lifetime.
    pub fn clear() -> (r: SessionToken)
        ensures
            r@ == (SessionTokenV { token: "deleted"@, max_age: 0 }),
    {
        SessionToken { token: String::from_str("deleted"), max_age: 0 }
    }

    /// Renders the `Set-Cookie` value: name, token, lifetime, and the
    /// fixed `Path=/; HttpOnly` attributes.
    pub fn cookie(&self) -> (r: String)
        ensures
            r@ == cookie_chars(self@),
    {
        let mut s = String::from_str(session_cookie_name());
        s.append("=");
        s.append(self.token.as_str());
        s.append("; Max-Age=");
        let rendered_age = usize_to_string(self.max_age);
        s.append(rendered_age.as_str());
        s.append("; Path=/; HttpOnly");
        proof {
            assert(s@ =~= cookie_chars(self@));
        }
        s
    }
}

/// Law: sign-in succeeds exactly when some stored account carries the
/// email together with the password hash. Stated for tables with
/// pairwise distinct emails, which the store contract maintains.
pub proof fn lemma_session_iff_account(
    table: Seq<AccountV>,
    email: Seq<char>,
    password_hash: Seq<char>,
)
    requires
        forall|i: int, j: int|
            #![auto]
            0 <= i < j < table.len() ==> table[i].email != table[j].email,
    ensures
        credentials_match(table, email, password_hash) <==> exists|i: int|
            0 <= i < table.len() && (#[trigger] table[i]).email == email
                && table[i].hashed_password == password_hash,
{
    if credentials_match(table, email, password_hash) {
        lemma_acct_by_email_some(table, email);
        let a = acct_by_email(table, email)->0;
        let k = choose|k: int|
            0 <= k < table.len() && table[k] == a && (#[trigger] table[k]).email == email;
        assert(table[k].email == email && table[k].hashed_password == password_hash);
    }
    if exists|i: int|
        0 <= i < table.len() && (#[trigger] table[i]).email == email
            && table[i].hashed_password == password_hash {
        let i = choose|i: int|
            0 <= i < table.len() && (#[trigger] table[i]).email == email
                && table[i].hashed_password == password_hash;
        lemma_acct_by_email_none(table, email);
        assert(acct_by_email(table, email) is Some);
        lemma_acct_by_email_some(table, email);
        let a = acct_by_email(table, email)->0;
        let k = choose|k: int|
            0 <= k < table.len() && table[k] == a && (#[trigger] table[k]).email == email;
        assert(k == i);
        assert(a.hashed_password == password_hash);
    }
}

/// Law: an active token's cookie is the session cookie name, the
/// token, and `Max-Age=604800` with the fixed attributes.
pub proof fn lemma_active_cookie(t: SessionTokenV)
    requires
        t.max_age == 604800,
    ensures
        cookie_chars(t) == spec_session_cookie_name() + "="@ + t.token
            + "; Max-Age=604800; Path=/; HttpOnly"@,
{
    reveal_strlit("604800");
    reveal_strlit("; Max-Age=");
    reveal_strlit("; Path=/; HttpOnly");
    reveal_strlit("; Max-Age=604800; Path=/; HttpOnly");
    assert(dec_digits(6) =~= seq!['6']);
    assert(dec_digits(60) =~= seq!['6', '0']);
    assert(dec_digits(604) =~= seq!['6', '0', '4']);
    assert(dec_digits(6048) =~= seq!['6', '0', '4', '8']);
    assert(dec_digits(60480) =~= seq!['6', '0', '4', '8', '0']);
    assert(dec_digits(604800) =~= seq!['6', '0', '4', '8', '0', '0']);
    assert(dec_digits(604800) =~= "604800"@);
    assert("; Max-Age="@ + dec_digits(604800) + "; Path=/; HttpOnly"@
        =~= "; Max-Age=604800; Path=/; HttpOnly"@);
    assert(cookie_chars(t) =~= spec_session_cookie_name() + "="@ + t.token + ("; Max-Age="@
        + dec_digits(604800) + "; Path=/; HttpOnly"@));
    assert(spec_session_cookie_name() + "="@ + t.token + ("; Max-Age="@ + dec_digits(604800)
        + "; Path=/; HttpOnly"@) =~= spec_session_cookie_name() + "="@ + t.token
        + "; Max-Age=604800; Path=/; HttpOnly"@);
}

/// Law: the cleared token's cookie is exactly the eviction line, with
/// value `deleted` and `Max-Age=0`.
pub proof fn lemma_clear_cookie()
    ensures
        cookie_chars(SessionTokenV { token: "deleted"@, max_age: 0 })
            == "session_token=deleted; Max-Age=0; Path=/; HttpOnly"@,
{
    assert(dec_digits(0) =~= seq!['0']);
    assert(cookie_chars(SessionTokenV { token: "deleted"@, max_age: 0 })
        =~= "session_token=deleted; Max-Age=0; Path=/; HttpOnly"@) by {
        reveal_strlit("session_token");
        reveal_strlit("=");
        reveal_strlit("deleted");
        reveal_strlit("; Max-Age=");
        reveal_strlit("; Path=/; HttpOnly");
        reveal_strlit("session_token=deleted; Max-Age=0; Path=/; HttpOnly");
    }
}

} // verus!
