//! Persistence contracts: what any store of accounts, tweets and
//! sessions must do, stated over spec-level tables.

use crate::entities::{Account, AccountV, Tweet, TweetV};
use crate::errors::Error;
use crate::time::TS_MAX;
use std::collections::{HashMap, HashSet};
use vstd::prelude::*;

verus! {

/// The identity of a stored tweet row.
pub open spec fn tid(t: TweetV) -> int {
    t.id->0
}

/// Strict timeline order: `a` sorts before `b` when it was posted
/// later, ties broken by the higher identity.
pub open spec fn prec(a: TweetV, b: TweetV) -> bool {
    a.posted_at > b.posted_at || (a.posted_at == b.posted_at && tid(a) > tid(b))
}

/// Reverse-chronological order, ties broken by descending identity.
pub open spec fn sorted_desc(s: Seq<TweetV>) -> bool {
    forall|i: int, j: int| 0 <= i < j < s.len() ==> prec(s[i], s[j])
}

/// The first row with the given identity, scanning from the front.
pub open spec fn row_with_id(s: Seq<TweetV>, id: int) -> Option<TweetV>
    decreases s.len(),
{
    if s.len() == 0 {
        None
    } else if tid(s[0]) == id {
        Some(s[0])
    } else {
        row_with_id(s.drop_first(), id)
    }
}

pub open spec fn has_id(s: Seq<TweetV>, id: int) -> bool {
    row_with_id(s, id) is Some
}

/// The rows with the new one placed at its timeline position.
pub open spec fn insert_desc(s: Seq<TweetV>, t: TweetV) -> Seq<TweetV>
    decreases s.len(),
{
    if s.len() == 0 {
        seq![t]
    } else if prec(t, s[0]) {
        seq![t] + s
    } else {
        seq![s[0]] + insert_desc(s.drop_first(), t)
    }
}

/// The rows without the first one carrying the given identity.
pub open spec fn remove_id(s: Seq<TweetV>, id: int) -> Seq<TweetV>
    decreases s.len(),
{
    if s.len() == 0 {
        s
    } else if tid(s[0]) == id {
        s.drop_first()
    } else {
        seq![s[0]] + remove_id(s.drop_first(), id)
    }
}

/// The first account with the given identity.
pub open spec fn acct_by_id(s: Seq<AccountV>, id: int) -> Option<AccountV>
    decreases s.len(),
{
    if s.len() == 0 {
        None
    } else if s[0].id == Some(id) {
        Some(s[0])
    } else {
        acct_by_id(s.drop_first(), id)
    }
}

/// The first account with the given email.
pub open spec fn acct_by_email(s: Seq<AccountV>, email: Seq<char>) -> Option<AccountV>
    decreases s.len(),
{
    if s.len() == 0 {
        None
    } else if s[0].email == email {
        Some(s[0])
    } else {
        acct_by_email(s.drop_first(), email)
    }
}

/// The spec-level value of one server-side session record: the
/// opaque token, the identity it authenticates, and the moment the
/// session stops doing so.
pub ghost struct SessionV {
    pub token: Seq<char>,
    pub user_id: i32,
    pub expires_at: int,
}

/// The first session record carrying the given token.
pub open spec fn session_record(s: Seq<SessionV>, token: Seq<char>) -> Option<SessionV>
    decreases s.len(),
{
    if s.len() == 0 {
        None
    } else if s[0].token == token {
        Some(s[0])
    } else {
        session_record(s.drop_first(), token)
    }
}

/// The identity a token authenticates at the given moment: the stored
/// one when the token is known and not yet expired, none otherwise.
pub open spec fn session_user_at(s: Seq<SessionV>, token: Seq<char>, now: i64) -> Option<i32> {
    match session_record(s, token) {
        Some(r) => if (now as int) < r.expires_at {
            Some(r.user_id)
        } else {
            None
        },
        None => None,
    }
}

/// Persistence contract for accounts.
///
/// `table` is the stored rows in insertion order; `inv` is whatever
/// well-formedness the implementation maintains.
pub trait Accounts: Sized {
    open spec fn table(&self) -> Seq<AccountV> {
        Seq::empty()
    }

    open spec fn inv(&self) -> bool {
        false
    }

    /// Returns exactly the requested accounts that are present;
    /// missing identities are left out of the map.
    fn find(&self, ids: HashSet<i32>) -> (r: HashMap<i32, Account>)
        requires
            self.inv(),
        ensures
            forall|id: i32|
                #![auto]
                r@.contains_key(id) <==> (ids@.contains(id) && acct_by_id(self.table(), id as int)
                    is Some),
            forall|id: i32|
                #![auto]
                r@.contains_key(id) ==> acct_by_id(self.table(), id as int) == Some(r@[id]@),
    ;

    /// Exact email match.
    fn find_by(&self, email: &str) -> (r: Option<Account>)
        requires
            self.inv(),
        ensures
            match r {
                Some(a) => acct_by_email(self.table(), email@) == Some(a@) && a@.id is Some,
                None => acct_by_email(self.table(), email@) is None,
            },
    ;

    /// Inserts a new account. Fails with `DuplicateEmail` exactly when
    /// the email is already taken; on success the returned identity is
    /// fresh and the row is appended with it.
    fn store(&mut self, entity: &Account) -> (r: Result<i32, Error>)
        requires
            old(self).inv(),
        ensures
            final(self).inv(),
            match r {
                Ok(id) => {
                    &&& acct_by_email(old(self).table(), entity@.email) is None
                    &&& acct_by_id(old(self).table(), id as int) is None
                    &&& final(self).table() == old(self).table().push(
                        AccountV {
                            id: Some(id as int),
                            email: entity@.email,
                            hashed_password: entity@.hashed_password,
                            display_name: entity@.display_name,
                        },
                    )
                },
                Err(e) => {
                    &&& final(self).table() == old(self).table()
                    &&& (e == Error::DuplicateEmail || e == Error::Storage)
                    &&& (e == Error::DuplicateEmail <==> acct_by_email(
                        old(self).table(),
                        entity@.email,
                    ) is Some)
                },
            },
    ;
}

/// Persistence contract for tweets.
///
/// `rows` is the stored timeline in reverse-chronological order; `log`
/// records the argument of every store call, in call order.
pub trait Tweets: Sized {
    open spec fn rows(&self) -> Seq<TweetV> {
        Seq::empty()
    }

    open spec fn log(&self) -> Seq<TweetV> {
        Seq::empty()
    }

    open spec fn inv(&self) -> bool {
        false
    }

    /// The stored row with the given identity, if any.
    fn find(&self, id: i32) -> (r: Option<Tweet>)
        requires
            self.inv(),
        ensures
            match r {
                Some(t) => row_with_id(self.rows(), id as int) == Some(t@) && t@.wf_row(),
                None => row_with_id(self.rows(), id as int) is None,
            },
    ;

    /// All stored rows, most recent first.
    fn list(&self) -> (r: Vec<Tweet>)
        requires
            self.inv(),
        ensures
            r@.len() == self.rows().len(),
            forall|i: int| 0 <= i < r@.len() ==> r@[i]@ == self.rows()[i],
            sorted_desc(self.rows()),
            forall|i: int| 0 <= i < self.rows().len() ==> (#[trigger] self.rows()[i]).wf_row(),
    ;

    /// Stores one tweet: a tweet without an identity is inserted under
    /// a fresh one; a tweet with an identity and the deleted mark has
    /// its row removed; any other store leaves the rows unchanged.
    /// Every call is recorded in the log, failed or not.
    fn store(&mut self, entity: &Tweet) -> (r: Result<(), Error>)
        requires
            old(self).inv(),
            0 <= entity@.posted_at <= TS_MAX,
        ensures
            final(self).inv(),
            final(self).log() == old(self).log().push(entity@),
            r is Err ==> r == Err::<(), Error>(Error::Storage) && final(self).rows() == old(
                self,
            ).rows(),
            r is Ok ==> match entity@.id {
                None => exists|id: int|
                    {
                        &&& 0 <= id <= i32::MAX
                        &&& !has_id(old(self).rows(), id)
                        &&& final(self).rows() == insert_desc(
                            old(self).rows(),
                            #[trigger] entity@.stored(id),
                        )
                    },
                Some(id) => final(self).rows() == if entity@.deleted {
                    remove_id(old(self).rows(), id)
                } else {
                    old(self).rows()
                },
            },
    ;
}

/// The relative lifetime of a session: seven days, in seconds.
pub const SESSION_LIFETIME: i64 = 604800;

/// Contract for the server-side session store.
///
/// `records` is the stored sessions in insertion order; a token is an
/// opaque string the store itself issues.
pub trait Sessions: Sized {
    open spec fn records(&self) -> Seq<SessionV> {
        Seq::empty()
    }

    open spec fn inv(&self) -> bool {
        false
    }

    /// Persists a new session for the given user under a fresh opaque
    /// token, expiring one lifetime after `now`, and returns that
    /// token.
    fn store_session(&mut self, user_id: i32, now: i64) -> (r: String)
        requires
            old(self).inv(),
            0 <= now <= TS_MAX,
        ensures
            final(self).inv(),
            session_record(old(self).records(), r@) is None,
            final(self).records() == old(self).records().push(
                SessionV { token: r@, user_id, expires_at: now + SESSION_LIFETIME },
            ),
    ;

    /// The user identity the token authenticates at the given moment;
    /// an expired or unknown token yields no identity.
    fn load_session(&self, token: &str, now: i64) -> (r: Option<i32>)
        requires
            self.inv(),
        ensures
            r == session_user_at(self.records(), token@, now),
    ;
}


pub proof fn lemma_row_with_id_none(s: Seq<TweetV>, id: int)
    ensures
        (row_with_id(s, id) is None) <==> (forall|k: int|
            0 <= k < s.len() ==> tid(#[trigger] s[k]) != id),
    decreases s.len(),
{
    if s.len() > 0 {
        lemma_row_with_id_none(s.drop_first(), id);
        assert(forall|k: int|
            1 <= k < s.len() ==> s.drop_first()[k - 1] == #[trigger] s[k]);
    }
}

pub proof fn lemma_row_with_id_some(s: Seq<TweetV>, id: int)
    requires
        row_with_id(s, id) is Some,
    ensures
        s.contains(row_with_id(s, id)->0),
        tid(row_with_id(s, id)->0) == id,
    decreases s.len(),
{
    if s.len() > 0 && tid(s[0]) != id {
        lemma_row_with_id_some(s.drop_first(), id);
        let t = row_with_id(s, id)->0;
        let k = choose|k: int| 0 <= k < s.drop_first().len() && s.drop_first()[k] == t;
        assert(s[k + 1] == t);
    }
}

/// `insert_desc` places the new row exactly at the position an
/// insertion scan stops at.
pub proof fn lemma_insert_desc_at(s: Seq<TweetV>, t: TweetV, i: int)
    requires
        0 <= i <= s.len(),
        forall|j: int| 0 <= j < i ==> prec(#[trigger] s[j], t),
        i < s.len() ==> !prec(s[i as int], t),
        forall|j: int| 0 <= j < s.len() ==> tid(#[trigger] s[j]) != tid(t),
    ensures
        insert_desc(s, t) == s.take(i) + seq![t] + s.skip(i),
    decreases s.len(),
{
    if s.len() == 0 {
        assert(insert_desc(s, t) =~= s.take(i) + seq![t] + s.skip(i));
    } else if prec(t, s[0]) {
        assert(!prec(s[0], t));
        assert(i == 0) by {
            if i > 0 {
                assert(prec(s[0], t));
            }
        }
        assert(insert_desc(s, t) =~= s.take(0) + seq![t] + s.skip(0));
    } else {
        assert(i > 0) by {
            if i == 0 {
                assert(!prec(s[0], t));
                assert(tid(s[0]) != tid(t));
                assert(false);
            }
        }
        assert(forall|j: int|
            0 <= j < s.drop_first().len() ==> tid(#[trigger] s.drop_first()[j]) != tid(t)) by {
            assert(forall|j: int|
                0 <= j < s.drop_first().len() ==> s.drop_first()[j] == #[trigger] s[j + 1]);
        }
        assert(forall|j: int|
            0 <= j < i - 1 ==> prec(#[trigger] s.drop_first()[j], t)) by {
            assert(forall|j: int| 0 <= j < i - 1 ==> s.drop_first()[j] == #[trigger] s[j + 1]);
        }
        lemma_insert_desc_at(s.drop_first(), t, i - 1);
        assert(insert_desc(s, t) =~= s.take(i) + seq![t] + s.skip(i)) by {
            assert(s.drop_first().take(i - 1) =~= s.take(i).drop_first());
            assert(s.drop_first().skip(i - 1) =~= s.skip(i));
        }
    }
}

pub proof fn lemma_remove_id_at(s: Seq<TweetV>, id: int, i: int)
    requires
        0 <= i < s.len(),
        tid(s[i]) == id,
        forall|j: int| 0 <= j < i ==> tid(#[trigger] s[j]) != id,
    ensures
        remove_id(s, id) == s.take(i) + s.skip(i + 1),
    decreases s.len(),
{
    if tid(s[0]) == id {
        assert(i == 0);
        assert(remove_id(s, id) =~= s.take(0) + s.skip(1));
    } else {
        assert(forall|j: int|
            0 <= j < i - 1 ==> tid(#[trigger] s.drop_first()[j]) != id) by {
            assert(forall|j: int| 0 <= j < i - 1 ==> s.drop_first()[j] == #[trigger] s[j + 1]);
        }
        assert(s.drop_first()[i - 1] == s[i]);
        lemma_remove_id_at(s.drop_first(), id, i - 1);
        assert(remove_id(s, id) =~= s.take(i) + s.skip(i + 1)) by {
            assert(s.drop_first().take(i - 1) =~= s.take(i).drop_first());
            assert(s.drop_first().skip(i) =~= s.skip(i + 1));
        }
    }
}

pub proof fn lemma_remove_id_absent(s: Seq<TweetV>, id: int)
    requires
        forall|k: int| 0 <= k < s.len() ==> tid(#[trigger] s[k]) != id,
    ensures
        remove_id(s, id) == s,
    decreases s.len(),
{
    if s.len() > 0 {
        assert(forall|k: int|
            0 <= k < s.drop_first().len() ==> tid(#[trigger] s.drop_first()[k]) != id) by {
            assert(forall|k: int|
                0 <= k < s.drop_first().len() ==> s.drop_first()[k] == #[trigger] s[k + 1]);
        }
        lemma_remove_id_absent(s.drop_first(), id);
        assert(remove_id(s, id) =~= s);
    }
}

pub proof fn lemma_acct_by_id_snoc(s: Seq<AccountV>, a: AccountV, id: int)
    ensures
        acct_by_id(s.push(a), id) == (if acct_by_id(s, id) is Some {
            acct_by_id(s, id)
        } else if a.id == Some(id) {
            Some(a)
        } else {
            None
        }),
    decreases s.len(),
{
    if s.len() == 0 {
        assert(s.push(a) =~= seq![a]);
        assert(s.push(a).drop_first() =~= Seq::<AccountV>::empty());
    } else {
        assert(s.push(a).drop_first() =~= s.drop_first().push(a));
        lemma_acct_by_id_snoc(s.drop_first(), a, id);
    }
}


pub proof fn lemma_acct_by_id_none(s: Seq<AccountV>, id: int)
    ensures
        (acct_by_id(s, id) is None) <==> (forall|k: int|
            0 <= k < s.len() ==> (#[trigger] s[k]).id != Some(id)),
    decreases s.len(),
{
    if s.len() > 0 {
        lemma_acct_by_id_none(s.drop_first(), id);
        assert(forall|k: int|
            1 <= k < s.len() ==> s.drop_first()[k - 1] == #[trigger] s[k]);
    }
}

pub proof fn lemma_acct_by_email_none(s: Seq<AccountV>, email: Seq<char>)
    ensures
        (acct_by_email(s, email) is None) <==> (forall|k: int|
            0 <= k < s.len() ==> (#[trigger] s[k]).email != email),
    decreases s.len(),
{
    if s.len() > 0 {
        lemma_acct_by_email_none(s.drop_first(), email);
        assert(forall|k: int|
            1 <= k < s.len() ==> s.drop_first()[k - 1] == #[trigger] s[k]);
    }
}

pub proof fn lemma_acct_by_email_some(s: Seq<AccountV>, email: Seq<char>)
    requires
        acct_by_email(s, email) is Some,
    ensures
        exists|k: int|
            0 <= k < s.len() && s[k] == acct_by_email(s, email)->0 && (#[trigger] s[k]).email
                == email,
    decreases s.len(),
{
    if s.len() > 0 && s[0].email != email {
        lemma_acct_by_email_some(s.drop_first(), email);
        let a = acct_by_email(s, email)->0;
        let k = choose|k: int|
            0 <= k < s.drop_first().len() && s.drop_first()[k] == a && (#[trigger] s.drop_first()[k]).email
                == email;
        assert(s[k + 1] == a);
    }
}


pub proof fn lemma_session_record_none(s: Seq<SessionV>, token: Seq<char>)
    ensures
        (session_record(s, token) is None) <==> (forall|k: int|
            0 <= k < s.len() ==> (#[trigger] s[k]).token != token),
    decreases s.len(),
{
    if s.len() > 0 {
        lemma_session_record_none(s.drop_first(), token);
        assert(forall|k: int|
            1 <= k < s.len() ==> s.drop_first()[k - 1] == #[trigger] s[k]);
    }
}

/// Law: a tweet stored under a fresh identity is found again under
/// that identity, with its content unchanged.
pub proof fn lemma_store_then_find(rows: Seq<TweetV>, t: TweetV, id: int)
    requires
        !has_id(rows, id),
    ensures
        row_with_id(insert_desc(rows, t.stored(id)), id) == Some(t.stored(id)),
    decreases rows.len(),
{
    let ti = t.stored(id);
    if rows.len() == 0 {
        assert(insert_desc(rows, ti) =~= seq![ti]);
        assert(row_with_id(seq![ti], id) == Some(ti));
    } else if prec(ti, rows[0]) {
        assert((seq![ti] + rows)[0] == ti);
    } else {
        lemma_row_with_id_none(rows, id);
        assert(tid(rows[0]) != id);
        lemma_row_with_id_none(rows.drop_first(), id);
        assert(forall|k: int|
            0 <= k < rows.drop_first().len() ==> tid(#[trigger] rows.drop_first()[k]) != id) by {
            assert(forall|k: int|
                0 <= k < rows.drop_first().len() ==> rows.drop_first()[k] == #[trigger] rows[k
                    + 1]);
        }
        lemma_store_then_find(rows.drop_first(), t, id);
        let inner = insert_desc(rows.drop_first(), ti);
        assert(insert_desc(rows, ti) == seq![rows[0]] + inner);
        assert((seq![rows[0]] + inner)[0] == rows[0]);
        assert((seq![rows[0]] + inner).drop_first() =~= inner);
    }
}

} // verus!
