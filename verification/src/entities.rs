//! Domain entities: accounts and tweets.

use crate::hashing::{hash_password, sha256_hex};
use crate::time::{current_timestamp, TS_MAX};
use vstd::prelude::*;
use vstd::string::StringExecFns;

verus! {

/// The spec-level value of an account.
pub ghost struct AccountV {
    pub id: Option<int>,
    pub email: Seq<char>,
    pub hashed_password: Seq<char>,
    pub display_name: Seq<char>,
}

/// The spec-level value of an optional numeric identity.
pub open spec fn id_view(id: Option<i32>) -> Option<int> {
    match id {
        Some(i) => Some(i as int),
        None => None,
    }
}

/// A registered user identity. The identity is assigned by the store;
/// the password is kept only as its hash.
pub struct Account {
    pub id: Option<i32>,
    pub email: String,
    pub hashed_password: String,
    pub display_name: String,
}

impl View for Account {
    type V = AccountV;

    open spec fn view(&self) -> AccountV {
        AccountV {
            id: id_view(self.id),
            email: self.email@,
            hashed_password: self.hashed_password@,
            display_name: self.display_name@,
        }
    }
}

impl Account {
    /// Materializes a stored row, whose identity is already assigned.
    pub fn new(id: i32, email: String, hashed_password: String, display_name: String) -> (r:
        Account)
        ensures
            r@ == (AccountV {
                id: Some(id as int),
                email: email@,
                hashed_password: hashed_password@,
                display_name: display_name@,
            }),
    {
        Account { id: Some(id), email, hashed_password, display_name }
    }

    /// Builds a fresh, not yet stored account. The plaintext password
    /// is hashed here and never retained: the stored field is the
    /// 64-character hex digest, so it can only coincide with the
    /// plaintext if the password is itself 64 characters long.
    pub fn create(email: &str, password: &str, display_name: &str) -> (r: Account)
        ensures
            r@ == (AccountV {
                id: None,
                email: email@,
                hashed_password: sha256_hex(password@),
                display_name: display_name@,
            }),
            r@.hashed_password.len() == 64,
            password@.len() != 64 ==> r@.hashed_password != password@,
    {
        Account {
            id: None,
            email: String::from_str(email),
            hashed_password: hash_password(password),
            display_name: String::from_str(display_name),
        }
    }

    pub fn id(&self) -> (r: Option<i32>)
        ensures
            id_view(r) == self@.id,
    {
        self.id
    }

    /// Whether a supplied plaintext hashes to the stored password hash.
    pub fn matches_password(&self, password: &str) -> (r: bool)
        ensures
            r == (self@.hashed_password == sha256_hex(password@)),
    {
        let hashed = hash_password(password);
        hashed == self.hashed_password
    }

    /// A field-for-field copy.
    pub fn duplicate(&self) -> (r: Account)
        ensures
            r@ == self@,
    {
        Account {
            id: self.id,
            email: self.email.clone(),
            hashed_password: self.hashed_password.clone(),
            display_name: self.display_name.clone(),
        }
    }
}

/// The spec-level value of a tweet.
pub ghost struct TweetV {
    pub id: Option<int>,
    pub message: Seq<char>,
    pub posted_at: int,
    pub posted_by: int,
    pub deleted: bool,
}

impl TweetV {
    /// What holds of every tweet materialized from the store: an
    /// assigned identity, a live row, and a renderable posting time.
    pub open spec fn wf_row(self) -> bool {
        &&& self.id is Some
        &&& 0 <= self.id->0 <= i32::MAX
        &&& !self.deleted
        &&& 0 <= self.posted_at <= TS_MAX
    }

    /// The row an insertion of this tweet produces: same content,
    /// the assigned identity, and no deleted mark (the mark is
    /// transient and never stored).
    pub open spec fn stored(self, id: int) -> TweetV {
        TweetV {
            id: Some(id),
            message: self.message,
            posted_at: self.posted_at,
            posted_by: self.posted_by,
            deleted: false,
        }
    }
}

/// A short message authored by an account at a specific time. The
/// identity is assigned by the first successful store; `deleted` is a
/// transient mark that turns the next store into a removal.
pub struct Tweet {
    pub id: Option<i32>,
    pub message: String,
    pub posted_at: i64,
    pub posted_by: i32,
    pub deleted: bool,
}

impl View for Tweet {
    type V = TweetV;

    open spec fn view(&self) -> TweetV {
        TweetV {
            id: id_view(self.id),
            message: self.message@,
            posted_at: self.posted_at as int,
            posted_by: self.posted_by as int,
            deleted: self.deleted,
        }
    }
}

impl Tweet {
    /// Materializes a stored row, whose identity is already assigned.
    pub fn new(id: i32, message: String, posted_at: i64, posted_by: i32) -> (r: Tweet)
        requires
            0 <= posted_at <= TS_MAX,
        ensures
            r@ == (TweetV {
                id: Some(id as int),
                message: message@,
                posted_at: posted_at as int,
                posted_by: posted_by as int,
                deleted: false,
            }),
    {
        Tweet { id: Some(id), message, posted_at, posted_by, deleted: false }
    }

    /// Builds a fresh, not yet stored tweet, posted now.
    pub fn create(message: &str, posted_by: i32) -> (r: Tweet)
        ensures
            r@.id is None,
            r@.message == message@,
            r@.posted_by == posted_by as int,
            r@.deleted == false,
            0 <= r@.posted_at <= TS_MAX,
    {
        Tweet {
            id: None,
            message: String::from_str(message),
            posted_at: current_timestamp(),
            posted_by,
            deleted: false,
        }
    }

    pub fn id(&self) -> (r: Option<i32>)
        ensures
            id_view(r) == self@.id,
    {
        self.id
    }

    pub fn is_deleted(&self) -> (r: bool)
        ensures
            r == self@.deleted,
    {
        self.deleted
    }

    /// Marks the tweet for removal by the next store.
    pub fn delete(&mut self)
        ensures
            final(self)@ == (TweetV { deleted: true, ..old(self)@ }),
    {
        self.deleted = true;
    }

    /// A field-for-field copy.
    pub fn duplicate(&self) -> (r: Tweet)
        ensures
            r@ == self@,
    {
        Tweet {
            id: self.id,
            message: self.message.clone(),
            posted_at: self.posted_at,
            posted_by: self.posted_by,
            deleted: self.deleted,
        }
    }
}

} // verus!
