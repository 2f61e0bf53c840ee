//! In-memory repositories: verified implementations of the
//! persistence contracts, and the test doubles the services are
//! exercised with.

use crate::entities::{Account, AccountV, Tweet, TweetV};
use crate::errors::Error;
use crate::repositories::{
    acct_by_email, acct_by_id, has_id, insert_desc, lemma_acct_by_email_none,
    lemma_acct_by_id_none, lemma_acct_by_id_snoc, lemma_insert_desc_at, lemma_remove_id_absent,
    lemma_remove_id_at, lemma_row_with_id_none, lemma_session_record_none, prec, row_with_id,
    session_record, session_user_at, sorted_desc, tid, Accounts, SessionV, Sessions, Tweets,
    SESSION_LIFETIME,
};
use crate::text::{dec_digits, lemma_dec_digits_injective, str_eq, usize_to_string};
use std::collections::{HashMap, HashSet};
use vstd::prelude::*;

verus! {

broadcast use vstd::std_specs::hash::group_hash_axioms;

/// An in-memory accounts store.
pub struct InMemoryAccounts {
    rows: Vec<Account>,
    next_id: i32,
}

impl InMemoryAccounts {
    /// An empty store; identities are assigned from 1 upwards.
    pub fn new() -> (r: InMemoryAccounts)
        ensures
            r.inv(),
            r.table() == Seq::<AccountV>::empty(),
    {
        let r = InMemoryAccounts { rows: Vec::new(), next_id: 1 };
        proof {
            assert(r.table() =~= Seq::<AccountV>::empty());
        }
        r
    }
}

impl Accounts for InMemoryAccounts {
    closed spec fn table(&self) -> Seq<AccountV> {
        self.rows@.map_values(|a: Account| a@)
    }

    closed spec fn inv(&self) -> bool {
        &&& 1 <= self.next_id
        &&& forall|i: int|
            0 <= i < self.table().len() ==> {
                &&& (#[trigger] self.table()[i]).id is Some
                &&& 1 <= self.table()[i].id->0 < self.next_id
            }
        &&& forall|i: int, j: int|
            #![auto]
            0 <= i < j < self.table().len() ==> self.table()[i].id != self.table()[j].id
        &&& forall|i: int, j: int|
            #![auto]
            0 <= i < j < self.table().len() ==> self.table()[i].email != self.table()[j].email
    }

    fn find(&self, ids: HashSet<i32>) -> (r: HashMap<i32, Account>) {
        let mut result: HashMap<i32, Account> = HashMap::new();
        let n = self.rows.len();
        let mut i: usize = 0;
        while i < n
            invariant
                self.inv(),
                n == self.rows.len(),
                i <= n,
                forall|id: i32|
                    #![auto]
                    result@.contains_key(id) <==> (ids@.contains(id) && acct_by_id(
                        self.table().take(i as int),
                        id as int,
                    ) is Some),
                forall|id: i32|
                    #![auto]
                    result@.contains_key(id) ==> acct_by_id(self.table().take(i as int), id as int)
                        == Some(result@[id]@),
            decreases n - i,
        {
            let ghost prefix = self.table().take(i as int);
            let ghost row = self.table()[i as int];
            let idv = match self.rows[i].id {
                Some(v) => v,
                None => {
                    proof {
                        assert(self.table()[i as int].id is Some);
                        assert(false);
                    }
                    0
                },
            };
            proof {
                assert(row.id == Some(idv as int));
            }
            if ids.contains(&idv) {
                proof {
                    lemma_acct_by_id_none(prefix, idv as int);
                    assert(forall|k: int|
                        0 <= k < prefix.len() ==> (#[trigger] prefix[k]).id != Some(idv as int));
                }
                result.insert(idv, self.rows[i].duplicate());
            }
            proof {
                assert(self.table().take(i + 1) =~= prefix.push(row));
                assert forall|id: i32| #![auto]
                    acct_by_id(self.table().take(i + 1), id as int) == (if acct_by_id(
                        prefix,
                        id as int,
                    ) is Some {
                        acct_by_id(prefix, id as int)
                    } else if row.id == Some(id as int) {
                        Some(row)
                    } else {
                        None
                    }) by {
                    lemma_acct_by_id_snoc(prefix, row, id as int);
                }
            }
            i = i + 1;
        }
        proof {
            assert(self.table().take(n as int) =~= self.table());
        }
        result
    }

    fn find_by(&self, email: &str) -> (r: Option<Account>) {
        let n = self.rows.len();
        let mut i: usize = 0;
        proof {
            assert(self.table().skip(0) =~= self.table());
        }
        while i < n
            invariant
                self.inv(),
                n == self.rows.len(),
                i <= n,
                acct_by_email(self.table(), email@) == acct_by_email(
                    self.table().skip(i as int),
                    email@,
                ),
            decreases n - i,
        {
            let ghost suffix = self.table().skip(i as int);
            proof {
                assert(suffix[0] == self.table()[i as int]);
                assert(suffix.drop_first() =~= self.table().skip(i + 1));
            }
            if str_eq(self.rows[i].email.as_str(), email) {
                return Some(self.rows[i].duplicate());
            }
            i = i + 1;
        }
        proof {
            assert(self.table().skip(n as int) =~= Seq::<AccountV>::empty());
        }
        None
    }

    fn store(&mut self, entity: &Account) -> (r: Result<i32, Error>) {
        let n = self.rows.len();
        let mut i: usize = 0;
        proof {
            assert(self.table().skip(0) =~= self.table());
        }
        while i < n
            invariant
                self.inv(),
                self == old(self),
                n == self.rows.len(),
                i <= n,
                acct_by_email(self.table(), entity@.email) == acct_by_email(
                    self.table().skip(i as int),
                    entity@.email,
                ),
            decreases n - i,
        {
            let ghost suffix = self.table().skip(i as int);
            proof {
                assert(suffix[0] == self.table()[i as int]);
                assert(suffix.drop_first() =~= self.table().skip(i + 1));
            }
            if str_eq(self.rows[i].email.as_str(), entity.email.as_str()) {
                return Err(Error::DuplicateEmail);
            }
            i = i + 1;
        }
        proof {
            assert(self.table().skip(n as int) =~= Seq::<AccountV>::empty());
            assert(acct_by_email(self.table(), entity@.email) is None);
        }
        if self.next_id == i32::MAX {
            return Err(Error::Storage);
        }
        let ghost old_table = self.table();
        let id = self.next_id;
        self.next_id = self.next_id + 1;
        let row = Account::new(
            id,
            entity.email.clone(),
            entity.hashed_password.clone(),
            entity.display_name.clone(),
        );
        self.rows.push(row);
        proof {
            assert(self.table() =~= old_table.push(
                AccountV {
                    id: Some(id as int),
                    email: entity@.email,
                    hashed_password: entity@.hashed_password,
                    display_name: entity@.display_name,
                },
            ));
            lemma_acct_by_id_none(old_table, id as int);
            lemma_acct_by_email_none(old_table, entity@.email);
        }
        Ok(id)
    }
}

/// An in-memory tweets store.
pub struct InMemoryTweets {
    items: Vec<Tweet>,
    next_id: i32,
    log: Ghost<Seq<TweetV>>,
}

impl InMemoryTweets {
    /// An empty store; identities are assigned from 1 upwards.
    pub fn new() -> (r: InMemoryTweets)
        ensures
            r.inv(),
            r.rows() == Seq::<TweetV>::empty(),
            r.log() == Seq::<TweetV>::empty(),
    {
        let r = InMemoryTweets { items: Vec::new(), next_id: 1, log: Ghost(Seq::empty()) };
        proof {
            assert(r.rows() =~= Seq::<TweetV>::empty());
        }
        r
    }
}

impl Tweets for InMemoryTweets {
    closed spec fn rows(&self) -> Seq<TweetV> {
        self.items@.map_values(|t: Tweet| t@)
    }

    closed spec fn log(&self) -> Seq<TweetV> {
        self.log@
    }

    closed spec fn inv(&self) -> bool {
        &&& 1 <= self.next_id
        &&& forall|i: int|
            0 <= i < self.rows().len() ==> {
                &&& (#[trigger] self.rows()[i]).wf_row()
                &&& tid(self.rows()[i]) < self.next_id
            }
        &&& forall|i: int, j: int|
            #![auto]
            0 <= i < j < self.rows().len() ==> tid(self.rows()[i]) != tid(self.rows()[j])
        &&& sorted_desc(self.rows())
    }

    fn find(&self, id: i32) -> (r: Option<Tweet>) {
        let n = self.items.len();
        let mut i: usize = 0;
        proof {
            assert(self.rows().skip(0) =~= self.rows());
        }
        while i < n
            invariant
                self.inv(),
                n == self.items.len(),
                i <= n,
                row_with_id(self.rows(), id as int) == row_with_id(
                    self.rows().skip(i as int),
                    id as int,
                ),
            decreases n - i,
        {
            let ghost suffix = self.rows().skip(i as int);
            proof {
                assert(suffix[0] == self.rows()[i as int]);
                assert(suffix.drop_first() =~= self.rows().skip(i + 1));
            }
            let hit = match self.items[i].id {
                Some(v) => v == id,
                None => false,
            };
            proof {
                assert(self.rows()[i as int].id is Some);
                assert(hit == (tid(self.rows()[i as int]) == id as int));
            }
            if hit {
                return Some(self.items[i].duplicate());
            }
            i = i + 1;
        }
        proof {
            assert(self.rows().skip(n as int) =~= Seq::<TweetV>::empty());
        }
        None
    }

    fn list(&self) -> (r: Vec<Tweet>) {
        let mut out: Vec<Tweet> = Vec::new();
        let n = self.items.len();
        let mut i: usize = 0;
        while i < n
            invariant
                n == self.items.len(),
                i <= n,
                out@.len() == i,
                forall|j: int| 0 <= j < i ==> out@[j]@ == self.rows()[j],
            decreases n - i,
        {
            out.push(self.items[i].duplicate());
            i = i + 1;
        }
        out
    }

    fn store(&mut self, entity: &Tweet) -> (r: Result<(), Error>) {
        self.log = Ghost(self.log@.push(entity@));
        let ghost rows_v = self.rows();
        let n = self.items.len();
        match entity.id {
            None => {
                if self.next_id == i32::MAX {
                    return Err(Error::Storage);
                }
                let id = self.next_id;
                self.next_id = self.next_id + 1;
                let t = Tweet::new(id, entity.message.clone(), entity.posted_at, entity.posted_by);
                let ghost tv = t@;
                proof {
                    assert(tv == entity@.stored(id as int));
                    assert(forall|j: int|
                        0 <= j < rows_v.len() ==> tid(#[trigger] rows_v[j]) != tid(tv));
                }
                let mut i: usize = 0;
                while i < n
                    invariant
                        i <= n,
                        n == self.items.len(),
                        rows_v == self.rows(),
                        tv == t@,
                        tv.id == Some(id as int),
                        forall|k: int| 0 <= k < rows_v.len() ==> (#[trigger] rows_v[k]).wf_row(),
                        forall|j: int| 0 <= j < i ==> prec(#[trigger] rows_v[j], tv),
                    ensures
                        i <= n,
                        n == self.items.len(),
                        rows_v == self.rows(),
                        forall|j: int| 0 <= j < i ==> prec(#[trigger] rows_v[j], tv),
                        i < n ==> !prec(rows_v[i as int], tv),
                    decreases n - i,
                {
                    let row = &self.items[i];
                    let precedes = row.posted_at > t.posted_at || (row.posted_at == t.posted_at
                        && (match row.id {
                        Some(v) => v > id,
                        None => false,
                    }));
                    proof {
                        assert(self.rows()[i as int].id is Some);
                        assert(precedes == prec(rows_v[i as int], tv));
                    }
                    if !precedes {
                        break;
                    }
                    i = i + 1;
                }
                self.items.insert(i, t);
                proof {
                    let newr = rows_v.take(i as int) + seq![tv] + rows_v.skip(i as int);
                    assert(self.rows() =~= newr);
                    lemma_insert_desc_at(rows_v, tv, i as int);
                    lemma_row_with_id_none(rows_v, id as int);
                    assert(!has_id(rows_v, id as int));
                    assert(self.rows() == insert_desc(rows_v, entity@.stored(id as int)));
                    lemma_sorted_insert(rows_v, tv, i as int);
                    assert(forall|k: int| 0 <= k < i ==> newr[k] == #[trigger] rows_v[k]);
                    assert(newr[i as int] == tv);
                    assert(forall|k: int|
                        i < k < newr.len() ==> newr[k] == #[trigger] rows_v[k - 1]);
                    assert forall|x: int|
                        0 <= x < newr.len() implies ((#[trigger] newr[x]).wf_row() && tid(newr[x])
                        < self.next_id) by {
                        if x < i {
                            assert(newr[x] == rows_v[x]);
                        } else if x > i {
                            assert(newr[x] == rows_v[x - 1]);
                        }
                    }
                    assert forall|x: int, y: int|
                        #![auto]
                        0 <= x < y < newr.len() implies tid(newr[x]) != tid(newr[y]) by {
                        if x < i {
                            assert(newr[x] == rows_v[x]);
                        } else if x > i {
                            assert(newr[x] == rows_v[x - 1]);
                        }
                        if y < i {
                            assert(newr[y] == rows_v[y]);
                        } else if y > i {
                            assert(newr[y] == rows_v[y - 1]);
                        }
                    }
                }
                Ok(())
            },
            Some(idv) => {
                if entity.is_deleted() {
                    let mut i: usize = 0;
                    while i < n
                        invariant
                            i <= n,
                            n == self.items.len(),
                            rows_v == self.rows(),
                            self.inv(),
                            forall|j: int| 0 <= j < i ==> tid(#[trigger] rows_v[j]) != idv as int,
                        ensures
                            i <= n,
                            n == self.items.len(),
                            rows_v == self.rows(),
                            self.inv(),
                            forall|j: int| 0 <= j < i ==> tid(#[trigger] rows_v[j]) != idv as int,
                            i < n ==> tid(rows_v[i as int]) == idv as int,
                        decreases n - i,
                    {
                        let hit = match self.items[i].id {
                            Some(v) => v == idv,
                            None => false,
                        };
                        proof {
                            assert(self.rows()[i as int].id is Some);
                            assert(hit == (tid(rows_v[i as int]) == idv as int));
                        }
                        if hit {
                            break;
                        }
                        i = i + 1;
                    }
                    if i < n {
                        self.items.remove(i);
                        proof {
                            let newr = rows_v.take(i as int) + rows_v.skip(i as int + 1);
                            assert(self.rows() =~= newr);
                            lemma_remove_id_at(rows_v, idv as int, i as int);
                            lemma_sorted_remove(rows_v, i as int);
                            assert(forall|k: int| 0 <= k < i ==> newr[k] == #[trigger] rows_v[k]);
                            assert(forall|k: int|
                                i <= k < newr.len() ==> newr[k] == #[trigger] rows_v[k + 1]);
                            assert forall|x: int|
                                0 <= x < newr.len() implies ((#[trigger] newr[x]).wf_row() && tid(
                                newr[x],
                            ) < self.next_id) by {
                                if x < i {
                                    assert(newr[x] == rows_v[x]);
                                } else {
                                    assert(newr[x] == rows_v[x + 1]);
                                }
                            }
                            assert forall|x: int, y: int|
                                #![auto]
                                0 <= x < y < newr.len() implies tid(newr[x]) != tid(newr[y]) by {
                                if x < i {
                                    assert(newr[x] == rows_v[x]);
                                } else {
                                    assert(newr[x] == rows_v[x + 1]);
                                }
                                if y < i {
                                    assert(newr[y] == rows_v[y]);
                                } else {
                                    assert(newr[y] == rows_v[y + 1]);
                                }
                            }
                        }
                        Ok(())
                    } else {
                        proof {
                            lemma_remove_id_absent(rows_v, idv as int);
                        }
                        Ok(())
                    }
                } else {
                    Ok(())
                }
            },
        }
    }
}

/// Inserting at the scan position keeps the timeline sorted.
proof fn lemma_sorted_insert(s: Seq<TweetV>, t: TweetV, i: int)
    requires
        sorted_desc(s),
        0 <= i <= s.len(),
        forall|j: int| 0 <= j < i ==> prec(#[trigger] s[j], t),
        i < s.len() ==> !prec(s[i], t),
        forall|j: int| 0 <= j < s.len() ==> tid(#[trigger] s[j]) != tid(t),
    ensures
        sorted_desc(s.take(i) + seq![t] + s.skip(i)),
{
    let r = s.take(i) + seq![t] + s.skip(i);
    assert(r.len() == s.len() + 1);
    assert(forall|k: int| 0 <= k < i ==> r[k] == #[trigger] s[k]);
    assert(r[i] == t);
    assert(forall|k: int| i < k < r.len() ==> r[k] == #[trigger] s[k - 1]);
    assert forall|x: int, y: int| 0 <= x < y < r.len() implies prec(r[x], r[y]) by {
        if y == i {
            assert(r[x] == s[x]);
        } else if x == i {
            assert(i < s.len());
            assert(prec(t, s[i]));
            assert(r[y] == s[y - 1]);
            if y - 1 > i {
                assert(prec(s[i], s[y - 1]));
            }
        } else if x < i && y > i {
            assert(r[x] == s[x]);
            assert(r[y] == s[y - 1]);
            if x == y - 1 {
                assert(prec(s[x], t));
                assert(prec(t, s[i]));
            } else {
                assert(prec(s[x], s[y - 1]));
            }
        }
    }
}

/// Removing a row keeps the timeline sorted.
proof fn lemma_sorted_remove(s: Seq<TweetV>, i: int)
    requires
        sorted_desc(s),
        0 <= i < s.len(),
    ensures
        sorted_desc(s.take(i) + s.skip(i + 1)),
{
    let r = s.take(i) + s.skip(i + 1);
    assert(r.len() == s.len() - 1);
    assert(forall|k: int| 0 <= k < i ==> r[k] == #[trigger] s[k]);
    assert(forall|k: int| i <= k < r.len() ==> r[k] == #[trigger] s[k + 1]);
    assert forall|x: int, y: int| 0 <= x < y < r.len() implies prec(r[x], r[y]) by {
        if x < i {
            assert(r[x] == s[x]);
        } else {
            assert(r[x] == s[x + 1]);
        }
        if y < i {
            assert(r[y] == s[y]);
        } else {
            assert(r[y] == s[y + 1]);
        }
    }
}

/// One server-side session record.
pub struct SessionEntry {
    pub token: String,
    pub user_id: i32,
    pub expires_at: i64,
}

impl View for SessionEntry {
    type V = SessionV;

    open spec fn view(&self) -> SessionV {
        SessionV {
            token: self.token@,
            user_id: self.user_id,
            expires_at: self.expires_at as int,
        }
    }
}

/// An in-memory session store. Tokens are the decimal rendering of a
/// running counter, which keeps them distinct.
pub struct InMemorySessions {
    entries: Vec<SessionEntry>,
}

impl InMemorySessions {
    /// An empty session store.
    pub fn new() -> (r: InMemorySessions)
        ensures
            r.inv(),
            r.records() == Seq::<SessionV>::empty(),
    {
        let r = InMemorySessions { entries: Vec::new() };
        proof {
            assert(r.records() =~= Seq::<SessionV>::empty());
        }
        r
    }
}

impl Sessions for InMemorySessions {
    closed spec fn records(&self) -> Seq<SessionV> {
        self.entries@.map_values(|e: SessionEntry| e@)
    }

    closed spec fn inv(&self) -> bool {
        forall|i: int|
            0 <= i < self.records().len() ==> (#[trigger] self.records()[i]).token == dec_digits(
                i as nat,
            )
    }

    fn store_session(&mut self, user_id: i32, now: i64) -> (r: String) {
        let ghost old_records = self.records();
        let token = usize_to_string(self.entries.len());
        proof {
            assert forall|k: int| 0 <= k < old_records.len() implies (#[trigger] old_records[k]).token
                != token@ by {
                if old_records[k].token == token@ {
                    lemma_dec_digits_injective(k as nat, old_records.len() as nat);
                }
            }
            lemma_session_record_none(old_records, token@);
        }
        let expires_at = now + SESSION_LIFETIME;
        let entry = SessionEntry { token: token.clone(), user_id, expires_at };
        self.entries.push(entry);
        proof {
            assert(self.records() =~= old_records.push(
                SessionV { token: token@, user_id, expires_at: now + SESSION_LIFETIME },
            ));
        }
        token
    }

    fn load_session(&self, token: &str, now: i64) -> (r: Option<i32>) {
        let n = self.entries.len();
        let mut i: usize = 0;
        proof {
            assert(self.records().skip(0) =~= self.records());
        }
        while i < n
            invariant
                n == self.entries.len(),
                i <= n,
                session_record(self.records(), token@) == session_record(
                    self.records().skip(i as int),
                    token@,
                ),
            decreases n - i,
        {
            let ghost suffix = self.records().skip(i as int);
            proof {
                assert(suffix[0] == self.records()[i as int]);
                assert(suffix.drop_first() =~= self.records().skip(i + 1));
            }
            if str_eq(self.entries[i].token.as_str(), token) {
                if now < self.entries[i].expires_at {
                    return Some(self.entries[i].user_id);
                } else {
                    return None;
                }
            }
            i = i + 1;
        }
        proof {
            assert(self.records().skip(n as int) =~= Seq::<SessionV>::empty());
            assert(session_user_at(self.records(), token@, now) is None);
        }
        None
    }
}

} // verus!
