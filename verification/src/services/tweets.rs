//! Tweet use cases: the joined timeline, posting, and deletion.

use crate::entities::{Tweet, TweetV};
use crate::errors::Error;
use crate::repositories::{
    acct_by_id, has_id, insert_desc, lemma_row_with_id_some, remove_id, row_with_id, Accounts,
    Tweets,
};
use crate::request::UserContext;
use crate::time::{ymd_hm, TS_MAX};
use crate::views::Home;
use std::collections::HashSet;
use vstd::prelude::*;

verus! {

broadcast use vstd::std_specs::hash::group_hash_axioms;

/// Renders the timeline: every stored tweet, most recent first, each
/// joined with its author's display name. Fails with `Integrity`
/// exactly when some tweet's author is not a stored account.
pub fn list_tweets<T: Tweets, A: Accounts>(repo: &T, account_repo: &A) -> (r: Result<Home, Error>)
    requires
        repo.inv(),
        account_repo.inv(),
    ensures
        match r {
            Ok(home) => {
                &&& home.tweets@.len() == repo.rows().len()
                &&& forall|i: int|
                    #![auto]
                    0 <= i < repo.rows().len() ==> {
                        &&& home.tweets@[i].message@ == repo.rows()[i].message
                        &&& home.tweets@[i].posted_at@ == ymd_hm(repo.rows()[i].posted_at as i64)
                        &&& match acct_by_id(account_repo.table(), repo.rows()[i].posted_by) {
                            Some(a) => home.tweets@[i].name@ == a.display_name,
                            None => false,
                        }
                    }
            },
            Err(e) => e == Error::Integrity && exists|i: int|
                0 <= i < repo.rows().len() && acct_by_id(
                    account_repo.table(),
                    (#[trigger] repo.rows()[i]).posted_by,
                ) is None,
        },
{
    let tweets = repo.list();
    let ghost rows = repo.rows();
    let n = tweets.len();
    let mut ids: HashSet<i32> = HashSet::new();
    let mut i: usize = 0;
    while i < n
        invariant
            n == tweets@.len(),
            i <= n,
            tweets@.len() == rows.len(),
            rows == repo.rows(),
            forall|j: int| 0 <= j < rows.len() ==> tweets@[j]@ == rows[j],
            forall|id: i32|
                #![auto]
                ids@.contains(id) <==> exists|j: int| 0 <= j < i && rows[j].posted_by == id as int,
        decreases n - i,
    {
        ids.insert(tweets[i].posted_by);
        proof {
            assert(tweets@[i as int]@ == rows[i as int]);
        }
        i = i + 1;
    }
    let accounts = account_repo.find(ids);
    let ghost table = account_repo.table();
    let mut out: Vec<crate::views::Tweet> = Vec::new();
    let mut i: usize = 0;
    while i < n
        invariant
            n == tweets@.len(),
            i <= n,
            tweets@.len() == rows.len(),
            rows == repo.rows(),
            table == account_repo.table(),
            forall|j: int| 0 <= j < rows.len() ==> tweets@[j]@ == rows[j],
            forall|j: int| 0 <= j < rows.len() ==> (#[trigger] rows[j]).wf_row(),
            forall|id: i32|
                #![auto]
                ids@.contains(id) <==> exists|j: int|
                    0 <= j < rows.len() && rows[j].posted_by == id as int,
            forall|id: i32|
                #![auto]
                accounts@.contains_key(id) <==> (ids@.contains(id) && acct_by_id(table, id as int)
                    is Some),
            forall|id: i32|
                #![auto]
                accounts@.contains_key(id) ==> acct_by_id(table, id as int) == Some(
                    accounts@[id]@,
                ),
            out@.len() == i,
            forall|j: int|
                #![auto]
                0 <= j < i ==> {
                    &&& out@[j].message@ == rows[j].message
                    &&& out@[j].posted_at@ == ymd_hm(rows[j].posted_at as i64)
                    &&& match acct_by_id(table, rows[j].posted_by) {
                        Some(a) => out@[j].name@ == a.display_name,
                        None => false,
                    }
                },
        decreases n - i,
    {
        let author = tweets[i].posted_by;
        proof {
            assert(tweets@[i as int]@ == rows[i as int]);
            assert(ids@.contains(author));
        }
        match accounts.get(&author) {
            None => {
                proof {
                    assert(acct_by_id(table, author as int) is None);
                    assert(rows[i as int].posted_by == author as int);
                    assert(acct_by_id(
                        account_repo.table(),
                        repo.rows()[i as int].posted_by,
                    ) is None);
                }
                return Err(Error::Integrity);
            },
            Some(account) => {
                let row = crate::views::Tweet {
                    message: tweets[i].message.clone(),
                    posted_at: crate::time::format_ymd_hm(tweets[i].posted_at),
                    name: account.display_name.clone(),
                };
                out.push(row);
            },
        }
        i = i + 1;
    }
    Ok(Home { tweets: out })
}

/// Posts a new message as the authenticated user: a fresh tweet,
/// stamped now, is handed to the store.
pub fn create_tweet<T: Tweets>(repo: &mut T, user_context: &UserContext, message: &str) -> (r:
    Result<(), Error>)
    requires
        old(repo).inv(),
    ensures
        final(repo).inv(),
        exists|ts: int|
            #![auto]
            0 <= ts <= TS_MAX as int && final(repo).log() == old(repo).log().push(
                TweetV {
                    id: None,
                    message: message@,
                    posted_at: ts,
                    posted_by: user_context.user_id as int,
                    deleted: false,
                },
            ),
        r is Ok ==> exists|id: int, ts: int|
            #![auto]
            {
                &&& 0 <= id <= i32::MAX
                &&& 0 <= ts <= TS_MAX as int
                &&& !has_id(old(repo).rows(), id)
                &&& final(repo).rows() == insert_desc(
                    old(repo).rows(),
                    TweetV {
                        id: Some(id),
                        message: message@,
                        posted_at: ts,
                        posted_by: user_context.user_id as int,
                        deleted: false,
                    },
                )
            },
        r is Err ==> r == Err::<(), Error>(Error::Storage) && final(repo).rows() == old(
            repo,
        ).rows(),
{
    let new_tweet = Tweet::create(message, user_context.user_id);
    let result = repo.store(&new_tweet);
    proof {
        let ts = new_tweet@.posted_at;
        assert(new_tweet@ == (TweetV {
            id: None,
            message: message@,
            posted_at: ts,
            posted_by: user_context.user_id as int,
            deleted: false,
        }));
        if result is Ok {
            let id = choose|id: int|
                {
                    &&& 0 <= id <= i32::MAX
                    &&& !has_id(old(repo).rows(), id)
                    &&& final(repo).rows() == insert_desc(
                        old(repo).rows(),
                        #[trigger] new_tweet@.stored(id),
                    )
                };
            assert(new_tweet@.stored(id) == (TweetV {
                id: Some(id),
                message: message@,
                posted_at: ts,
                posted_by: user_context.user_id as int,
                deleted: false,
            }));
        }
    }
    result
}

/// Deletes a stored tweet: a missing identity is a no-op without any
/// store call; a present one is marked deleted and handed to the
/// store exactly once, which removes the row.
pub fn delete_tweet<T: Tweets>(repo: &mut T, id: i32) -> (r: Result<(), Error>)
    requires
        old(repo).inv(),
    ensures
        final(repo).inv(),
        row_with_id(old(repo).rows(), id as int) is None ==> {
            &&& r == Ok::<(), Error>(())
            &&& final(repo).rows() == old(repo).rows()
            &&& final(repo).log() == old(repo).log()
        },
        row_with_id(old(repo).rows(), id as int) matches Some(t) ==> {
            &&& t.id == Some(id as int)
            &&& final(repo).log() == old(repo).log().push(TweetV { deleted: true, ..t })
            &&& (r is Ok ==> final(repo).rows() == remove_id(old(repo).rows(), id as int))
            &&& (r is Err ==> r == Err::<(), Error>(Error::Storage) && final(repo).rows() == old(
                repo,
            ).rows())
        },
{
    let found = repo.find(id);
    match found {
        None => Ok(()),
        Some(mut tweet) => {
            proof {
                lemma_row_with_id_some(old(repo).rows(), id as int);
            }
            tweet.delete();
            let result = repo.store(&tweet);
            result
        },
    }
}

} // verus!
