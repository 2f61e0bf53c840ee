use minitweet::entities::{Account, Tweet};
use minitweet::errors::Error;
use minitweet::memory::{InMemoryAccounts, InMemorySessions, InMemoryTweets};
use minitweet::repositories::{Accounts, Sessions, Tweets};
use minitweet::request::{user_context, UserContext};
use minitweet::services::accounts::{clear_session, create_account, create_session, SessionToken};
use minitweet::services::tweets::{create_tweet, delete_tweet, list_tweets};
use minitweet::time::{current_timestamp, format_ymd_hm};
use sha2::{Digest, Sha256};
use std::collections::HashSet;

fn hex_sha256(s: &str) -> String {
    format!("{:x}", Sha256::digest(s.as_bytes()))
}

#[test]
fn account_create_hashes_password() {
    let account = Account::create("a@x", "p", "A");
    assert_eq!(account.email, "a@x");
    assert_eq!(account.display_name, "A");
    assert_eq!(account.hashed_password, hex_sha256("p"));
    assert_ne!(account.hashed_password, "p");
    assert_eq!(account.id(), None);
    assert!(account.matches_password("p"));
    assert!(!account.matches_password("q"));
}

#[test]
fn tweet_create_is_fresh_and_stamped_now() {
    let before = chrono::Utc::now().timestamp();
    let tweet = Tweet::create("hi", 7);
    let after = chrono::Utc::now().timestamp();
    assert_eq!(tweet.id(), None);
    assert_eq!(tweet.message, "hi");
    assert_eq!(tweet.posted_by, 7);
    assert!(!tweet.is_deleted());
    assert!(before <= tweet.posted_at && tweet.posted_at <= after);
}

#[test]
fn store_then_find_round_trip() {
    let mut tweets = InMemoryTweets::new();
    let fresh = Tweet {
        id: None,
        message: "hello".to_string(),
        posted_at: 1577836800,
        posted_by: 3,
        deleted: false,
    };
    tweets.store(&fresh).unwrap();

    let found = tweets.find(1).expect("the first stored tweet gets identity 1");
    assert_eq!(found.id(), Some(1));
    assert_eq!(found.message, "hello");
    assert_eq!(found.posted_at, 1577836800);
    assert_eq!(found.posted_by, 3);
    assert!(!found.is_deleted());
}

#[test]
fn list_orders_by_time_then_identity_descending() {
    let mut tweets = InMemoryTweets::new();
    let mk = |message: &str, posted_at: i64| Tweet {
        id: None,
        message: message.to_string(),
        posted_at,
        posted_by: 1,
        deleted: false,
    };
    tweets.store(&mk("oldest", 100)).unwrap();
    tweets.store(&mk("newest", 300)).unwrap();
    tweets.store(&mk("middle a", 200)).unwrap();
    tweets.store(&mk("middle b", 200)).unwrap();

    let listed = tweets.list();
    let messages: Vec<&str> = listed.iter().map(|t| t.message.as_str()).collect();
    // equal timestamps tie-break by the higher identity first
    assert_eq!(messages, vec!["newest", "middle b", "middle a", "oldest"]);
}

#[test]
fn find_returns_only_requested_present_accounts() {
    let mut accounts = InMemoryAccounts::new();
    create_account(&mut accounts, "a@x", "pa", "A").unwrap();
    create_account(&mut accounts, "b@x", "pb", "B").unwrap();

    let mut wanted: HashSet<i32> = HashSet::new();
    wanted.insert(1);
    wanted.insert(9);
    let found = accounts.find(wanted);
    assert_eq!(found.len(), 1);
    assert_eq!(found.get(&1).unwrap().email, "a@x");
    assert!(found.get(&9).is_none());
}

#[test]
fn duplicate_email_is_rejected() {
    let mut accounts = InMemoryAccounts::new();
    create_account(&mut accounts, "a@x", "p", "A").unwrap();
    let result = create_account(&mut accounts, "a@x", "other", "B");
    assert_eq!(result, Err(Error::DuplicateEmail));
    // a different email is still accepted afterwards
    create_account(&mut accounts, "b@x", "p", "B").unwrap();
}

#[test]
fn session_issued_only_for_matching_credentials() {
    let mut accounts = InMemoryAccounts::new();
    create_account(&mut accounts, "a@x", "p", "A").unwrap();
    let mut sessions = InMemorySessions::new();

    assert!(create_session(&accounts, &mut sessions, "a@x", "wrong").is_none());
    assert!(create_session(&accounts, &mut sessions, "missing@x", "p").is_none());
    let token = create_session(&accounts, &mut sessions, "a@x", "p");
    assert!(token.is_some());
}

#[test]
fn session_cookie_renders_active_and_cleared_lines() {
    let issued = SessionToken::new("abc123").cookie();
    assert_eq!(issued, "session_token=abc123; Max-Age=604800; Path=/; HttpOnly");
    assert!(issued.starts_with("session_token=abc123; Max-Age=604800;"));

    let cleared = clear_session().cookie();
    assert_eq!(cleared, "session_token=deleted; Max-Age=0; Path=/; HttpOnly");
    assert!(cleared.contains("Max-Age=0"));
    assert!(cleared.contains("=deleted"));
}

#[test]
fn user_context_round_trip_through_cookie_header() {
    let mut accounts = InMemoryAccounts::new();
    create_account(&mut accounts, "a@x", "p", "A").unwrap();
    let mut sessions = InMemorySessions::new();
    let token = create_session(&accounts, &mut sessions, "a@x", "p").unwrap();

    let cookie = token.cookie();
    let value = cookie
        .split(';')
        .next()
        .unwrap()
        .trim_start_matches("session_token=")
        .to_string();
    let header = format!("theme=dark; session_token={}; lang=en", value);
    let context = user_context(&sessions, Some(header.as_str()), current_timestamp()).unwrap();
    assert_eq!(context.user_id, 1);
}

#[test]
fn sessions_expire_after_one_lifetime() {
    let mut sessions = InMemorySessions::new();
    let issued_at: i64 = 1_577_836_800;
    let token = sessions.store_session(5, issued_at);

    assert_eq!(sessions.load_session(&token, issued_at), Some(5));
    assert_eq!(sessions.load_session(&token, issued_at + 604_799), Some(5));
    assert_eq!(sessions.load_session(&token, issued_at + 604_800), None);

    let header = format!("session_token={}", token);
    assert_eq!(
        user_context(&sessions, Some(header.as_str()), issued_at + 604_800),
        Err(Error::Unauthenticated)
    );
}

#[test]
fn user_context_fails_without_valid_session() {
    let sessions = InMemorySessions::new();
    let now = current_timestamp();
    assert_eq!(user_context(&sessions, None, now), Err(Error::Unauthenticated));
    assert_eq!(
        user_context(&sessions, Some("theme=dark"), now),
        Err(Error::Unauthenticated)
    );
    assert_eq!(
        user_context(&sessions, Some("session_token=unknown"), now),
        Err(Error::Unauthenticated)
    );
}

#[test]
fn list_tweets_reports_missing_author() {
    let mut tweets = InMemoryTweets::new();
    let user = UserContext { user_id: 42 };
    create_tweet(&mut tweets, &user, "orphan").unwrap();
    let accounts = InMemoryAccounts::new();

    let result = list_tweets(&tweets, &accounts);
    assert!(matches!(result, Err(Error::Integrity)));
}

#[test]
fn delete_only_removes_the_given_tweet() {
    let mut tweets = InMemoryTweets::new();
    let user = UserContext { user_id: 1 };
    create_tweet(&mut tweets, &user, "one").unwrap();
    create_tweet(&mut tweets, &user, "two").unwrap();

    delete_tweet(&mut tweets, 1).unwrap();

    let listed = tweets.list();
    assert_eq!(listed.len(), 1);
    assert_eq!(listed[0].message, "two");
}

#[test]
fn timestamps_render_in_utc() {
    assert_eq!(format_ymd_hm(1577836800), "2020/01/01 00:00");
    assert_eq!(format_ymd_hm(0), "1970/01/01 00:00");
    assert_eq!(format_ymd_hm(1700000000), "2023/11/14 22:13");
}
