use minitweet::entities::{Account, Tweet};
use minitweet::memory::{InMemoryAccounts, InMemorySessions, InMemoryTweets};
use minitweet::repositories::{Accounts, Tweets};
use minitweet::request::UserContext;
use minitweet::services::accounts::{create_account, create_session};
use minitweet::services::tweets::{create_tweet, delete_tweet, list_tweets};
use sha2::{Digest, Sha256};

fn to_sha256(str: String) -> String {
    let str = str.as_bytes();
    let hashed_str = Sha256::digest(str);
    format!("{:x}", hashed_str)
}

fn account(id: i32) -> Account {
    Account::new(
        id,
        format!("{}@example.com", id),
        to_sha256(format!("password{}", id)),
        format!("display_name{}", id),
    )
}

fn tweet(id: i32, account_id: i32) -> Tweet {
    // 2020-01-01 00:00:00 UTC
    Tweet::new(id, format!("message{}", id), 1577836800, account_id)
}

fn stored_account(repo: &mut InMemoryAccounts, id: i32) {
    let template = account(id);
    let fresh = Account {
        id: None,
        email: template.email,
        hashed_password: template.hashed_password,
        display_name: template.display_name,
    };
    repo.store(&fresh).unwrap();
}

fn stored_tweet(repo: &mut InMemoryTweets, id: i32, account_id: i32) {
    let template = tweet(id, account_id);
    let fresh = Tweet {
        id: None,
        message: template.message,
        posted_at: template.posted_at,
        posted_by: template.posted_by,
        deleted: false,
    };
    repo.store(&fresh).unwrap();
}

#[test]
fn test_create_account() {
    let mut accounts = InMemoryAccounts::new();

    let template = account(1);
    create_account(
        &mut accounts,
        &template.email,
        "password1",
        &template.display_name,
    )
    .unwrap();

    let stored = accounts.find_by(&template.email).unwrap();
    assert_eq!(stored.email, template.email);
    assert_eq!(stored.hashed_password, template.hashed_password);
    assert_eq!(stored.display_name, template.display_name);
}

#[test]
fn test_create_session() {
    let mut accounts = InMemoryAccounts::new();
    stored_account(&mut accounts, 1);
    let mut sessions = InMemorySessions::new();

    let template = account(1);
    let result = create_session(&accounts, &mut sessions, &template.email, "password1");
    assert_eq!(result.is_some(), true);
}

#[test]
fn test_create_session_not_found() {
    let accounts = InMemoryAccounts::new();
    let mut sessions = InMemorySessions::new();

    let template = account(1);
    let result = create_session(&accounts, &mut sessions, &template.email, "password1");
    assert_eq!(result.is_some(), false);
}

#[test]
fn test_list_tweets() {
    let mut tweets = InMemoryTweets::new();
    stored_tweet(&mut tweets, 1, 1);
    stored_tweet(&mut tweets, 2, 2);

    let mut accounts = InMemoryAccounts::new();
    stored_account(&mut accounts, 1);
    stored_account(&mut accounts, 2);

    let result = list_tweets(&tweets, &accounts).unwrap();
    assert_eq!(result.tweets.len(), 2);
    let result0 = result.tweets.get(0).unwrap();
    assert_eq!(result0.message, "message2");
    assert_eq!(result0.posted_at, "2020/01/01 00:00");
    assert_eq!(result0.name, "display_name2");
}

#[test]
fn test_list_tweets_empty() {
    let tweets = InMemoryTweets::new();
    let accounts = InMemoryAccounts::new();

    let result = list_tweets(&tweets, &accounts).unwrap();
    assert_eq!(result.tweets.is_empty(), true);
}

#[test]
fn test_create_tweet() {
    let user_context = UserContext { user_id: 1 };

    let mut tweets = InMemoryTweets::new();
    let template = tweet(1, 1);
    create_tweet(&mut tweets, &user_context, &template.message).unwrap();

    let listed = tweets.list();
    assert_eq!(listed.len(), 1);
    assert_eq!(listed[0].message, template.message);
    assert_eq!(listed[0].posted_by, 1);
    assert_eq!(listed[0].is_deleted(), false);
}

#[test]
fn test_delete_tweet() {
    let mut tweets = InMemoryTweets::new();
    stored_tweet(&mut tweets, 1, 1);
    assert_eq!(tweets.find(1).is_some(), true);

    delete_tweet(&mut tweets, 1).unwrap();

    assert_eq!(tweets.find(1).is_some(), false);
    assert_eq!(tweets.list().len(), 0);
}

#[test]
fn test_delete_tweet_not_found() {
    let mut tweets = InMemoryTweets::new();

    delete_tweet(&mut tweets, 1).unwrap();

    assert_eq!(tweets.list().len(), 0);
}
