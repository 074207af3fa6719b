//! Users, passwords, sessions and subscriptions against the in-memory
//! store.

use russet::domain::{DomainError, RussetDomainService};
use russet::feed::{AtomFeedReader, FeedReader, RssFeedReader};
use russet::feeds::FetchedResponse;
use russet::model::{Timestamp, UserType};
use russet::store::Store;

fn service() -> RussetDomainService {
    let readers = vec![
        FeedReader::Rss(RssFeedReader::new()),
        FeedReader::Atom(AtomFeedReader::new()),
    ];
    RussetDomainService::new(
        Store::new(),
        readers,
        b"test-pepper".to_vec(),
        300_000,
        3_600_000,
        86_400_000,
        false,
    )
    .unwrap()
}

const WEEK_MS: i64 = 604_800_000;

fn minimal_atom() -> Vec<u8> {
    String::from(
        "<?xml version=\"1.0\" encoding=\"utf-8\"?>\
         <feed xmlns=\"http://www.w3.org/2005/Atom\">\
         <title>T</title><id>urn:f</id><updated>2024-01-01T00:00:00Z</updated>\
         <entry><title>E</title><id>urn:e</id><updated>2024-01-01T00:00:00Z</updated></entry>\
         </feed>",
    )
    .into_bytes()
}

#[test]
fn login_round_trip_and_wrong_password() {
    let mut svc = service();
    svc.add_user("alice", "correct horse", UserType::Member).unwrap();
    let now = Timestamp::new(10_000);

    let denied = svc.login_user("alice", "battery staple", false, now).unwrap();
    assert!(denied.is_none());
    assert_eq!(svc.store.sessions.len(), 0);

    let session = svc.login_user("alice", "correct horse", false, now).unwrap().unwrap();
    assert_eq!(session.expiration.millis, 10_000 + WEEK_MS);
    assert!(session.expiration.millis > now.millis);
    // 32 bytes of entropy, base32 without padding: ceiling(256 / 5).
    assert_eq!(session.token.0.len(), 52);
    assert_eq!(svc.store.sessions.len(), 1);
}

#[test]
fn login_with_unknown_name_returns_none() {
    let mut svc = service();
    svc.add_user("alice", "pw", UserType::Member).unwrap();
    let r = svc.login_user("nobody", "pw", false, Timestamp::new(0)).unwrap();
    assert!(r.is_none());
    assert_eq!(svc.store.sessions.len(), 0);
}

#[test]
fn permanent_session_expires_a_gigasecond_out() {
    let mut svc = service();
    svc.add_user("alice", "pw", UserType::Member).unwrap();
    let session = svc
        .login_user("alice", "pw", true, Timestamp::new(0))
        .unwrap()
        .unwrap();
    assert_eq!(session.expiration.millis, 1_000_000_000_000);
}

#[test]
fn auth_user_accepts_live_and_rejects_expired_sessions() {
    let mut svc = service();
    svc.add_user("alice", "pw", UserType::Sysop).unwrap();
    let now = Timestamp::new(1_000);
    let session = svc.login_user("alice", "pw", false, now).unwrap().unwrap();

    let user = svc.auth_user(&session.token.0, Timestamp::new(2_000)).unwrap().unwrap();
    assert_eq!(user.name, "alice");
    assert_eq!(user.user_type, UserType::Sysop);

    // At the expiration instant the session no longer authenticates, and
    // the stale row is removed.
    let late = Timestamp::new(session.expiration.millis);
    assert!(svc.auth_user(&session.token.0, late).unwrap().is_none());
    assert_eq!(svc.store.sessions.len(), 0);

    // A token that never existed authenticates nobody.
    assert!(svc.auth_user("no-such-token", Timestamp::new(0)).unwrap().is_none());
}

#[test]
fn cleanup_expired_sessions_sweeps_only_stale_rows() {
    let mut svc = service();
    svc.add_user("alice", "pw", UserType::Member).unwrap();
    svc.add_user("bob", "pw", UserType::Member).unwrap();
    let s1 = svc.login_user("alice", "pw", false, Timestamp::new(0)).unwrap().unwrap();
    let s2 = svc.login_user("bob", "pw", true, Timestamp::new(0)).unwrap().unwrap();
    assert_eq!(svc.store.sessions.len(), 2);

    // Sweep after the week expires but within the gigasecond.
    svc.cleanup_expired_sessions(Timestamp::new(s1.expiration.millis + 1)).unwrap();
    assert_eq!(svc.store.sessions.len(), 1);
    assert_eq!(svc.store.sessions[0].token.0, s2.token.0);
}

#[test]
fn add_user_rejects_duplicate_names() {
    let mut svc = service();
    svc.add_user("alice", "pw", UserType::Member).unwrap();
    assert_eq!(
        svc.add_user("alice", "other", UserType::Sysop),
        Err(DomainError::Conflict)
    );
    assert_eq!(svc.store.users.len(), 1);
}

#[test]
fn set_user_password_replaces_the_hash() {
    let mut svc = service();
    svc.add_user("alice", "old password", UserType::Member).unwrap();
    svc.set_user_password("alice", "new password").unwrap();

    let now = Timestamp::new(0);
    assert!(svc.login_user("alice", "old password", false, now).unwrap().is_none());
    assert!(svc.login_user("alice", "new password", false, now).unwrap().is_some());

    assert_eq!(
        svc.set_user_password("nobody", "x"),
        Err(DomainError::NotFound)
    );
}

#[test]
fn delete_user_cascades_to_all_references() {
    let mut svc = service();
    svc.add_user("alice", "pw", UserType::Member).unwrap();
    let user = svc.store.get_user_by_name("alice").unwrap();
    let feed_id = svc
        .add_feed(
            "http://example.com/feed",
            &FetchedResponse { status: 200, etag: None, body: minimal_atom() },
            Timestamp::new(0),
        )
        .unwrap();
    svc.subscribe(&user.id, &feed_id).unwrap();
    svc.login_user("alice", "pw", false, Timestamp::new(0)).unwrap().unwrap();
    let entry_id = svc.store.entries[0].id;
    svc.get_entry(&entry_id, &user.id, Timestamp::new(5)).unwrap();

    assert_eq!(svc.store.sessions.len(), 1);
    assert_eq!(svc.store.subscriptions.len(), 1);
    assert_eq!(svc.store.user_entries.len(), 1);

    svc.delete_user("alice").unwrap();

    assert!(svc.store.users.iter().all(|u| u.id != user.id));
    assert!(svc.store.sessions.iter().all(|s| s.user_id != user.id));
    assert!(svc.store.subscriptions.iter().all(|s| s.user_id != user.id));
    assert!(svc.store.user_entries.iter().all(|r| r.user_id != user.id));
    // The feed and its entries are retained.
    assert_eq!(svc.store.feeds.len(), 1);
    assert_eq!(svc.store.entries.len(), 1);

    assert_eq!(svc.delete_user("alice"), Err(DomainError::NotFound));
}

#[test]
fn delete_user_sessions_reports_the_count() {
    let mut svc = service();
    svc.add_user("alice", "pw", UserType::Member).unwrap();
    svc.login_user("alice", "pw", false, Timestamp::new(0)).unwrap().unwrap();
    svc.login_user("alice", "pw", true, Timestamp::new(0)).unwrap().unwrap();
    assert_eq!(svc.delete_user_sessions("alice").unwrap(), 2);
    assert_eq!(svc.store.sessions.len(), 0);
    assert_eq!(svc.delete_user_sessions("nobody"), Err(DomainError::NotFound));
}

#[test]
fn resubscribing_leaves_exactly_one_row() {
    let mut svc = service();
    svc.add_user("alice", "pw", UserType::Member).unwrap();
    let user = svc.store.get_user_by_name("alice").unwrap();
    let feed_id = svc
        .add_feed(
            "http://example.com/feed",
            &FetchedResponse { status: 200, etag: None, body: minimal_atom() },
            Timestamp::new(0),
        )
        .unwrap();

    svc.subscribe(&user.id, &feed_id).unwrap();
    svc.unsubscribe(&user.id, &feed_id).unwrap();
    svc.subscribe(&user.id, &feed_id).unwrap();

    let matching = svc
        .store
        .subscriptions
        .iter()
        .filter(|s| s.user_id == user.id && s.feed_id == feed_id)
        .count();
    assert_eq!(matching, 1);
    assert_eq!(svc.store.subscriptions.len(), 1);

    // Unsubscribing twice is idempotent.
    svc.unsubscribe(&user.id, &feed_id).unwrap();
    svc.unsubscribe(&user.id, &feed_id).unwrap();
    assert_eq!(svc.store.subscriptions.len(), 0);

    // Subscribing to an unknown feed or user is refused.
    assert_eq!(
        svc.subscribe(&user.id, &russet::model::FeedId(7)),
        Err(DomainError::NotFound)
    );
}

#[test]
fn read_only_mode_refuses_logins() {
    let readers = vec![
        FeedReader::Rss(RssFeedReader::new()),
        FeedReader::Atom(AtomFeedReader::new()),
    ];
    let mut svc = RussetDomainService::new(
        Store::new(),
        readers,
        b"test-pepper".to_vec(),
        300_000,
        3_600_000,
        86_400_000,
        true,
    )
    .unwrap();
    svc.add_user("alice", "pw", UserType::Member).unwrap();
    // Even the correct password mints no session while logins are disabled.
    let denied = svc.login_user("alice", "pw", false, Timestamp::new(0)).unwrap();
    assert!(denied.is_none());
    assert_eq!(svc.store.sessions.len(), 0);
}
