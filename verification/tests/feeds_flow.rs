//! End-to-end flows of feed creation, polling, classification and
//! ingestion, against the in-memory store.

use russet::domain::{DomainError, RussetDomainService};
use russet::feed::{AtomFeedReader, FeedReader, RssFeedReader};
use russet::feeds::{CheckState, FetchedResponse};
use russet::model::Timestamp;
use russet::store::Store;

const HOUR_MS: i64 = 3_600_000;
const DAY_MS: i64 = 86_400_000;

fn service() -> RussetDomainService {
    let readers = vec![
        FeedReader::Rss(RssFeedReader::new()),
        FeedReader::Atom(AtomFeedReader::new()),
    ];
    RussetDomainService::new(
        Store::new(),
        readers,
        b"test-pepper".to_vec(),
        300_000,
        3_600_000,
        86_400_000,
        false,
    )
    .unwrap()
}

fn atom_body(entries: &[(&str, &str, &str, &str)]) -> Vec<u8> {
    let mut body = String::from(
        "<?xml version=\"1.0\" encoding=\"utf-8\"?>\n\
         <feed xmlns=\"http://www.w3.org/2005/Atom\">\n\
         <title>Example Feed</title>\n\
         <id>urn:example:feed</id>\n\
         <updated>2024-01-01T00:00:00Z</updated>\n",
    );
    for (id, title, updated, href) in entries {
        body.push_str(&format!(
            "<entry><title>{title}</title><id>{id}</id><updated>{updated}</updated>\
             <link rel=\"alternate\" href=\"{href}\"/></entry>\n"
        ));
    }
    body.push_str("</feed>\n");
    body.into_bytes()
}

fn two_entry_atom() -> Vec<u8> {
    atom_body(&[
        (
            "urn:example:a",
            "Alpha",
            "2024-01-01T10:00:00Z",
            "http://example.com/a",
        ),
        (
            "urn:example:b",
            "Beta",
            "2024-01-02T10:00:00Z",
            "http://example.com/b",
        ),
    ])
}

fn ok_response(body: Vec<u8>, etag: Option<&str>) -> FetchedResponse {
    FetchedResponse {
        status: 200,
        etag: etag.map(|e| e.to_string()),
        body,
    }
}

#[test]
fn initial_fetch_records_feed_check_and_entries() {
    let mut svc = service();
    let now = Timestamp::new(1_000);
    let id = svc
        .add_feed("http://example.com/feed", &ok_response(two_entry_atom(), Some("etag-1")), now)
        .unwrap();

    assert_eq!(svc.store.feeds.len(), 1);
    assert_eq!(svc.store.feeds[0].id, id);
    assert_eq!(svc.store.feeds[0].url, "http://example.com/feed");
    assert_eq!(svc.store.feeds[0].title, "Example Feed");

    assert_eq!(svc.store.checks.len(), 1);
    let check = &svc.store.checks[0];
    assert_eq!(check.id, 1);
    assert_eq!(check.feed_id, id);
    assert_eq!(check.check_time.millis, 1_000);
    assert_eq!(check.next_check_time.millis, 1_000 + HOUR_MS);
    assert_eq!(check.etag.as_deref(), Some("etag-1"));

    assert_eq!(svc.store.entries.len(), 2);
    assert!(svc.store.entries.iter().all(|e| e.check_id == 1 && e.feed_id == id));
    assert_eq!(svc.store.entries[0].internal_id, "urn:example:a");
    assert_eq!(svc.store.entries[0].title, "Alpha");
    assert_eq!(svc.store.entries[0].url.as_deref(), Some("http://example.com/a"));
    // 2024-01-01T10:00:00Z in epoch milliseconds.
    assert_eq!(svc.store.entries[0].article_date.millis, 1_704_103_200_000);
    assert_eq!(svc.store.entries[1].internal_id, "urn:example:b");
}

#[test]
fn etag_match_preserves_etag_and_adds_no_entries() {
    let mut svc = service();
    let now = Timestamp::new(1_000);
    let id = svc
        .add_feed("http://example.com/feed", &ok_response(two_entry_atom(), Some("etag-1")), now)
        .unwrap();
    let check1 = svc.store.checks[0].clone();

    let not_modified = FetchedResponse { status: 304, etag: None, body: Vec::new() };
    let check2 = svc
        .update_feed(&id, &CheckState::Check(check1.clone()), &not_modified, Timestamp::new(2_000))
        .unwrap();

    assert_eq!(check2.id, 2);
    assert_eq!(check2.etag.as_deref(), Some("etag-1"));
    assert_eq!(check2.check_time.millis, check1.next_check_time.millis);
    assert_eq!(check2.next_check_time.millis, check1.next_check_time.millis + HOUR_MS);
    assert_eq!(svc.store.entries.len(), 2);
    assert_eq!(svc.store.checks.len(), 2);
}

#[test]
fn new_entry_is_ingested_and_old_ones_untouched() {
    let mut svc = service();
    let now = Timestamp::new(1_000);
    let id = svc
        .add_feed("http://example.com/feed", &ok_response(two_entry_atom(), Some("etag-1")), now)
        .unwrap();
    let check1 = svc.store.checks[0].clone();
    let not_modified = FetchedResponse { status: 304, etag: None, body: Vec::new() };
    let check2 = svc
        .update_feed(&id, &CheckState::Check(check1), &not_modified, Timestamp::new(2_000))
        .unwrap();

    let three = atom_body(&[
        ("urn:example:a", "Alpha", "2024-01-01T10:00:00Z", "http://example.com/a"),
        ("urn:example:b", "Beta", "2024-01-02T10:00:00Z", "http://example.com/b"),
        ("urn:example:c", "Gamma", "2024-01-03T10:00:00Z", "http://example.com/c"),
    ]);
    let entries_before: Vec<_> = svc.store.entries.clone();
    let check3 = svc
        .update_feed(
            &id,
            &CheckState::Check(check2),
            &ok_response(three, Some("etag-2")),
            Timestamp::new(3_000),
        )
        .unwrap();

    assert_eq!(check3.id, 3);
    assert_eq!(svc.store.entries.len(), 3);
    // The two prior entries are unchanged, in place.
    assert_eq!(&svc.store.entries[..2], &entries_before[..]);
    let gamma = &svc.store.entries[2];
    assert_eq!(gamma.internal_id, "urn:example:c");
    assert_eq!(gamma.check_id, 3);
}

#[test]
fn client_error_schedules_at_max_interval_without_etag() {
    let mut svc = service();
    let now = Timestamp::new(1_000);
    let id = svc
        .add_feed("http://example.com/feed", &ok_response(two_entry_atom(), Some("etag-1")), now)
        .unwrap();
    let check1 = svc.store.checks[0].clone();

    let not_found = FetchedResponse { status: 404, etag: None, body: Vec::new() };
    let check2 = svc
        .update_feed(&id, &CheckState::Check(check1.clone()), &not_found, Timestamp::new(2_000))
        .unwrap();

    assert_eq!(check2.etag, None);
    assert_eq!(check2.next_check_time.millis, check1.next_check_time.millis + DAY_MS);
    assert_eq!(svc.store.entries.len(), 2);
}

#[test]
fn server_error_schedules_at_default_interval() {
    let mut svc = service();
    let id = svc
        .add_feed(
            "http://example.com/feed",
            &ok_response(two_entry_atom(), None),
            Timestamp::new(1_000),
        )
        .unwrap();
    let check1 = svc.store.checks[0].clone();
    let busted = FetchedResponse { status: 503, etag: None, body: Vec::new() };
    let check2 = svc
        .update_feed(&id, &CheckState::Check(check1.clone()), &busted, Timestamp::new(2_000))
        .unwrap();
    assert_eq!(check2.etag, None);
    assert_eq!(check2.next_check_time.millis, check1.next_check_time.millis + HOUR_MS);
}

#[test]
fn reingesting_the_same_payload_inserts_nothing() {
    let mut svc = service();
    let id = svc
        .add_feed(
            "http://example.com/feed",
            &ok_response(two_entry_atom(), None),
            Timestamp::new(1_000),
        )
        .unwrap();
    let check1 = svc.store.checks[0].clone();
    let check2 = svc
        .update_feed(
            &id,
            &CheckState::Check(check1),
            &ok_response(two_entry_atom(), None),
            Timestamp::new(2_000),
        )
        .unwrap();
    assert_eq!(check2.id, 2);
    assert_eq!(svc.store.entries.len(), 2);
    assert_eq!(svc.store.checks.len(), 2);
}

#[test]
fn add_feed_is_idempotent_by_url() {
    let mut svc = service();
    let id1 = svc
        .add_feed(
            "http://example.com/feed",
            &ok_response(two_entry_atom(), None),
            Timestamp::new(1_000),
        )
        .unwrap();
    let id2 = svc
        .add_feed(
            "http://example.com/feed",
            &ok_response(two_entry_atom(), None),
            Timestamp::new(2_000),
        )
        .unwrap();
    assert_eq!(id1, id2);
    assert_eq!(svc.store.feeds.len(), 1);
    // No second check or entry batch was written either.
    assert_eq!(svc.store.checks.len(), 1);
    assert_eq!(svc.store.entries.len(), 2);
}

#[test]
fn unparseable_initial_fetch_persists_nothing() {
    let mut svc = service();
    let r = svc.add_feed(
        "http://example.com/feed",
        &ok_response(b"this is not a feed".to_vec(), None),
        Timestamp::new(1_000),
    );
    assert_eq!(r, Err(DomainError::FetchFailed));
    assert_eq!(svc.store.feeds.len(), 0);
    assert_eq!(svc.store.checks.len(), 0);
    assert_eq!(svc.store.entries.len(), 0);
}

#[test]
fn update_feed_of_unknown_feed_fails() {
    let mut svc = service();
    let r = svc.update_feed(
        &russet::model::FeedId(42),
        &CheckState::NoCheck(Timestamp::new(0)),
        &ok_response(two_entry_atom(), None),
        Timestamp::new(0),
    );
    assert_eq!(r, Err(DomainError::NotFound));
}

#[test]
fn out_of_order_check_time_is_refused() {
    let mut svc = service();
    let id = svc
        .add_feed(
            "http://example.com/feed",
            &ok_response(two_entry_atom(), None),
            Timestamp::new(5_000),
        )
        .unwrap();
    // A synthetic check anchored before the stored check's time.
    let r = svc.update_feed(
        &id,
        &CheckState::NoCheck(Timestamp::new(1_000)),
        &ok_response(two_entry_atom(), None),
        Timestamp::new(6_000),
    );
    assert_eq!(r, Err(DomainError::Conflict));
}

#[test]
fn non_http_url_cannot_create_a_feed() {
    let mut svc = service();
    let r = svc.add_feed(
        "ftp://example.com/feed",
        &ok_response(two_entry_atom(), None),
        Timestamp::new(1_000),
    );
    assert_eq!(r, Err(DomainError::FetchFailed));
    assert_eq!(svc.store.feeds.len(), 0);
    assert_eq!(svc.store.checks.len(), 0);
    assert_eq!(svc.store.entries.len(), 0);
    // Both HTTP schemes are accepted.
    assert!(svc
        .add_feed(
            "https://example.com/feed",
            &ok_response(two_entry_atom(), None),
            Timestamp::new(1_000),
        )
        .is_ok());
}

#[test]
fn batch_entry_update_stops_at_the_first_failure() {
    let mut svc = service();
    let id = svc
        .add_feed(
            "http://example.com/feed",
            &ok_response(two_entry_atom(), None),
            Timestamp::new(1_000),
        )
        .unwrap();
    let _ = id;
    let user = {
        svc.add_user("alice", "pw", russet::model::UserType::Member).unwrap();
        svc.store.get_user_by_name("alice").unwrap()
    };
    let first = svc.store.entries[0].id;
    let second = svc.store.entries[1].id;
    let bogus = russet::model::EntryId(424242);
    let payload = russet::store::UserEntry {
        read: Some(Timestamp::new(7)),
        tombstone: None,
    };
    let r = svc.set_userentries(&vec![first, bogus, second], &user.id, &payload);
    assert_eq!(r, Err(DomainError::NotFound));
    // The row before the failing id holds the payload; the one after it
    // was never touched.
    assert!(svc
        .store
        .user_entries
        .iter()
        .any(|row| row.user_id == user.id && row.entry_id == first
            && row.settings.read == Some(Timestamp::new(7))));
    assert!(svc
        .store
        .user_entries
        .iter()
        .all(|row| row.entry_id != second && row.entry_id != bogus));
}
