//! The readers and dispatcher, entry listings, the HTTP-surface rules, the
//! scheduler's decisions, configuration merging, and the utility types.

use russet::domain::RussetDomainService;
use russet::feed::{feed_from_bytes, AtomFeedReader, FeedReader, RssFeedReader};
use russet::feeds::FetchedResponse;
use russet::httpapi::{
    default_permanent_session, effective_pagination, entry_redirect_target, login_response,
    user_page_access, EditUserEntriesRequest, EntryAction, HttpError,
};
use russet::model::{EntryId, Pagination, SessionToken, Timestamp, UserId, UserType};
use russet::sched::{plan_after_poll, plan_initial_poll, plan_next_sweep};
use russet::store::{FeedCheck, Session, Store, User, UserEntry};

fn service() -> RussetDomainService {
    let readers = vec![
        FeedReader::Rss(RssFeedReader::new()),
        FeedReader::Atom(AtomFeedReader::new()),
    ];
    RussetDomainService::new(
        Store::new(),
        readers,
        b"test-pepper".to_vec(),
        300_000,
        3_600_000,
        86_400_000,
        false,
    )
    .unwrap()
}

#[test]
fn atom_reader_normalizes_links_dates_and_titles() {
    let body = String::from(
        "<?xml version=\"1.0\" encoding=\"utf-8\"?>\
         <feed xmlns=\"http://www.w3.org/2005/Atom\">\
         <title>My Feed</title><id>urn:f</id><updated>2024-01-01T00:00:00Z</updated>\
         <entry><title>First</title><id>urn:1</id><updated>2024-01-01T10:00:00Z</updated>\
         <link rel=\"enclosure\" href=\"http://example.com/skip\"/>\
         <link rel=\"alternate\" href=\"HTTP://EXAMPLE.COM/One\"/>\
         </entry>\
         <entry><title>Second</title><id>urn:2</id><updated>2024-01-02T00:00:00Z</updated></entry>\
         </feed>",
    )
    .into_bytes();
    let feed = AtomFeedReader::new().read_feed(&body).unwrap();
    assert_eq!(feed.title, "My Feed");
    assert_eq!(feed.entries.len(), 2);
    let first = &feed.entries[0];
    assert_eq!(first.internal_id, "urn:1");
    // The first `alternate` link wins, normalized by the URL parser.
    assert_eq!(first.url.as_deref(), Some("http://example.com/One"));
    assert_eq!(first.article_date.millis, 1_704_103_200_000);
    assert_eq!(first.title, "First");
    // No alternate link: no URL.
    assert_eq!(feed.entries[1].url, None);

    assert!(AtomFeedReader::new().read_feed(b"not xml").is_err());
}

#[test]
fn rss_reader_falls_back_on_link_title_and_clock() {
    let body = String::from(
        "<?xml version=\"1.0\"?><rss version=\"2.0\"><channel>\
         <title>R</title><link>http://example.com/</link><description>d</description>\
         <item><title>One</title><link>http://example.com/1</link>\
         <guid>guid-1</guid><pubDate>Mon, 01 Jan 2024 10:00:00 +0000</pubDate></item>\
         <item><link>http://example.com/2</link></item>\
         </channel></rss>",
    )
    .into_bytes();
    let now = Timestamp::new(777);
    let feed = RssFeedReader::new().read_feed(&body, now).unwrap();
    assert_eq!(feed.title, "R");
    assert_eq!(feed.entries.len(), 2);
    assert_eq!(feed.entries[0].internal_id, "guid-1");
    assert_eq!(feed.entries[0].article_date.millis, 1_704_103_200_000);
    assert_eq!(feed.entries[0].title, "One");
    // No guid: the link identifies the item. No pubDate: the clock value
    // passed in. No title: the placeholder.
    assert_eq!(feed.entries[1].internal_id, "http://example.com/2");
    assert_eq!(feed.entries[1].article_date.millis, 777);
    assert_eq!(feed.entries[1].title, "<untitled>");
}

#[test]
fn dispatcher_takes_the_first_accepting_reader() {
    let readers = vec![
        FeedReader::Rss(RssFeedReader::new()),
        FeedReader::Atom(AtomFeedReader::new()),
    ];
    let atom = String::from(
        "<?xml version=\"1.0\" encoding=\"utf-8\"?>\
         <feed xmlns=\"http://www.w3.org/2005/Atom\">\
         <title>A</title><id>urn:f</id><updated>2024-01-01T00:00:00Z</updated>\
         </feed>",
    )
    .into_bytes();
    let feed = feed_from_bytes(&readers, &atom, Timestamp::new(0)).unwrap();
    assert_eq!(feed.title, "A");
    assert!(feed_from_bytes(&readers, b"junk", Timestamp::new(0)).is_err());
    assert!(feed_from_bytes(&Vec::new(), &atom, Timestamp::new(0)).is_err());
}

#[test]
fn listings_sort_filter_and_paginate() {
    let mut svc = service();
    svc.add_user("alice", "pw", UserType::Member).unwrap();
    let user = svc.store.get_user_by_name("alice").unwrap();
    let mut body = String::from(
        "<?xml version=\"1.0\" encoding=\"utf-8\"?>\
         <feed xmlns=\"http://www.w3.org/2005/Atom\">\
         <title>T</title><id>urn:f</id><updated>2024-01-01T00:00:00Z</updated>",
    );
    for (id, day) in [("urn:e1", "01"), ("urn:e2", "02"), ("urn:e3", "03")] {
        body.push_str(&format!(
            "<entry><title>{id}</title><id>{id}</id>\
             <updated>2024-01-{day}T00:00:00Z</updated></entry>"
        ));
    }
    body.push_str("</feed>");
    let feed_id = svc
        .add_feed(
            "http://example.com/feed",
            &FetchedResponse { status: 200, etag: None, body: body.into_bytes() },
            Timestamp::new(0),
        )
        .unwrap();
    svc.subscribe(&user.id, &feed_id).unwrap();

    let page = Pagination { page_num: 0, page_size: 10 };
    let listed = svc.get_subscribed_entries(&user.id, &page);
    assert_eq!(listed.len(), 3);
    // Same check, so later article dates come first.
    assert_eq!(listed[0].title, "urn:e3");
    assert_eq!(listed[1].title, "urn:e2");
    assert_eq!(listed[2].title, "urn:e1");
    assert!(!listed[0].read && !listed[0].tombstone);

    // Pagination slices the sorted listing.
    let second_page = svc
        .get_subscribed_entries(&user.id, &Pagination { page_num: 1, page_size: 2 });
    assert_eq!(second_page.len(), 1);
    assert_eq!(second_page[0].title, "urn:e1");

    // Reading one entry marks it read.
    let read_id = listed[1].id;
    let read_back = svc.get_entry(&read_id, &user.id, Timestamp::new(9)).unwrap();
    assert!(read_back.read && !read_back.tombstone);
    let relisted = svc.get_subscribed_entries(&user.id, &page);
    assert!(relisted.iter().find(|e| e.id == read_id).unwrap().read);

    // Tombstoning filters the entry from listings but keeps the row.
    let doomed = vec![listed[0].id];
    svc.set_userentries(&doomed, &user.id, &UserEntry {
        read: Some(Timestamp::new(10)),
        tombstone: Some(Timestamp::new(10)),
    })
    .unwrap();
    let after = svc.get_subscribed_entries(&user.id, &page);
    assert_eq!(after.len(), 2);
    assert!(after.iter().all(|e| e.id != doomed[0]));
    assert_eq!(svc.store.entries.len(), 3);

    // The per-feed listing matches.
    let per_feed = svc.get_feed_entries(&user.id, &feed_id, &page);
    assert_eq!(per_feed.len(), 2);
}

#[test]
fn error_kinds_map_to_their_status_codes() {
    assert_eq!(
        HttpError::BadRequest { description: String::from("x") }.status_code(),
        400
    );
    assert_eq!(
        HttpError::Unauthenticated { redirect_to: None }.status_code(),
        401
    );
    assert_eq!(HttpError::Forbidden.status_code(), 403);
    assert_eq!(HttpError::NotFound.status_code(), 404);
    assert_eq!(
        HttpError::InternalError { description: String::from("x") }.status_code(),
        500
    );
}

#[test]
fn user_page_is_for_sysops_and_self() {
    let sysop = User {
        id: UserId(1),
        name: String::from("s"),
        password_hash: russet::model::PasswordHash(String::from("h")),
        user_type: UserType::Sysop,
    };
    let member = User {
        id: UserId(2),
        name: String::from("m"),
        password_hash: russet::model::PasswordHash(String::from("h")),
        user_type: UserType::Member,
    };
    assert!(user_page_access(&sysop, UserId(2)).is_ok());
    assert!(user_page_access(&member, UserId(2)).is_ok());
    assert_eq!(user_page_access(&member, UserId(1)), Err(HttpError::Forbidden));
}

#[test]
fn login_response_shapes_cookie_and_redirect() {
    let session = Session {
        token: SessionToken(String::from("tok")),
        user_id: UserId(1),
        expiration: Timestamp::new(99),
    };
    let out = login_response(Some(session), Some(String::from("/here")), true).unwrap();
    assert_eq!(out.cookie_token, "tok");
    assert_eq!(out.cookie_expires, Some(Timestamp::new(99)));
    assert_eq!(out.redirect, "/here");

    let session2 = Session {
        token: SessionToken(String::from("tok")),
        user_id: UserId(1),
        expiration: Timestamp::new(99),
    };
    let out2 = login_response(Some(session2), None, false).unwrap();
    assert_eq!(out2.cookie_expires, None);
    assert_eq!(out2.redirect, "/");

    let denied = login_response(None, Some(String::from("/back")), false);
    assert_eq!(
        denied,
        Err(HttpError::Unauthenticated { redirect_to: Some(String::from("/back")) })
    );
}

#[test]
fn edit_form_parses_actions_and_selections() {
    let pairs = vec![
        (String::from("action"), String::from("mark_read")),
        (String::from("select-all"), String::from("on")),
        (
            String::from("select-01HQ1W3EBYBDZ9KBS4SJAS32YG"),
            String::from("on"),
        ),
    ];
    let req = EditUserEntriesRequest::from_raw_entries(&pairs).unwrap();
    assert_eq!(req.action, EntryAction::MarkRead);
    assert!(req.select_all);
    assert_eq!(req.selected_ids.len(), 1);

    let delete = vec![(String::from("action"), String::from("delete"))];
    assert_eq!(
        EditUserEntriesRequest::from_raw_entries(&delete).unwrap().action,
        EntryAction::Delete
    );

    // Refusals: two actions, an unknown action, a bad key, a bad id, and a
    // missing action.
    for bad in [
        vec![
            (String::from("action"), String::from("mark_read")),
            (String::from("action"), String::from("delete")),
        ],
        vec![(String::from("action"), String::from("explode"))],
        vec![(String::from("bogus"), String::from("x"))],
        vec![(String::from("select-notaulid"), String::from("on"))],
        vec![(String::from("select-all"), String::from("on"))],
    ] {
        assert!(EditUserEntriesRequest::from_raw_entries(&bad).is_err());
    }

    // The payloads the two actions write.
    let now = Timestamp::new(5);
    assert_eq!(
        EntryAction::MarkRead.payload(now),
        UserEntry { read: Some(now), tombstone: None }
    );
    assert_eq!(
        EntryAction::Delete.payload(now),
        UserEntry { read: Some(now), tombstone: Some(now) }
    );
}

#[test]
fn pagination_and_redirect_defaults() {
    let p = effective_pagination(None, None);
    assert_eq!((p.page_num, p.page_size), (0, 100));
    let p2 = effective_pagination(Some(3), Some(25));
    assert_eq!((p2.page_num, p2.page_size), (3, 25));
    assert_eq!(entry_redirect_target(None), "/");
    assert_eq!(
        entry_redirect_target(Some(String::from("http://example.com/a"))),
        "http://example.com/a"
    );
    assert!(!default_permanent_session());
}

#[test]
fn scheduler_plans_polls_and_sweeps() {
    let now = Timestamp::new(1_000);
    // Never checked: poll at once with a bare time.
    let plan = plan_initial_poll(None, now);
    assert_eq!(plan.wait_until, None);

    let check = FeedCheck {
        id: 1,
        feed_id: russet::model::FeedId(1),
        check_time: Timestamp::new(500),
        next_check_time: Timestamp::new(5_000),
        etag: None,
    };
    // A scheduled future check: sleep until it.
    let plan2 = plan_initial_poll(Some(check.clone()), now);
    assert_eq!(plan2.wait_until, Some(Timestamp::new(5_000)));
    // A missed check: poll at once.
    let plan3 = plan_initial_poll(Some(check.clone()), Timestamp::new(6_000));
    assert_eq!(plan3.wait_until, None);

    // After a successful poll, sleep until the check's own schedule.
    let plan4 = plan_after_poll(
        russet::feeds::CheckState::NoCheck(now),
        Ok(check.clone()),
        now,
        3_600_000,
    );
    assert_eq!(plan4.wait_until, Some(Timestamp::new(5_000)));
    // After a failure, retry one default interval after now.
    let plan5 = plan_after_poll(
        russet::feeds::CheckState::NoCheck(now),
        Err(russet::domain::DomainError::NotFound),
        now,
        3_600_000,
    );
    assert_eq!(plan5.wait_until, Some(Timestamp::new(1_000 + 3_600_000)));

    assert_eq!(plan_next_sweep(now).millis, 1_000 + 3_600_000);
}

#[test]
fn config_merges_by_precedence() {
    let mut cli = russet::conf::Config {
        command: None,
        config_file: None,
        db_file: Some(String::from("/custom.sqlite")),
        listen_address: None,
        pepper: None,
        feed_check_interval: None,
        disable_logins: None,
        rate_limiting: russet::conf::RateLimitingConfig {
            global_concurrent_limit: None,
            login_concurrent_limit: Some(2),
        },
    };
    let file = russet::conf::Config {
        command: None,
        config_file: None,
        db_file: Some(String::from("/file.sqlite")),
        listen_address: Some(String::from("0.0.0.0:80")),
        pepper: None,
        feed_check_interval: Some(60),
        disable_logins: None,
        rate_limiting: russet::conf::RateLimitingConfig {
            global_concurrent_limit: Some(10),
            login_concurrent_limit: Some(9),
        },
    };
    cli.merge_from(file);
    cli.merge_from(russet::conf::Config::default());

    assert_eq!(cli.db_file.as_deref(), Some("/custom.sqlite"));
    assert_eq!(cli.listen_address.as_deref(), Some("0.0.0.0:80"));
    assert_eq!(cli.pepper.as_deref(), Some("IzvoEPMQIi82NSXTz7cZ"));
    assert_eq!(cli.feed_check_interval, Some(60));
    assert_eq!(cli.disable_logins, Some(false));
    assert_eq!(cli.rate_limiting.global_concurrent_limit, Some(10));
    assert_eq!(cli.rate_limiting.login_concurrent_limit, Some(2));
    assert!(matches!(cli.command, Some(russet::conf::Command::Run)));
}

#[test]
fn timestamps_and_user_types_behave() {
    let t = Timestamp::new(100);
    assert_eq!(t.millis, 100);
    assert_eq!(t.plus_millis(50).millis, 150);
    assert_eq!(Timestamp::new(i64::MAX).plus_millis(10).millis, i64::MAX);
    assert_eq!(Timestamp::until_from(Timestamp::new(100), Timestamp::new(70)), 0);
    assert_eq!(Timestamp::until_from(Timestamp::new(100), Timestamp::new(130)), 30);
    // A timestamp far in the past is never waited for.
    assert_eq!(Timestamp::until(Timestamp::new(0)), 0);

    assert_eq!(UserType::from_name("Sysop"), Some(UserType::Sysop));
    assert_eq!(UserType::from_name("Member"), Some(UserType::Member));
    assert_eq!(UserType::from_name("Admin"), None);
    assert_eq!(UserType::Sysop.name(), "Sysop");
    assert_eq!(UserType::Member.name(), "Member");

    let svc = RussetDomainService::new(
        Store::new(),
        Vec::new(),
        Vec::new(),
        10,
        5,
        20,
        false,
    );
    assert!(svc.is_err());
}

#[test]
fn feed_getters_and_check_history() {
    let mut svc = service();
    svc.add_user("alice", "pw", UserType::Member).unwrap();
    let user = svc.store.get_user_by_name("alice").unwrap();
    let body = String::from(
        "<?xml version=\"1.0\" encoding=\"utf-8\"?>\
         <feed xmlns=\"http://www.w3.org/2005/Atom\">\
         <title>T</title><id>urn:f</id><updated>2024-01-01T00:00:00Z</updated>\
         </feed>",
    )
    .into_bytes();
    let feed_id = svc
        .add_feed(
            "http://example.com/feed",
            &FetchedResponse { status: 200, etag: None, body },
            Timestamp::new(100),
        )
        .unwrap();

    let all = svc.get_feeds();
    assert_eq!(all.len(), 1);
    assert_eq!(all[0].id, feed_id);
    assert_eq!(all[0].url, "http://example.com/feed");
    assert_eq!(all[0].title, "T");

    // Before subscribing, the user's feed list is empty.
    assert!(svc.feeds_for_user(&user.id).is_empty());
    svc.subscribe(&user.id, &feed_id).unwrap();
    let mine = svc.feeds_for_user(&user.id);
    assert_eq!(mine.len(), 1);
    assert_eq!(mine[0].id, feed_id);

    let looked_up = svc.get_feed(&feed_id).unwrap();
    assert_eq!(looked_up.title, "T");
    assert!(svc.get_feed(&russet::model::FeedId(99)).is_err());

    // A second check, then the history newest-first and the latest check.
    let check1 = svc.store.checks[0].clone();
    svc.update_feed(
        &feed_id,
        &russet::feeds::CheckState::Check(check1),
        &FetchedResponse { status: 304, etag: None, body: Vec::new() },
        Timestamp::new(200),
    )
    .unwrap();
    let history = svc
        .store
        .get_feed_checks(feed_id, Pagination { page_num: 0, page_size: 10 });
    assert_eq!(history.len(), 2);
    assert_eq!(history[0].id, 2);
    assert_eq!(history[1].id, 1);
    let first_page = svc
        .store
        .get_feed_checks(feed_id, Pagination { page_num: 1, page_size: 1 });
    assert_eq!(first_page.len(), 1);
    assert_eq!(first_page[0].id, 1);
    assert_eq!(svc.get_last_feed_check(&feed_id).unwrap().id, 2);
    assert!(svc.get_last_feed_check(&russet::model::FeedId(99)).is_none());
}
