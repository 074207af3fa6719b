//! The persistence contract: typed records for feeds, entries, feed checks,
//! users, sessions, subscriptions and per-user entry state, and an in-memory
//! store that honors the schema invariants (unique keys, referential
//! integrity, monotone feed-check ids).

use vstd::prelude::*;

use crate::model::{EntryId, FeedId, Pagination, PasswordHash, SessionToken, Timestamp, UserId,
    UserType};

verus! {

/// Metadata for a feed, e.g. title and feed URL.
#[derive(Debug, PartialEq, Eq)]
pub struct Feed {
    pub id: FeedId,
    pub title: String,
    pub url: String,
}

impl Clone for Feed {
    fn clone(&self) -> (r: Self)
        ensures
            r == *self,
    {
        Feed { id: self.id, title: self.title.clone(), url: self.url.clone() }
    }
}

/// Individual entry from a given feed.
#[derive(Debug, PartialEq, Eq)]
pub struct Entry {
    pub id: EntryId,
    pub feed_id: FeedId,
    pub internal_id: String,
    pub check_id: u64,
    pub article_date: Timestamp,
    pub title: String,
    pub url: Option<String>,
}

/// An owned copy of an optional string.
pub fn clone_opt_string(o: &Option<String>) -> (r: Option<String>)
    ensures
        r == *o,
{
    match o {
        Some(s) => Some(s.clone()),
        None => None,
    }
}

impl Clone for Entry {
    fn clone(&self) -> (r: Self)
        ensures
            r == *self,
    {
        Entry {
            id: self.id,
            feed_id: self.feed_id,
            internal_id: self.internal_id.clone(),
            check_id: self.check_id,
            article_date: self.article_date,
            title: self.title.clone(),
            url: clone_opt_string(&self.url),
        }
    }
}

/// A stored account.
#[derive(Debug, PartialEq, Eq)]
pub struct User {
    pub id: UserId,
    pub name: String,
    pub password_hash: PasswordHash,
    pub user_type: UserType,
}

impl Clone for User {
    fn clone(&self) -> (r: Self)
        ensures
            r == *self,
    {
        User {
            id: self.id,
            name: self.name.clone(),
            password_hash: PasswordHash(self.password_hash.0.clone()),
            user_type: self.user_type,
        }
    }
}

/// A login session: the token is the primary key.
#[derive(Debug, PartialEq, Eq)]
pub struct Session {
    pub token: SessionToken,
    pub user_id: UserId,
    pub expiration: Timestamp,
}

impl Clone for Session {
    fn clone(&self) -> (r: Self)
        ensures
            r == *self,
    {
        Session {
            token: SessionToken(self.token.0.clone()),
            user_id: self.user_id,
            expiration: self.expiration,
        }
    }
}

/// Per-user overlay on an entry: the row's existence is not significant, the
/// nullness of the two timestamps is.
#[derive(Debug, PartialEq, Eq)]
pub struct UserEntry {
    pub read: Option<Timestamp>,
    pub tombstone: Option<Timestamp>,
}

impl Clone for UserEntry {
    fn clone(&self) -> (r: Self)
        ensures
            r == *self,
    {
        UserEntry { read: self.read, tombstone: self.tombstone }
    }
}

/// One `(user, entry)` state row.
#[derive(Debug, PartialEq, Eq)]
pub struct UserEntryRow {
    pub user_id: UserId,
    pub entry_id: EntryId,
    pub settings: UserEntry,
}

impl Clone for UserEntryRow {
    fn clone(&self) -> (r: Self)
        ensures
            r == *self,
    {
        UserEntryRow {
            user_id: self.user_id,
            entry_id: self.entry_id,
            settings: self.settings.clone(),
        }
    }
}

/// A subscription of one user to one feed; the pair is the primary key.
#[derive(Clone, Copy, Debug, PartialEq, Eq, Structural)]
pub struct Subscription {
    pub user_id: UserId,
    pub feed_id: FeedId,
}

/// A feed check as the domain layer writes it: assigning the `id` is the
/// store's concern, so the write model carries none.
#[derive(Debug, PartialEq, Eq)]
pub struct WriteFeedCheck {
    pub feed_id: FeedId,
    pub check_time: Timestamp,
    pub next_check_time: Timestamp,
    pub etag: Option<String>,
}

impl Clone for WriteFeedCheck {
    fn clone(&self) -> (r: Self)
        ensures
            r == *self,
    {
        WriteFeedCheck {
            feed_id: self.feed_id,
            check_time: self.check_time,
            next_check_time: self.next_check_time,
            etag: clone_opt_string(&self.etag),
        }
    }
}

/// A persisted record of one polling attempt.
#[derive(Debug, PartialEq, Eq)]
pub struct FeedCheck {
    pub id: u64,
    pub feed_id: FeedId,
    pub check_time: Timestamp,
    pub next_check_time: Timestamp,
    pub etag: Option<String>,
}

impl Clone for FeedCheck {
    fn clone(&self) -> (r: Self)
        ensures
            r == *self,
    {
        FeedCheck {
            id: self.id,
            feed_id: self.feed_id,
            check_time: self.check_time,
            next_check_time: self.next_check_time,
            etag: clone_opt_string(&self.etag),
        }
    }
}

impl FeedCheck {
    pub fn from_write_feed_check(id: u64, check: WriteFeedCheck) -> (r: FeedCheck)
        ensures
            r == (FeedCheck {
                id,
                feed_id: check.feed_id,
                check_time: check.check_time,
                next_check_time: check.next_check_time,
                etag: check.etag,
            }),
    {
        FeedCheck {
            id,
            feed_id: check.feed_id,
            check_time: check.check_time,
            next_check_time: check.next_check_time,
            etag: check.etag,
        }
    }
}

/// One step of building a filtered sequence: extending the scanned prefix by
/// one element extends the filtered prefix exactly when the element passes.
pub proof fn lemma_filter_extend<T>(s: Seq<T>, i: int, pred: spec_fn(T) -> bool)
    requires
        0 <= i < s.len(),
    ensures
        s.subrange(0, i + 1).filter(pred) == if pred(s[i]) {
            s.subrange(0, i).filter(pred).push(s[i])
        } else {
            s.subrange(0, i).filter(pred)
        },
{
    reveal(Seq::filter);
    let ext = s.subrange(0, i + 1);
    assert(ext.drop_last() =~= s.subrange(0, i));
    assert(ext.last() == s[i]);
    if pred(s[i]) {
        assert(ext.filter(pred) =~= s.subrange(0, i).filter(pred).push(s[i]));
    } else {
        assert(ext.filter(pred) =~= s.subrange(0, i).filter(pred));
    }
}

/// Every element of a filtered sequence occurs in the original.
pub proof fn lemma_filter_in_original<T>(s: Seq<T>, pred: spec_fn(T) -> bool, i: int)
    requires
        0 <= i < s.filter(pred).len(),
    ensures
        exists|w: int| 0 <= w < s.len() && #[trigger] s[w] == s.filter(pred)[i],
    decreases s.len(),
{
    reveal(Seq::filter);
    broadcast use vstd::seq_lib::group_filter_ensures;

    if s.len() > 0 {
        let sub = s.drop_last();
        let fsub = sub.filter(pred);
        let f = s.filter(pred);
        if pred(s.last()) && i == f.len() - 1 {
            assert(s[s.len() - 1] == f[i]);
        } else {
            assert(f[i] == fsub[i]);
            lemma_filter_in_original(sub, pred, i);
            let w = choose|w: int| 0 <= w < sub.len() && #[trigger] sub[w] == fsub[i];
            assert(s[w] == f[i]);
        }
    }
}

/// Filtering keeps every pairwise relation that held of the sequence.
pub proof fn lemma_filter_preserves_pairwise<T>(
    s: Seq<T>,
    pred: spec_fn(T) -> bool,
    rel: spec_fn(T, T) -> bool,
)
    requires
        forall|i: int, j: int| 0 <= i < j < s.len() ==> rel(#[trigger] s[i], #[trigger] s[j]),
    ensures
        forall|i: int, j: int|
            0 <= i < j < s.filter(pred).len() ==> rel(
                #[trigger] s.filter(pred)[i],
                #[trigger] s.filter(pred)[j],
            ),
    decreases s.len(),
{
    reveal(Seq::filter);
    if s.len() > 0 {
        let sub = s.drop_last();
        assert(forall|i: int, j: int|
            0 <= i < j < sub.len() ==> rel(#[trigger] sub[i], #[trigger] sub[j])) by {
            assert forall|i: int, j: int| 0 <= i < j < sub.len() implies rel(
                #[trigger] sub[i],
                #[trigger] sub[j],
            ) by {
                assert(sub[i] == s[i] && sub[j] == s[j]);
            }
        }
        lemma_filter_preserves_pairwise(sub, pred, rel);
        let f = s.filter(pred);
        let fsub = sub.filter(pred);
        if pred(s.last()) {
            assert(f == fsub.push(s.last()));
            assert forall|i: int, j: int| 0 <= i < j < f.len() implies rel(
                #[trigger] f[i],
                #[trigger] f[j],
            ) by {
                if j < f.len() - 1 {
                    assert(f[i] == fsub[i] && f[j] == fsub[j]);
                } else {
                    assert(f[j] == s.last());
                    assert(f[i] == fsub[i]);
                    lemma_filter_in_original(sub, pred, i);
                    let w = choose|w: int| 0 <= w < sub.len() && #[trigger] sub[w] == fsub[i];
                    assert(sub[w] == s[w]);
                    assert(0 <= w < s.len() - 1);
                    assert(rel(s[w], s[s.len() - 1]));
                    assert(rel(f[i], f[j]));
                }
            }
        } else {
            assert(f == fsub);
        }
    }
}

/// An element of the original sequence that passes the filter is in the
/// filtered sequence.
pub proof fn lemma_filter_keeps<T>(s: Seq<T>, pred: spec_fn(T) -> bool, i: int)
    requires
        0 <= i < s.len(),
        pred(s[i]),
    ensures
        s.filter(pred).contains(s[i]),
{
    broadcast use vstd::seq_lib::group_filter_ensures;

    assert(s.filter(pred).contains(s[i]));
}

/// Why a store operation was refused.
#[derive(Clone, Copy, Debug, PartialEq, Eq, Structural)]
pub enum StoreError {
    /// A row that the operation needs does not exist.
    NotFound,
    /// The operation would duplicate a primary or unique key.
    Conflict,
    /// The operation would break the monotone ordering of feed checks.
    OutOfOrder,
}

/// The single-process store holding all mutable state of the aggregator.
#[derive(Debug)]
pub struct Store {
    pub feeds: Vec<Feed>,
    pub entries: Vec<Entry>,
    pub checks: Vec<FeedCheck>,
    pub users: Vec<User>,
    pub sessions: Vec<Session>,
    pub subscriptions: Vec<Subscription>,
    pub user_entries: Vec<UserEntryRow>,
}

impl Store {
    pub open spec fn feed_in(feeds: Seq<Feed>, id: FeedId) -> bool {
        exists|i: int| 0 <= i < feeds.len() && (#[trigger] feeds[i]).id == id
    }

    pub open spec fn feed_url_in(feeds: Seq<Feed>, url: Seq<char>) -> bool {
        exists|i: int| 0 <= i < feeds.len() && (#[trigger] feeds[i]).url@ == url
    }

    pub open spec fn entry_in(entries: Seq<Entry>, id: EntryId) -> bool {
        exists|i: int| 0 <= i < entries.len() && (#[trigger] entries[i]).id == id
    }

    pub open spec fn internal_id_in(
        entries: Seq<Entry>,
        feed_id: FeedId,
        internal_id: Seq<char>,
    ) -> bool {
        exists|i: int|
            0 <= i < entries.len() && (#[trigger] entries[i]).feed_id == feed_id
                && entries[i].internal_id@ == internal_id
    }

    pub open spec fn check_in(checks: Seq<FeedCheck>, id: u64, feed_id: FeedId) -> bool {
        exists|i: int|
            0 <= i < checks.len() && (#[trigger] checks[i]).id == id && checks[i].feed_id == feed_id
    }

    pub open spec fn user_in(users: Seq<User>, id: UserId) -> bool {
        exists|i: int| 0 <= i < users.len() && (#[trigger] users[i]).id == id
    }

    pub open spec fn user_named_in(users: Seq<User>, name: Seq<char>) -> bool {
        exists|i: int| 0 <= i < users.len() && (#[trigger] users[i]).name@ == name
    }

    pub open spec fn session_in(sessions: Seq<Session>, token: Seq<char>) -> bool {
        exists|i: int| 0 <= i < sessions.len() && (#[trigger] sessions[i]).token.0@ == token
    }

    pub open spec fn sub_in(subs: Seq<Subscription>, user_id: UserId, feed_id: FeedId) -> bool {
        exists|i: int|
            0 <= i < subs.len() && #[trigger] subs[i] == (Subscription { user_id, feed_id })
    }

    pub open spec fn spec_feed_exists(self, id: FeedId) -> bool {
        Self::feed_in(self.feeds@, id)
    }

    pub open spec fn spec_feed_with_url_exists(self, url: Seq<char>) -> bool {
        Self::feed_url_in(self.feeds@, url)
    }

    pub open spec fn spec_entry_exists(self, id: EntryId) -> bool {
        Self::entry_in(self.entries@, id)
    }

    pub open spec fn spec_internal_id_known(self, feed_id: FeedId, internal_id: Seq<char>) -> bool {
        Self::internal_id_in(self.entries@, feed_id, internal_id)
    }

    pub open spec fn spec_check_exists(self, id: u64, feed_id: FeedId) -> bool {
        Self::check_in(self.checks@, id, feed_id)
    }

    pub open spec fn spec_user_exists(self, id: UserId) -> bool {
        Self::user_in(self.users@, id)
    }

    pub open spec fn spec_user_named_exists(self, name: Seq<char>) -> bool {
        Self::user_named_in(self.users@, name)
    }

    pub open spec fn spec_session_exists(self, token: Seq<char>) -> bool {
        Self::session_in(self.sessions@, token)
    }

    pub open spec fn spec_subscribed(self, user_id: UserId, feed_id: FeedId) -> bool {
        Self::sub_in(self.subscriptions@, user_id, feed_id)
    }

    /// Feed ids and feed URLs are unique.
    pub open spec fn feeds_wf(self) -> bool {
        forall|i: int, j: int|
            0 <= i < j < self.feeds@.len() ==> (#[trigger] self.feeds@[i]).id
                != (#[trigger] self.feeds@[j]).id && self.feeds@[i].url@ != self.feeds@[j].url@
    }

    /// Feed checks are stored in id order with `id` equal to one plus the
    /// row's position, reference existing feeds, never schedule the next
    /// check before the check itself, and have per-feed monotone check times.
    pub open spec fn checks_wf(self) -> bool {
        &&& forall|i: int|
            0 <= i < self.checks@.len() ==> (#[trigger] self.checks@[i]).id == i + 1
                && self.checks@[i].next_check_time.millis >= self.checks@[i].check_time.millis
                && Self::feed_in(self.feeds@, self.checks@[i].feed_id)
        &&& forall|i: int, j: int|
            0 <= i < j < self.checks@.len() && (#[trigger] self.checks@[i]).feed_id
                == (#[trigger] self.checks@[j]).feed_id ==> self.checks@[i].check_time.millis
                <= self.checks@[j].check_time.millis
    }

    /// Entry ids are unique, `(feed_id, internal_id)` is unique, and every
    /// entry's `check_id` names a stored check of the same feed.
    pub open spec fn entries_wf(self) -> bool {
        &&& forall|i: int, j: int|
            0 <= i < j < self.entries@.len() ==> (#[trigger] self.entries@[i]).id
                != (#[trigger] self.entries@[j]).id && !(self.entries@[i].feed_id
                == self.entries@[j].feed_id && self.entries@[i].internal_id@
                == self.entries@[j].internal_id@)
        &&& forall|i: int|
            0 <= i < self.entries@.len() ==> Self::check_in(
                self.checks@,
                (#[trigger] self.entries@[i]).check_id,
                self.entries@[i].feed_id,
            )
    }

    /// User ids and user names are unique.
    pub open spec fn users_wf(self) -> bool {
        forall|i: int, j: int|
            0 <= i < j < self.users@.len() ==> (#[trigger] self.users@[i]).id
                != (#[trigger] self.users@[j]).id && self.users@[i].name@ != self.users@[j].name@
    }

    /// Session tokens are unique and every session names an existing user.
    pub open spec fn sessions_wf(self) -> bool {
        &&& forall|i: int, j: int|
            0 <= i < j < self.sessions@.len() ==> (#[trigger] self.sessions@[i]).token.0@
                != (#[trigger] self.sessions@[j]).token.0@
        &&& forall|i: int|
            0 <= i < self.sessions@.len() ==> Self::user_in(
                self.users@,
                (#[trigger] self.sessions@[i]).user_id,
            )
    }

    /// `(user_id, feed_id)` is a primary key and references existing rows.
    pub open spec fn subscriptions_wf(self) -> bool {
        &&& forall|i: int, j: int|
            0 <= i < j < self.subscriptions@.len() ==> #[trigger] self.subscriptions@[i]
                != #[trigger] self.subscriptions@[j]
        &&& forall|i: int|
            0 <= i < self.subscriptions@.len() ==> Self::user_in(
                self.users@,
                (#[trigger] self.subscriptions@[i]).user_id,
            ) && Self::feed_in(self.feeds@, self.subscriptions@[i].feed_id)
    }

    /// `(user_id, entry_id)` is a primary key and references existing rows.
    pub open spec fn user_entries_wf(self) -> bool {
        &&& forall|i: int, j: int|
            0 <= i < j < self.user_entries@.len() ==> !((#[trigger] self.user_entries@[i]).user_id
                == (#[trigger] self.user_entries@[j]).user_id && self.user_entries@[i].entry_id
                == self.user_entries@[j].entry_id)
        &&& forall|i: int|
            0 <= i < self.user_entries@.len() ==> Self::user_in(
                self.users@,
                (#[trigger] self.user_entries@[i]).user_id,
            ) && Self::entry_in(self.entries@, self.user_entries@[i].entry_id)
    }

    /// The schema invariants, all together.
    pub open spec fn wf(self) -> bool {
        &&& self.feeds_wf()
        &&& self.checks_wf()
        &&& self.entries_wf()
        &&& self.users_wf()
        &&& self.sessions_wf()
        &&& self.subscriptions_wf()
        &&& self.user_entries_wf()
    }

    /// The position of the last stored check for `feed_id`, or -1 if the
    /// feed has never been checked.
    pub open spec fn spec_last_check_index(checks: Seq<FeedCheck>, feed_id: FeedId) -> int
        decreases checks.len(),
    {
        if checks.len() == 0 {
            -1
        } else if checks.last().feed_id == feed_id {
            checks.len() - 1
        } else {
            Self::spec_last_check_index(checks.drop_last(), feed_id)
        }
    }

    proof fn lemma_last_check_index(checks: Seq<FeedCheck>, feed_id: FeedId)
        ensures
            -1 <= Self::spec_last_check_index(checks, feed_id) < checks.len(),
            Self::spec_last_check_index(checks, feed_id) >= 0 ==> checks[Self::spec_last_check_index(
                checks,
                feed_id,
            )].feed_id == feed_id,
            forall|k: int|
                Self::spec_last_check_index(checks, feed_id) < k < checks.len() ==> (
                #[trigger] checks[k]).feed_id != feed_id,
        decreases checks.len(),
    {
        if checks.len() > 0 && checks.last().feed_id != feed_id {
            Self::lemma_last_check_index(checks.drop_last(), feed_id);
            assert forall|k: int|
                Self::spec_last_check_index(checks, feed_id) < k < checks.len() implies (
            #[trigger] checks[k]).feed_id != feed_id by {
                if k < checks.len() - 1 {
                    assert(checks.drop_last()[k] == checks[k]);
                }
            }
        }
    }

    /// The latest stored check for the given feed, if any.
    pub open spec fn spec_last_check(self, feed_id: FeedId) -> Option<FeedCheck> {
        let i = Self::spec_last_check_index(self.checks@, feed_id);
        if i >= 0 {
            Some(self.checks@[i])
        } else {
            None
        }
    }

    /// Everything but the feed table is the same in both stores.
    pub open spec fn eq_but_feeds(post: Store, pre: Store) -> bool {
        &&& post.entries@ == pre.entries@
        &&& post.checks@ == pre.checks@
        &&& post.users@ == pre.users@
        &&& post.sessions@ == pre.sessions@
        &&& post.subscriptions@ == pre.subscriptions@
        &&& post.user_entries@ == pre.user_entries@
    }

    /// Everything but the check table is the same in both stores.
    pub open spec fn eq_but_checks(post: Store, pre: Store) -> bool {
        &&& post.feeds@ == pre.feeds@
        &&& post.entries@ == pre.entries@
        &&& post.users@ == pre.users@
        &&& post.sessions@ == pre.sessions@
        &&& post.subscriptions@ == pre.subscriptions@
        &&& post.user_entries@ == pre.user_entries@
    }

    /// Whether a feed with the given id is stored.
    pub fn feed_exists(&self, id: FeedId) -> (r: bool)
        ensures
            r == self.spec_feed_exists(id),
    {
        let mut i: usize = 0;
        while i < self.feeds.len()
            invariant
                i <= self.feeds@.len(),
                forall|k: int| 0 <= k < i ==> (#[trigger] self.feeds@[k]).id != id,
            decreases self.feeds@.len() - i,
        {
            if self.feeds[i].id == id {
                return true;
            }
            i += 1;
        }
        false
    }

    /// Whether a user with the given id is stored.
    pub fn user_exists(&self, id: UserId) -> (r: bool)
        ensures
            r == self.spec_user_exists(id),
    {
        let mut i: usize = 0;
        while i < self.users.len()
            invariant
                i <= self.users@.len(),
                forall|k: int| 0 <= k < i ==> (#[trigger] self.users@[k]).id != id,
            decreases self.users@.len() - i,
        {
            if self.users[i].id == id {
                return true;
            }
            i += 1;
        }
        false
    }

    /// Add the given feed to the store. Refused when a feed with the same id
    /// or the same URL is already stored.
    pub fn add_feed(&mut self, feed: Feed) -> (r: Result<(), StoreError>)
        requires
            old(self).wf(),
        ensures
            final(self).wf(),
            r is Ok <==> !old(self).spec_feed_exists(feed.id) && !old(self).spec_feed_with_url_exists(
                feed.url@,
            ),
            r is Ok ==> final(self).feeds@ == old(self).feeds@.push(feed),
            r is Err ==> final(self).feeds@ == old(self).feeds@,
            Self::eq_but_feeds(*final(self), *old(self)),
    {
        let mut i: usize = 0;
        while i < self.feeds.len()
            invariant
                old(self).wf(),
                *self == *old(self),
                i <= self.feeds@.len(),
                forall|k: int|
                    0 <= k < i ==> (#[trigger] self.feeds@[k]).id != feed.id
                        && self.feeds@[k].url@ != feed.url@,
            decreases self.feeds@.len() - i,
        {
            if self.feeds[i].id == feed.id {
                return Err(StoreError::Conflict);
            }
            if self.feeds[i].url == feed.url {
                return Err(StoreError::Conflict);
            }
            i += 1;
        }
        let ghost pre = *self;
        self.feeds.push(feed);
        proof {
            assert forall|id: FeedId| Self::feed_in(pre.feeds@, id) implies Self::feed_in(
                self.feeds@,
                id,
            ) by {
                let w = choose|w: int|
                    0 <= w < pre.feeds@.len() && (#[trigger] pre.feeds@[w]).id == id;
                assert(self.feeds@[w].id == id);
            }
        }
        Ok(())
    }

    /// All stored feeds.
    pub fn get_feeds(&self) -> (r: Vec<Feed>)
        ensures
            r@ == self.feeds@,
    {
        let mut r: Vec<Feed> = Vec::new();
        let mut i: usize = 0;
        while i < self.feeds.len()
            invariant
                i <= self.feeds@.len(),
                r@ == self.feeds@.subrange(0, i as int),
            decreases self.feeds@.len() - i,
        {
            r.push(self.feeds[i].clone());
            proof {
                assert(r@ =~= self.feeds@.subrange(0, i + 1));
            }
            i += 1;
        }
        proof {
            assert(r@ =~= self.feeds@);
        }
        r
    }

    /// Get a specific feed by id.
    pub fn get_feed(&self, id: FeedId) -> (r: Result<Feed, StoreError>)
        ensures
            r matches Ok(f) ==> self.feeds@.contains(f) && f.id == id,
            r is Err <==> !self.spec_feed_exists(id),
    {
        let mut i: usize = 0;
        while i < self.feeds.len()
            invariant
                i <= self.feeds@.len(),
                forall|k: int| 0 <= k < i ==> (#[trigger] self.feeds@[k]).id != id,
            decreases self.feeds@.len() - i,
        {
            if self.feeds[i].id == id {
                let f = self.feeds[i].clone();
                proof {
                    assert(self.feeds@.contains(f));
                }
                return Ok(f);
            }
            i += 1;
        }
        Err(StoreError::NotFound)
    }

    /// Get a specific feed by URL.
    pub fn get_feed_by_url(&self, url: &str) -> (r: Option<Feed>)
        ensures
            r matches Some(f) ==> self.feeds@.contains(f) && f.url@ == url@,
            r is None <==> !self.spec_feed_with_url_exists(url@),
    {
        let target: String = url.to_owned();
        let mut i: usize = 0;
        while i < self.feeds.len()
            invariant
                i <= self.feeds@.len(),
                target@ == url@,
                forall|k: int| 0 <= k < i ==> (#[trigger] self.feeds@[k]).url@ != url@,
            decreases self.feeds@.len() - i,
        {
            if self.feeds[i].url == target {
                let f = self.feeds[i].clone();
                proof {
                    assert(self.feeds@.contains(f));
                }
                return Some(f);
            }
            i += 1;
        }
        None
    }

    /// All feeds the given user is subscribed to, in storage order.
    pub fn get_subscribed_feeds(&self, user_id: UserId) -> (r: Vec<Feed>)
        ensures
            r@ == self.feeds@.filter(|f: Feed| Store::sub_in(self.subscriptions@, user_id, f.id)),
    {
        let ghost pred = |f: Feed| Store::sub_in(self.subscriptions@, user_id, f.id);
        let mut r: Vec<Feed> = Vec::new();
        let mut i: usize = 0;
        proof {
            assert(self.feeds@.subrange(0, 0) =~= Seq::<Feed>::empty());
            assert(Seq::<Feed>::empty().filter(pred) =~= Seq::<Feed>::empty()) by {
                reveal(Seq::filter);
            }
        }
        while i < self.feeds.len()
            invariant
                i <= self.feeds@.len(),
                r@ == self.feeds@.subrange(0, i as int).filter(pred),
                pred == (|f: Feed| Store::sub_in(self.subscriptions@, user_id, f.id)),
            decreases self.feeds@.len() - i,
        {
            let sub = self.subscription_exists(user_id, self.feeds[i].id);
            if sub {
                r.push(self.feeds[i].clone());
            }
            proof {
                let x = self.feeds@[i as int];
                let pre = self.feeds@.subrange(0, i as int);
                let ext = self.feeds@.subrange(0, i + 1);
                assert(ext =~= pre + seq![x]);
                Seq::filter_distributes_over_add(pre, seq![x], pred);
                reveal(Seq::filter);
                assert(seq![x].drop_last() =~= Seq::<Feed>::empty());
                assert(Seq::<Feed>::empty().filter(pred) =~= Seq::<Feed>::empty());
                assert(seq![x].filter(pred) =~= (if pred(x) {
                    seq![x]
                } else {
                    Seq::<Feed>::empty()
                }));
                assert(r@ =~= ext.filter(pred));
            }
            i += 1;
        }
        proof {
            assert(self.feeds@.subrange(0, self.feeds@.len() as int) =~= self.feeds@);
        }
        r
    }

    /// Whether the given subscription row is stored.
    pub fn subscription_exists(&self, user_id: UserId, feed_id: FeedId) -> (r: bool)
        ensures
            r == self.spec_subscribed(user_id, feed_id),
    {
        let mut i: usize = 0;
        while i < self.subscriptions.len()
            invariant
                i <= self.subscriptions@.len(),
                forall|k: int|
                    0 <= k < i ==> #[trigger] self.subscriptions@[k] != (Subscription {
                        user_id,
                        feed_id,
                    }),
            decreases self.subscriptions@.len() - i,
        {
            let s = self.subscriptions[i];
            if s.user_id == user_id && s.feed_id == feed_id {
                return true;
            }
            i += 1;
        }
        false
    }

    /// Append a feed check. The store assigns the next id; the check must
    /// name a stored feed, must not schedule its next check before its own
    /// check time, and must not move the feed's check time backwards.
    pub fn add_feed_check(&mut self, feed_check: WriteFeedCheck) -> (r: Result<
        FeedCheck,
        StoreError,
    >)
        requires
            old(self).wf(),
        ensures
            final(self).wf(),
            r is Ok <==> {
                &&& old(self).spec_feed_exists(feed_check.feed_id)
                &&& feed_check.next_check_time.millis >= feed_check.check_time.millis
                &&& (old(self).spec_last_check(feed_check.feed_id) matches Some(c) ==> c.check_time.millis
                    <= feed_check.check_time.millis)
                &&& old(self).checks@.len() < u64::MAX
            },
            r matches Ok(c) ==> {
                &&& c == (FeedCheck {
                    id: (old(self).checks@.len() + 1) as u64,
                    feed_id: feed_check.feed_id,
                    check_time: feed_check.check_time,
                    next_check_time: feed_check.next_check_time,
                    etag: feed_check.etag,
                })
                &&& final(self).checks@ == old(self).checks@.push(c)
            },
            r is Err ==> final(self).checks@ == old(self).checks@,
            Self::eq_but_checks(*final(self), *old(self)),
    {
        if !self.feed_exists(feed_check.feed_id) {
            return Err(StoreError::NotFound);
        }
        if feed_check.next_check_time.millis < feed_check.check_time.millis {
            return Err(StoreError::OutOfOrder);
        }
        if self.checks.len() as u64 == u64::MAX {
            return Err(StoreError::Conflict);
        }
        proof {
            Self::lemma_last_check_index(self.checks@, feed_check.feed_id);
        }
        match self.last_check_ref(feed_check.feed_id) {
            Some(prev) => {
                if prev.check_time.millis > feed_check.check_time.millis {
                    return Err(StoreError::OutOfOrder);
                }
            },
            None => {},
        }
        let id: u64 = (self.checks.len() as u64) + 1;
        let check = FeedCheck::from_write_feed_check(id, feed_check);
        let result = check.clone();
        let ghost pre = *self;
        self.checks.push(check);
        proof {
            Self::lemma_last_check_index(pre.checks@, feed_check.feed_id);
            assert forall|cid: u64, fid: FeedId|
                Self::check_in(pre.checks@, cid, fid) implies Self::check_in(
                self.checks@,
                cid,
                fid,
            ) by {
                let w = choose|w: int|
                    0 <= w < pre.checks@.len() && (#[trigger] pre.checks@[w]).id == cid
                        && pre.checks@[w].feed_id == fid;
                assert(self.checks@[w].id == cid && self.checks@[w].feed_id == fid);
            }
            assert(Self::check_in(self.checks@, result.id, result.feed_id)) by {
                assert(self.checks@[pre.checks@.len() as int] == result);
            }
        }
        Ok(result)
    }

    /// A reference to the latest stored check for the given feed.
    fn last_check_ref(&self, feed_id: FeedId) -> (r: Option<&FeedCheck>)
        ensures
            match r {
                Some(c) => self.spec_last_check(feed_id) == Some(*c),
                None => self.spec_last_check(feed_id) is None,
            },
    {
        proof {
            Self::lemma_last_check_index(self.checks@, feed_id);
        }
        let mut i: usize = self.checks.len();
        while i > 0
            invariant
                i <= self.checks@.len(),
                forall|k: int|
                    i <= k < self.checks@.len() ==> (#[trigger] self.checks@[k]).feed_id != feed_id,
            decreases i,
        {
            i -= 1;
            if self.checks[i].feed_id == feed_id {
                proof {
                    Self::lemma_last_check_index(self.checks@, feed_id);
                    let li = Self::spec_last_check_index(self.checks@, feed_id);
                    assert(li == i);
                }
                return Some(&self.checks[i]);
            }
        }
        proof {
            Self::lemma_last_check_index(self.checks@, feed_id);
        }
        None
    }

    /// The latest stored check for the given feed, if any.
    pub fn get_last_feed_check(&self, feed_id: FeedId) -> (r: Option<FeedCheck>)
        ensures
            r == self.spec_last_check(feed_id),
    {
        match self.last_check_ref(feed_id) {
            Some(c) => Some(c.clone()),
            None => None,
        }
    }

    /// Everything but the entry table is the same in both stores.
    pub open spec fn eq_but_entries(post: Store, pre: Store) -> bool {
        &&& post.feeds@ == pre.feeds@
        &&& post.checks@ == pre.checks@
        &&& post.users@ == pre.users@
        &&& post.sessions@ == pre.sessions@
        &&& post.subscriptions@ == pre.subscriptions@
        &&& post.user_entries@ == pre.user_entries@
    }

    /// Whether a check with the given id is stored for the given feed.
    pub fn check_exists(&self, id: u64, feed_id: FeedId) -> (r: bool)
        ensures
            r == self.spec_check_exists(id, feed_id),
    {
        let mut i: usize = 0;
        while i < self.checks.len()
            invariant
                i <= self.checks@.len(),
                forall|k: int|
                    0 <= k < i ==> !((#[trigger] self.checks@[k]).id == id
                        && self.checks@[k].feed_id == feed_id),
            decreases self.checks@.len() - i,
        {
            if self.checks[i].id == id && self.checks[i].feed_id == feed_id {
                return true;
            }
            i += 1;
        }
        false
    }

    /// Whether an entry with the given internal id is stored for the feed.
    pub fn internal_id_known(&self, feed_id: FeedId, internal_id: &str) -> (r: bool)
        ensures
            r == self.spec_internal_id_known(feed_id, internal_id@),
    {
        let target: String = internal_id.to_owned();
        let mut i: usize = 0;
        while i < self.entries.len()
            invariant
                i <= self.entries@.len(),
                target@ == internal_id@,
                forall|k: int|
                    0 <= k < i ==> !((#[trigger] self.entries@[k]).feed_id == feed_id
                        && self.entries@[k].internal_id@ == internal_id@),
            decreases self.entries@.len() - i,
        {
            if self.entries[i].feed_id == feed_id && self.entries[i].internal_id == target {
                return true;
            }
            i += 1;
        }
        false
    }

    /// Add the given entry. Refused when its id or its `(feed_id,
    /// internal_id)` pair is already present, or when its `check_id` does not
    /// name a stored check of the same feed.
    pub fn add_entry(&mut self, entry: Entry) -> (r: Result<(), StoreError>)
        requires
            old(self).wf(),
        ensures
            final(self).wf(),
            r is Ok <==> {
                &&& !(exists|i: int|
                    0 <= i < old(self).entries@.len() && (#[trigger] old(self).entries@[i]).id
                        == entry.id)
                &&& !old(self).spec_internal_id_known(entry.feed_id, entry.internal_id@)
                &&& old(self).spec_check_exists(entry.check_id, entry.feed_id)
            },
            r is Ok ==> final(self).entries@ == old(self).entries@.push(entry),
            r is Err ==> final(self).entries@ == old(self).entries@,
            Self::eq_but_entries(*final(self), *old(self)),
    {
        if !self.check_exists(entry.check_id, entry.feed_id) {
            return Err(StoreError::NotFound);
        }
        if self.internal_id_known(entry.feed_id, entry.internal_id.as_str()) {
            return Err(StoreError::Conflict);
        }
        let mut i: usize = 0;
        while i < self.entries.len()
            invariant
                old(self).wf(),
                *self == *old(self),
                i <= self.entries@.len(),
                forall|k: int| 0 <= k < i ==> (#[trigger] self.entries@[k]).id != entry.id,
            decreases self.entries@.len() - i,
        {
            if self.entries[i].id == entry.id {
                return Err(StoreError::Conflict);
            }
            i += 1;
        }
        let ghost pre = *self;
        self.entries.push(entry);
        proof {
            assert forall|eid: EntryId| Self::entry_in(pre.entries@, eid) implies Self::entry_in(
                self.entries@,
                eid,
            ) by {
                let w = choose|w: int|
                    0 <= w < pre.entries@.len() && (#[trigger] pre.entries@[w]).id == eid;
                assert(self.entries@[w].id == eid);
            }
        }
        Ok(())
    }

    /// Get a specific entry by id.
    pub fn get_entry(&self, id: EntryId) -> (r: Result<Entry, StoreError>)
        ensures
            r matches Ok(e) ==> self.entries@.contains(e) && e.id == id,
            r is Err <==> !self.spec_entry_exists(id),
    {
        let mut i: usize = 0;
        while i < self.entries.len()
            invariant
                i <= self.entries@.len(),
                forall|k: int| 0 <= k < i ==> (#[trigger] self.entries@[k]).id != id,
            decreases self.entries@.len() - i,
        {
            if self.entries[i].id == id {
                let e = self.entries[i].clone();
                proof {
                    assert(self.entries@.contains(e));
                }
                return Ok(e);
            }
            i += 1;
        }
        Err(StoreError::NotFound)
    }

    /// All entries of the given feed, in storage order.
    pub fn get_entries_for_feed(&self, feed_id: FeedId) -> (r: Vec<Entry>)
        ensures
            r@ == self.entries@.filter(|e: Entry| e.feed_id == feed_id),
    {
        let ghost pred = |e: Entry| e.feed_id == feed_id;
        let mut r: Vec<Entry> = Vec::new();
        let mut i: usize = 0;
        proof {
            reveal(Seq::filter);
            assert(self.entries@.subrange(0, 0) =~= Seq::<Entry>::empty());
        }
        while i < self.entries.len()
            invariant
                i <= self.entries@.len(),
                r@ == self.entries@.subrange(0, i as int).filter(pred),
                pred == (|e: Entry| e.feed_id == feed_id),
            decreases self.entries@.len() - i,
        {
            if self.entries[i].feed_id == feed_id {
                r.push(self.entries[i].clone());
            }
            proof {
                lemma_filter_extend(self.entries@, i as int, pred);
            }
            i += 1;
        }
        proof {
            assert(self.entries@.subrange(0, self.entries@.len() as int) =~= self.entries@);
        }
        r
    }

    /// The requested page of a listing: `page_num` pages of `page_size` rows
    /// are skipped and at most `page_size` rows are kept.
    pub open spec fn spec_page<T>(s: Seq<T>, p: Pagination) -> Seq<T> {
        let start = if p.page_num * p.page_size > s.len() {
            s.len() as int
        } else {
            p.page_num * p.page_size
        };
        let end = if start + p.page_size > s.len() {
            s.len() as int
        } else {
            start + p.page_size
        };
        s.subrange(start, end)
    }

    /// All checks of the given feed, newest (highest id) first, paged.
    pub fn get_feed_checks(&self, feed_id: FeedId, pagination: Pagination) -> (r: Vec<FeedCheck>)
        ensures
            r@ == Self::spec_page(
                self.checks@.filter(|c: FeedCheck| c.feed_id == feed_id).reverse(),
                pagination,
            ),
    {
        let ghost pred = |c: FeedCheck| c.feed_id == feed_id;
        let mut all: Vec<FeedCheck> = Vec::new();
        let mut i: usize = 0;
        proof {
            reveal(Seq::filter);
            assert(self.checks@.subrange(0, 0) =~= Seq::<FeedCheck>::empty());
        }
        while i < self.checks.len()
            invariant
                i <= self.checks@.len(),
                all@ == self.checks@.subrange(0, i as int).filter(pred),
                pred == (|c: FeedCheck| c.feed_id == feed_id),
            decreases self.checks@.len() - i,
        {
            if self.checks[i].feed_id == feed_id {
                all.push(self.checks[i].clone());
            }
            proof {
                lemma_filter_extend(self.checks@, i as int, pred);
            }
            i += 1;
        }
        proof {
            assert(self.checks@.subrange(0, self.checks@.len() as int) =~= self.checks@);
        }
        let ghost full = self.checks@.filter(pred).reverse();
        // Walk the matching checks backwards, skipping the pages before the
        // requested one and collecting one page.
        proof {
            assert((pagination.page_num as u128) * (pagination.page_size as u128) <= u128::MAX)
                by (nonlinear_arith)
                requires
                    pagination.page_num <= u64::MAX,
                    pagination.page_size <= u64::MAX,
            ;
        }
        let start128: u128 = (pagination.page_num as u128) * (pagination.page_size as u128);
        let mut r: Vec<FeedCheck> = Vec::new();
        let mut taken: usize = 0;
        while taken < pagination.page_size && (start128 < (all.len() as u128) - (taken as u128))
            invariant
                full == all@.reverse(),
                start128 == pagination.page_num * pagination.page_size,
                taken <= pagination.page_size,
                taken == 0 || start128 + taken <= full.len(),
                taken <= full.len(),
                r@.len() == taken,
                forall|k: int|
                    0 <= k < taken ==> #[trigger] r@[k] == full[start128 + k],
            decreases pagination.page_size - taken,
        {
            let idx: usize = all.len() - 1 - (start128 as usize) - taken;
            r.push(all[idx].clone());
            proof {
                assert(full[start128 + taken] == all@[all@.len() - 1 - (start128 + taken)]);
            }
            taken += 1;
        }
        proof {
            let p = Self::spec_page(full, pagination);
            assert(r@ =~= p);
        }
        r
    }

    /// Everything but the user table is the same in both stores.
    pub open spec fn eq_but_users(post: Store, pre: Store) -> bool {
        &&& post.feeds@ == pre.feeds@
        &&& post.entries@ == pre.entries@
        &&& post.checks@ == pre.checks@
        &&& post.sessions@ == pre.sessions@
        &&& post.subscriptions@ == pre.subscriptions@
        &&& post.user_entries@ == pre.user_entries@
    }

    /// Everything but the session table is the same in both stores.
    pub open spec fn eq_but_sessions(post: Store, pre: Store) -> bool {
        &&& post.feeds@ == pre.feeds@
        &&& post.entries@ == pre.entries@
        &&& post.checks@ == pre.checks@
        &&& post.users@ == pre.users@
        &&& post.subscriptions@ == pre.subscriptions@
        &&& post.user_entries@ == pre.user_entries@
    }

    /// Everything but the subscription table is the same in both stores.
    pub open spec fn eq_but_subscriptions(post: Store, pre: Store) -> bool {
        &&& post.feeds@ == pre.feeds@
        &&& post.entries@ == pre.entries@
        &&& post.checks@ == pre.checks@
        &&& post.users@ == pre.users@
        &&& post.sessions@ == pre.sessions@
        &&& post.user_entries@ == pre.user_entries@
    }

    /// Add the given user. Refused when the id or the name is taken.
    pub fn add_user(&mut self, user: User) -> (r: Result<(), StoreError>)
        requires
            old(self).wf(),
        ensures
            final(self).wf(),
            r is Ok <==> !Self::user_in(old(self).users@, user.id) && !Self::user_named_in(
                old(self).users@,
                user.name@,
            ),
            r is Ok ==> final(self).users@ == old(self).users@.push(user),
            r is Err ==> final(self).users@ == old(self).users@,
            Self::eq_but_users(*final(self), *old(self)),
    {
        let mut i: usize = 0;
        while i < self.users.len()
            invariant
                old(self).wf(),
                *self == *old(self),
                i <= self.users@.len(),
                forall|k: int|
                    0 <= k < i ==> (#[trigger] self.users@[k]).id != user.id
                        && self.users@[k].name@ != user.name@,
            decreases self.users@.len() - i,
        {
            if self.users[i].id == user.id {
                return Err(StoreError::Conflict);
            }
            if self.users[i].name == user.name {
                return Err(StoreError::Conflict);
            }
            i += 1;
        }
        let ghost pre = *self;
        self.users.push(user);
        proof {
            assert forall|id: UserId| Self::user_in(pre.users@, id) implies Self::user_in(
                self.users@,
                id,
            ) by {
                let w = choose|w: int|
                    0 <= w < pre.users@.len() && (#[trigger] pre.users@[w]).id == id;
                assert(self.users@[w].id == id);
            }
        }
        Ok(())
    }

    /// Get the user with the given id.
    pub fn get_user(&self, user_id: UserId) -> (r: Result<User, StoreError>)
        ensures
            r matches Ok(u) ==> self.users@.contains(u) && u.id == user_id,
            r is Err <==> !Self::user_in(self.users@, user_id),
    {
        let mut i: usize = 0;
        while i < self.users.len()
            invariant
                i <= self.users@.len(),
                forall|k: int| 0 <= k < i ==> (#[trigger] self.users@[k]).id != user_id,
            decreases self.users@.len() - i,
        {
            if self.users[i].id == user_id {
                let u = self.users[i].clone();
                proof {
                    assert(self.users@.contains(u));
                }
                return Ok(u);
            }
            i += 1;
        }
        Err(StoreError::NotFound)
    }

    /// Look up a user by name.
    pub fn get_user_by_name(&self, user_name: &str) -> (r: Option<User>)
        ensures
            r matches Some(u) ==> self.users@.contains(u) && u.name@ == user_name@,
            r is None <==> !Self::user_named_in(self.users@, user_name@),
    {
        let target: String = user_name.to_owned();
        let mut i: usize = 0;
        while i < self.users.len()
            invariant
                i <= self.users@.len(),
                target@ == user_name@,
                forall|k: int| 0 <= k < i ==> (#[trigger] self.users@[k]).name@ != user_name@,
            decreases self.users@.len() - i,
        {
            if self.users[i].name == target {
                let u = self.users[i].clone();
                proof {
                    assert(self.users@.contains(u));
                }
                return Some(u);
            }
            i += 1;
        }
        None
    }

    /// Replace the name and password hash of the stored user with the given
    /// id. Refused when no such user is stored, or when the new name belongs
    /// to a different user.
    pub fn update_user(&mut self, user: &User) -> (r: Result<(), StoreError>)
        requires
            old(self).wf(),
        ensures
            final(self).wf(),
            r is Ok <==> Self::user_in(old(self).users@, user.id) && !(exists|i: int|
                0 <= i < old(self).users@.len() && (#[trigger] old(self).users@[i]).id != user.id
                    && old(self).users@[i].name@ == user.name@),
            r matches Ok(_) ==> exists|i: int|
                0 <= i < old(self).users@.len() && (#[trigger] old(self).users@[i]).id == user.id
                    && final(self).users@ == old(self).users@.update(
                    i,
                    User {
                        id: user.id,
                        name: user.name,
                        password_hash: user.password_hash,
                        user_type: old(self).users@[i].user_type,
                    },
                ),
            r is Err ==> final(self).users@ == old(self).users@,
            Self::eq_but_users(*final(self), *old(self)),
    {
        let mut i: usize = 0;
        let mut found: Option<usize> = None;
        while i < self.users.len()
            invariant
                old(self).wf(),
                *self == *old(self),
                i <= self.users@.len(),
                match found {
                    Some(f) => f < i && self.users@[f as int].id == user.id,
                    None => forall|k: int| 0 <= k < i ==> (#[trigger] self.users@[k]).id != user.id,
                },
                forall|k: int|
                    0 <= k < i ==> !((#[trigger] self.users@[k]).id != user.id
                        && self.users@[k].name@ == user.name@),
            decreases self.users@.len() - i,
        {
            if self.users[i].id != user.id && self.users[i].name == user.name {
                return Err(StoreError::Conflict);
            }
            if self.users[i].id == user.id {
                found = Some(i);
            }
            i += 1;
        }
        match found {
            None => Err(StoreError::NotFound),
            Some(f) => {
                let ghost pre = *self;
                let old_row = self.users.remove(f);
                let new_row = User {
                    id: user.id,
                    name: user.name.clone(),
                    password_hash: PasswordHash(user.password_hash.0.clone()),
                    user_type: old_row.user_type,
                };
                self.users.insert(f, new_row);
                proof {
                    assert(self.users@ =~= pre.users@.update(
                        f as int,
                        User {
                            id: user.id,
                            name: user.name,
                            password_hash: user.password_hash,
                            user_type: pre.users@[f as int].user_type,
                        },
                    ));
                    assert forall|id: UserId| Self::user_in(pre.users@, id) implies Self::user_in(
                        self.users@,
                        id,
                    ) by {
                        let w = choose|w: int|
                            0 <= w < pre.users@.len() && (#[trigger] pre.users@[w]).id == id;
                        if w == f {
                            assert(self.users@[w].id == id);
                        } else {
                            assert(self.users@[w].id == id);
                        }
                    }
                }
                Ok(())
            },
        }
    }

    /// Remove the user with the given id, together with every session,
    /// per-user entry row and subscription that references it. The user row
    /// is removed last.
    pub fn delete_user(&mut self, user_id: UserId)
        requires
            old(self).wf(),
        ensures
            final(self).wf(),
            final(self).sessions@ == old(self).sessions@.filter(
                |s: Session| s.user_id != user_id,
            ),
            final(self).user_entries@ == old(self).user_entries@.filter(
                |r: UserEntryRow| r.user_id != user_id,
            ),
            final(self).subscriptions@ == old(self).subscriptions@.filter(
                |s: Subscription| s.user_id != user_id,
            ),
            final(self).users@ == old(self).users@.filter(|u: User| u.id != user_id),
            !Self::user_in(final(self).users@, user_id),
            forall|k: int|
                0 <= k < final(self).sessions@.len() ==> (
                #[trigger] final(self).sessions@[k]).user_id != user_id,
            forall|k: int|
                0 <= k < final(self).user_entries@.len() ==> (
                #[trigger] final(self).user_entries@[k]).user_id != user_id,
            forall|k: int|
                0 <= k < final(self).subscriptions@.len() ==> (
                #[trigger] final(self).subscriptions@[k]).user_id != user_id,
            final(self).feeds@ == old(self).feeds@,
            final(self).entries@ == old(self).entries@,
            final(self).checks@ == old(self).checks@,
    {
        let ghost pre = *self;
        let ghost spred = |s: Session| s.user_id != user_id;
        let mut kept_sessions: Vec<Session> = Vec::new();
        let mut i: usize = 0;
        proof {
            reveal(Seq::filter);
            assert(self.sessions@.subrange(0, 0) =~= Seq::<Session>::empty());
        }
        while i < self.sessions.len()
            invariant
                *self == pre,
                i <= self.sessions@.len(),
                kept_sessions@ == self.sessions@.subrange(0, i as int).filter(spred),
                spred == (|s: Session| s.user_id != user_id),
            decreases self.sessions@.len() - i,
        {
            if !(self.sessions[i].user_id == user_id) {
                kept_sessions.push(self.sessions[i].clone());
            }
            proof {
                lemma_filter_extend(self.sessions@, i as int, spred);
            }
            i += 1;
        }
        proof {
            assert(self.sessions@.subrange(0, self.sessions@.len() as int) =~= self.sessions@);
        }
        self.sessions = kept_sessions;

        let ghost upred = |r: UserEntryRow| r.user_id != user_id;
        let mut kept_rows: Vec<UserEntryRow> = Vec::new();
        let mut i: usize = 0;
        proof {
            reveal(Seq::filter);
            assert(self.user_entries@.subrange(0, 0) =~= Seq::<UserEntryRow>::empty());
        }
        while i < self.user_entries.len()
            invariant
                self.user_entries@ == pre.user_entries@,
                i <= self.user_entries@.len(),
                kept_rows@ == self.user_entries@.subrange(0, i as int).filter(upred),
                upred == (|r: UserEntryRow| r.user_id != user_id),
            decreases self.user_entries@.len() - i,
        {
            if !(self.user_entries[i].user_id == user_id) {
                kept_rows.push(self.user_entries[i].clone());
            }
            proof {
                lemma_filter_extend(self.user_entries@, i as int, upred);
            }
            i += 1;
        }
        proof {
            assert(self.user_entries@.subrange(0, self.user_entries@.len() as int)
                =~= self.user_entries@);
        }
        self.user_entries = kept_rows;

        let ghost bpred = |s: Subscription| s.user_id != user_id;
        let mut kept_subs: Vec<Subscription> = Vec::new();
        let mut i: usize = 0;
        proof {
            reveal(Seq::filter);
            assert(self.subscriptions@.subrange(0, 0) =~= Seq::<Subscription>::empty());
        }
        while i < self.subscriptions.len()
            invariant
                self.subscriptions@ == pre.subscriptions@,
                i <= self.subscriptions@.len(),
                kept_subs@ == self.subscriptions@.subrange(0, i as int).filter(bpred),
                bpred == (|s: Subscription| s.user_id != user_id),
            decreases self.subscriptions@.len() - i,
        {
            if !(self.subscriptions[i].user_id == user_id) {
                kept_subs.push(self.subscriptions[i]);
            }
            proof {
                lemma_filter_extend(self.subscriptions@, i as int, bpred);
            }
            i += 1;
        }
        proof {
            assert(self.subscriptions@.subrange(0, self.subscriptions@.len() as int)
                =~= self.subscriptions@);
        }
        self.subscriptions = kept_subs;

        let ghost wpred = |u: User| u.id != user_id;
        let mut kept_users: Vec<User> = Vec::new();
        let mut i: usize = 0;
        proof {
            reveal(Seq::filter);
            assert(self.users@.subrange(0, 0) =~= Seq::<User>::empty());
        }
        while i < self.users.len()
            invariant
                self.users@ == pre.users@,
                i <= self.users@.len(),
                kept_users@ == self.users@.subrange(0, i as int).filter(wpred),
                wpred == (|u: User| u.id != user_id),
            decreases self.users@.len() - i,
        {
            if !(self.users[i].id == user_id) {
                kept_users.push(self.users[i].clone());
            }
            proof {
                lemma_filter_extend(self.users@, i as int, wpred);
            }
            i += 1;
        }
        proof {
            assert(self.users@.subrange(0, self.users@.len() as int) =~= self.users@);
        }
        self.users = kept_users;

        proof {
            Self::lemma_delete_user_wf(pre, *self, user_id);
        }
    }

    /// The cascade of a user deletion keeps the store well formed.
    proof fn lemma_delete_user_wf(pre: Store, post: Store, user_id: UserId)
        requires
            pre.wf(),
            post.sessions@ == pre.sessions@.filter(|s: Session| s.user_id != user_id),
            post.user_entries@ == pre.user_entries@.filter(
                |r: UserEntryRow| r.user_id != user_id,
            ),
            post.subscriptions@ == pre.subscriptions@.filter(
                |s: Subscription| s.user_id != user_id,
            ),
            post.users@ == pre.users@.filter(|u: User| u.id != user_id),
            post.feeds@ == pre.feeds@,
            post.entries@ == pre.entries@,
            post.checks@ == pre.checks@,
        ensures
            post.wf(),
            !Self::user_in(post.users@, user_id),
            forall|k: int|
                0 <= k < post.sessions@.len() ==> (#[trigger] post.sessions@[k]).user_id
                    != user_id,
            forall|k: int|
                0 <= k < post.user_entries@.len() ==> (#[trigger] post.user_entries@[k]).user_id
                    != user_id,
            forall|k: int|
                0 <= k < post.subscriptions@.len() ==> (
                #[trigger] post.subscriptions@[k]).user_id != user_id,
    {
        broadcast use vstd::seq_lib::group_filter_ensures;

        let spred = |s: Session| s.user_id != user_id;
        let upred = |r: UserEntryRow| r.user_id != user_id;
        let bpred = |s: Subscription| s.user_id != user_id;
        let wpred = |u: User| u.id != user_id;

        // A user other than the removed one is still present.
        assert forall|id: UserId|
            id != user_id && Self::user_in(pre.users@, id) implies Self::user_in(
            post.users@,
            id,
        ) by {
            let w = choose|w: int| 0 <= w < pre.users@.len() && (#[trigger] pre.users@[w]).id == id;
            lemma_filter_keeps(pre.users@, wpred, w);
            let v = choose|v: int|
                0 <= v < post.users@.len() && #[trigger] post.users@[v] == pre.users@[w];
            assert(post.users@[v].id == id);
        }
        // Nothing with the removed user id survives its filter, and every
        // survivor comes from the original table.
        assert forall|k: int| 0 <= k < post.sessions@.len() implies (
        #[trigger] post.sessions@[k]).user_id != user_id && Self::user_in(
            post.users@,
            post.sessions@[k].user_id,
        ) by {
            lemma_filter_in_original(pre.sessions@, spred, k);
            let w = choose|w: int|
                0 <= w < pre.sessions@.len() && #[trigger] pre.sessions@[w] == post.sessions@[k];
        }
        assert forall|k: int| 0 <= k < post.user_entries@.len() implies (
        #[trigger] post.user_entries@[k]).user_id != user_id && Self::user_in(
            post.users@,
            post.user_entries@[k].user_id,
        ) && Self::entry_in(post.entries@, post.user_entries@[k].entry_id) by {
            lemma_filter_in_original(pre.user_entries@, upred, k);
            let w = choose|w: int|
                0 <= w < pre.user_entries@.len() && #[trigger] pre.user_entries@[w]
                    == post.user_entries@[k];
        }
        assert forall|k: int| 0 <= k < post.subscriptions@.len() implies (
        #[trigger] post.subscriptions@[k]).user_id != user_id && Self::user_in(
            post.users@,
            post.subscriptions@[k].user_id,
        ) && Self::feed_in(post.feeds@, post.subscriptions@[k].feed_id) by {
            lemma_filter_in_original(pre.subscriptions@, bpred, k);
            let w = choose|w: int|
                0 <= w < pre.subscriptions@.len() && #[trigger] pre.subscriptions@[w]
                    == post.subscriptions@[k];
        }
        // Pairwise uniqueness survives each filter.
        lemma_filter_preserves_pairwise(
            pre.users@,
            wpred,
            |a: User, b: User| a.id != b.id && a.name@ != b.name@,
        );
        lemma_filter_preserves_pairwise(
            pre.sessions@,
            spred,
            |a: Session, b: Session| a.token.0@ != b.token.0@,
        );
        lemma_filter_preserves_pairwise(
            pre.subscriptions@,
            bpred,
            |a: Subscription, b: Subscription| a != b,
        );
        lemma_filter_preserves_pairwise(
            pre.user_entries@,
            upred,
            |a: UserEntryRow, b: UserEntryRow| !(a.user_id == b.user_id && a.entry_id
                == b.entry_id),
        );
        assert(!Self::user_in(post.users@, user_id));
    }

    /// Add the given session: its token must be fresh and its user stored.
    pub fn add_session(&mut self, session: Session) -> (r: Result<(), StoreError>)
        requires
            old(self).wf(),
        ensures
            final(self).wf(),
            r is Ok <==> !Self::session_in(old(self).sessions@, session.token.0@) && Self::user_in(
                old(self).users@,
                session.user_id,
            ),
            r is Ok ==> final(self).sessions@ == old(self).sessions@.push(session),
            r is Err ==> final(self).sessions@ == old(self).sessions@,
            Self::eq_but_sessions(*final(self), *old(self)),
    {
        if !self.user_exists(session.user_id) {
            return Err(StoreError::NotFound);
        }
        let mut i: usize = 0;
        while i < self.sessions.len()
            invariant
                old(self).wf(),
                *self == *old(self),
                i <= self.sessions@.len(),
                Self::user_in(self.users@, session.user_id),
                forall|k: int|
                    0 <= k < i ==> (#[trigger] self.sessions@[k]).token.0@ != session.token.0@,
            decreases self.sessions@.len() - i,
        {
            if self.sessions[i].token.0 == session.token.0 {
                return Err(StoreError::Conflict);
            }
            i += 1;
        }
        self.sessions.push(session);
        Ok(())
    }

    /// Look up the session with the given token, together with its user.
    pub fn get_user_by_session(&self, session_token: &str) -> (r: Option<(User, Session)>)
        requires
            self.wf(),
        ensures
            r matches Some(p) ==> {
                &&& self.sessions@.contains(p.1)
                &&& p.1.token.0@ == session_token@
                &&& self.users@.contains(p.0)
                &&& p.0.id == p.1.user_id
            },
            r is None <==> !Self::session_in(self.sessions@, session_token@),
    {
        let target: String = session_token.to_owned();
        let mut i: usize = 0;
        while i < self.sessions.len()
            invariant
                self.wf(),
                i <= self.sessions@.len(),
                target@ == session_token@,
                forall|k: int|
                    0 <= k < i ==> (#[trigger] self.sessions@[k]).token.0@ != session_token@,
            decreases self.sessions@.len() - i,
        {
            if self.sessions[i].token.0 == target {
                let session = self.sessions[i].clone();
                proof {
                    assert(self.sessions@.contains(session));
                    assert(Self::user_in(self.users@, session.user_id));
                }
                match self.get_user(session.user_id) {
                    Ok(user) => {
                        return Some((user, session));
                    },
                    Err(_) => {
                        proof {
                            assert(false);
                        }
                        return None;
                    },
                }
            }
            i += 1;
        }
        None
    }

    /// Delete the session with the given token; refused when none exists.
    pub fn delete_session(&mut self, session_token: &str) -> (r: Result<(), StoreError>)
        requires
            old(self).wf(),
        ensures
            final(self).wf(),
            r is Ok <==> Self::session_in(old(self).sessions@, session_token@),
            final(self).sessions@ == old(self).sessions@.filter(
                |s: Session| s.token.0@ != session_token@,
            ),
            Self::eq_but_sessions(*final(self), *old(self)),
    {
        let ghost pred = |s: Session| s.token.0@ != session_token@;
        let target: String = session_token.to_owned();
        let mut kept: Vec<Session> = Vec::new();
        let mut hit: bool = false;
        let mut i: usize = 0;
        proof {
            reveal(Seq::filter);
            assert(self.sessions@.subrange(0, 0) =~= Seq::<Session>::empty());
        }
        while i < self.sessions.len()
            invariant
                old(self).wf(),
                *self == *old(self),
                target@ == session_token@,
                i <= self.sessions@.len(),
                kept@ == self.sessions@.subrange(0, i as int).filter(pred),
                pred == (|s: Session| s.token.0@ != session_token@),
                hit == Self::session_in(self.sessions@.subrange(0, i as int), session_token@),
            decreases self.sessions@.len() - i,
        {
            let ghost prefix = self.sessions@.subrange(0, i as int);
            if self.sessions[i].token.0 == target {
                hit = true;
            } else {
                kept.push(self.sessions[i].clone());
            }
            proof {
                lemma_filter_extend(self.sessions@, i as int, pred);
                let ext = self.sessions@.subrange(0, i + 1);
                assert(ext =~= prefix.push(self.sessions@[i as int]));
                if self.sessions@[i as int].token.0@ == session_token@ {
                    assert(ext[i as int].token.0@ == session_token@);
                    assert(Self::session_in(ext, session_token@));
                } else {
                    assert forall|k: int|
                        0 <= k < ext.len() && (#[trigger] ext[k]).token.0@ == session_token@
                            implies Self::session_in(prefix, session_token@) by {
                        assert(k < prefix.len() && prefix[k] == ext[k]);
                    }
                }
            }
            i += 1;
        }
        proof {
            assert(self.sessions@.subrange(0, self.sessions@.len() as int) =~= self.sessions@);
        }
        let ghost pre = *self;
        self.sessions = kept;
        proof {
            Self::lemma_session_filter_wf(pre, *self, pred);
        }
        if hit {
            Ok(())
        } else {
            Err(StoreError::NotFound)
        }
    }

    /// Replacing the session table by a filtered copy keeps the store well
    /// formed.
    proof fn lemma_session_filter_wf(pre: Store, post: Store, pred: spec_fn(Session) -> bool)
        requires
            pre.wf(),
            post.sessions@ == pre.sessions@.filter(pred),
            post.feeds@ == pre.feeds@,
            post.entries@ == pre.entries@,
            post.checks@ == pre.checks@,
            post.users@ == pre.users@,
            post.subscriptions@ == pre.subscriptions@,
            post.user_entries@ == pre.user_entries@,
        ensures
            post.wf(),
    {
        lemma_filter_preserves_pairwise(
            pre.sessions@,
            pred,
            |a: Session, b: Session| a.token.0@ != b.token.0@,
        );
        assert forall|k: int| 0 <= k < post.sessions@.len() implies Self::user_in(
            post.users@,
            (#[trigger] post.sessions@[k]).user_id,
        ) by {
            lemma_filter_in_original(pre.sessions@, pred, k);
            let w = choose|w: int|
                0 <= w < pre.sessions@.len() && #[trigger] pre.sessions@[w] == post.sessions@[k];
        }
    }

    /// Delete every session that expires strictly before `expiry`.
    pub fn delete_expired_sessions(&mut self, expiry: Timestamp)
        requires
            old(self).wf(),
        ensures
            final(self).wf(),
            final(self).sessions@ == old(self).sessions@.filter(
                |s: Session| s.expiration.millis >= expiry.millis,
            ),
            Self::eq_but_sessions(*final(self), *old(self)),
    {
        let ghost pred = |s: Session| s.expiration.millis >= expiry.millis;
        let mut kept: Vec<Session> = Vec::new();
        let mut i: usize = 0;
        proof {
            reveal(Seq::filter);
            assert(self.sessions@.subrange(0, 0) =~= Seq::<Session>::empty());
        }
        while i < self.sessions.len()
            invariant
                old(self).wf(),
                *self == *old(self),
                i <= self.sessions@.len(),
                kept@ == self.sessions@.subrange(0, i as int).filter(pred),
                pred == (|s: Session| s.expiration.millis >= expiry.millis),
            decreases self.sessions@.len() - i,
        {
            if self.sessions[i].expiration.millis >= expiry.millis {
                kept.push(self.sessions[i].clone());
            }
            proof {
                lemma_filter_extend(self.sessions@, i as int, pred);
            }
            i += 1;
        }
        proof {
            assert(self.sessions@.subrange(0, self.sessions@.len() as int) =~= self.sessions@);
        }
        let ghost pre = *self;
        self.sessions = kept;
        proof {
            Self::lemma_session_filter_wf(pre, *self, pred);
        }
    }

    /// Delete every session of the given user; the count of deleted rows is
    /// reported when it fits the return type.
    pub fn delete_sessions_for_user(&mut self, user_id: UserId) -> (r: Result<u32, StoreError>)
        requires
            old(self).wf(),
        ensures
            final(self).wf(),
            final(self).sessions@ == old(self).sessions@.filter(
                |s: Session| s.user_id != user_id,
            ),
            r matches Ok(n) ==> n == old(self).sessions@.len() - final(self).sessions@.len(),
            r is Err <==> old(self).sessions@.len() - final(self).sessions@.len() > u32::MAX,
            Self::eq_but_sessions(*final(self), *old(self)),
    {
        let ghost pred = |s: Session| s.user_id != user_id;
        let before: usize = self.sessions.len();
        let mut kept: Vec<Session> = Vec::new();
        let mut i: usize = 0;
        proof {
            reveal(Seq::filter);
            assert(self.sessions@.subrange(0, 0) =~= Seq::<Session>::empty());
        }
        while i < self.sessions.len()
            invariant
                old(self).wf(),
                *self == *old(self),
                i <= self.sessions@.len(),
                kept@ == self.sessions@.subrange(0, i as int).filter(pred),
                kept@.len() <= i,
                pred == (|s: Session| s.user_id != user_id),
            decreases self.sessions@.len() - i,
        {
            if !(self.sessions[i].user_id == user_id) {
                kept.push(self.sessions[i].clone());
            }
            proof {
                lemma_filter_extend(self.sessions@, i as int, pred);
            }
            i += 1;
        }
        proof {
            assert(self.sessions@.subrange(0, self.sessions@.len() as int) =~= self.sessions@);
        }
        let after: usize = kept.len();
        let ghost pre = *self;
        self.sessions = kept;
        proof {
            Self::lemma_session_filter_wf(pre, *self, pred);
        }
        let removed: usize = before - after;
        if removed > u32::MAX as usize {
            Err(StoreError::Conflict)
        } else {
            Ok(removed as u32)
        }
    }

    /// Add a subscription row; its user and feed must be stored and the pair
    /// must be fresh.
    pub fn add_subscription(&mut self, user_id: UserId, feed_id: FeedId) -> (r: Result<
        (),
        StoreError,
    >)
        requires
            old(self).wf(),
        ensures
            final(self).wf(),
            r is Ok <==> {
                &&& !Self::sub_in(old(self).subscriptions@, user_id, feed_id)
                &&& Self::user_in(old(self).users@, user_id)
                &&& Self::feed_in(old(self).feeds@, feed_id)
            },
            r is Ok ==> final(self).subscriptions@ == old(self).subscriptions@.push(
                Subscription { user_id, feed_id },
            ),
            r is Err ==> final(self).subscriptions@ == old(self).subscriptions@,
            Self::eq_but_subscriptions(*final(self), *old(self)),
    {
        if !self.user_exists(user_id) {
            return Err(StoreError::NotFound);
        }
        if !self.feed_exists(feed_id) {
            return Err(StoreError::NotFound);
        }
        if self.subscription_exists(user_id, feed_id) {
            return Err(StoreError::Conflict);
        }
        self.subscriptions.push(Subscription { user_id, feed_id });
        Ok(())
    }

    /// Remove a subscription row; removing an absent row is a no-op.
    pub fn remove_subscription(&mut self, user_id: UserId, feed_id: FeedId)
        requires
            old(self).wf(),
        ensures
            final(self).wf(),
            final(self).subscriptions@ == old(self).subscriptions@.filter(
                |s: Subscription| s != (Subscription { user_id, feed_id }),
            ),
            Self::eq_but_subscriptions(*final(self), *old(self)),
    {
        let ghost pred = |s: Subscription| s != (Subscription { user_id, feed_id });
        let mut kept: Vec<Subscription> = Vec::new();
        let mut i: usize = 0;
        proof {
            reveal(Seq::filter);
            assert(self.subscriptions@.subrange(0, 0) =~= Seq::<Subscription>::empty());
        }
        while i < self.subscriptions.len()
            invariant
                old(self).wf(),
                *self == *old(self),
                i <= self.subscriptions@.len(),
                kept@ == self.subscriptions@.subrange(0, i as int).filter(pred),
                pred == (|s: Subscription| s != (Subscription { user_id, feed_id })),
            decreases self.subscriptions@.len() - i,
        {
            let s = self.subscriptions[i];
            if !(s.user_id == user_id && s.feed_id == feed_id) {
                kept.push(s);
            }
            proof {
                lemma_filter_extend(self.subscriptions@, i as int, pred);
            }
            i += 1;
        }
        proof {
            assert(self.subscriptions@.subrange(0, self.subscriptions@.len() as int)
                =~= self.subscriptions@);
        }
        let ghost pre = *self;
        self.subscriptions = kept;
        proof {
            let bpred = pred;
            lemma_filter_preserves_pairwise(
                pre.subscriptions@,
                bpred,
                |a: Subscription, b: Subscription| a != b,
            );
            assert forall|k: int| 0 <= k < self.subscriptions@.len() implies Self::user_in(
                self.users@,
                (#[trigger] self.subscriptions@[k]).user_id,
            ) && Self::feed_in(self.feeds@, self.subscriptions@[k].feed_id) by {
                lemma_filter_in_original(pre.subscriptions@, bpred, k);
                let w = choose|w: int|
                    0 <= w < pre.subscriptions@.len() && #[trigger] pre.subscriptions@[w]
                        == self.subscriptions@[k];
            }
        }
    }

    /// Everything but the user-entry table is the same in both stores.
    pub open spec fn eq_but_user_entries(post: Store, pre: Store) -> bool {
        &&& post.feeds@ == pre.feeds@
        &&& post.entries@ == pre.entries@
        &&& post.checks@ == pre.checks@
        &&& post.users@ == pre.users@
        &&& post.sessions@ == pre.sessions@
        &&& post.subscriptions@ == pre.subscriptions@
    }

    pub open spec fn ue_row_in(rows: Seq<UserEntryRow>, user_id: UserId, entry_id: EntryId) -> bool {
        exists|i: int|
            0 <= i < rows.len() && (#[trigger] rows[i]).user_id == user_id && rows[i].entry_id
                == entry_id
    }

    /// The stored per-user state for one `(user, entry)` pair, if any.
    pub open spec fn spec_ue_lookup(
        rows: Seq<UserEntryRow>,
        user_id: UserId,
        entry_id: EntryId,
    ) -> Option<UserEntry> {
        if Self::ue_row_in(rows, user_id, entry_id) {
            let i = choose|i: int|
                0 <= i < rows.len() && (#[trigger] rows[i]).user_id == user_id && rows[i].entry_id
                    == entry_id;
            Some(rows[i].settings)
        } else {
            None
        }
    }

    /// Under the primary-key invariant, the lookup reads the matching row.
    pub proof fn lemma_ue_lookup(rows: Seq<UserEntryRow>, user_id: UserId, entry_id: EntryId, k: int)
        requires
            forall|i: int, j: int|
                0 <= i < j < rows.len() ==> !((#[trigger] rows[i]).user_id == (
                #[trigger] rows[j]).user_id && rows[i].entry_id == rows[j].entry_id),
            0 <= k < rows.len(),
            rows[k].user_id == user_id,
            rows[k].entry_id == entry_id,
        ensures
            Self::spec_ue_lookup(rows, user_id, entry_id) == Some(rows[k].settings),
    {
        assert(Self::ue_row_in(rows, user_id, entry_id));
        let i = choose|i: int|
            0 <= i < rows.len() && (#[trigger] rows[i]).user_id == user_id && rows[i].entry_id
                == entry_id;
        if i != k {
            if i < k {
                assert(!(rows[i].user_id == rows[k].user_id && rows[i].entry_id
                    == rows[k].entry_id));
            } else {
                assert(!(rows[k].user_id == rows[i].user_id && rows[k].entry_id
                    == rows[i].entry_id));
            }
        }
    }

    /// The stored per-user state for one `(user, entry)` pair, if any.
    pub fn lookup_user_entry(&self, user_id: UserId, entry_id: EntryId) -> (r: Option<UserEntry>)
        requires
            self.wf(),
        ensures
            r == Self::spec_ue_lookup(self.user_entries@, user_id, entry_id),
    {
        let mut i: usize = 0;
        while i < self.user_entries.len()
            invariant
                self.wf(),
                i <= self.user_entries@.len(),
                forall|k: int|
                    0 <= k < i ==> !((#[trigger] self.user_entries@[k]).user_id == user_id
                        && self.user_entries@[k].entry_id == entry_id),
            decreases self.user_entries@.len() - i,
        {
            let row = &self.user_entries[i];
            if row.user_id == user_id && row.entry_id == entry_id {
                let settings = row.settings.clone();
                proof {
                    Self::lemma_ue_lookup(self.user_entries@, user_id, entry_id, i as int);
                }
                return Some(settings);
            }
            i += 1;
        }
        proof {
            assert(!Self::ue_row_in(self.user_entries@, user_id, entry_id));
        }
        None
    }

    /// Atomically read an entry and upsert the `(user, entry)` state row.
    pub fn get_entry_and_set_userentry(
        &mut self,
        entry_id: EntryId,
        user_id: UserId,
        user_entry: &UserEntry,
    ) -> (r: Result<Entry, StoreError>)
        requires
            old(self).wf(),
        ensures
            final(self).wf(),
            r is Ok <==> Self::entry_in(old(self).entries@, entry_id) && Self::user_in(
                old(self).users@,
                user_id,
            ),
            r matches Ok(e) ==> final(self).entries@.contains(e) && e.id == entry_id,
            r is Ok ==> Self::spec_ue_lookup(final(self).user_entries@, user_id, entry_id)
                == Some(*user_entry),
            forall|u2: UserId, e2: EntryId|
                !(u2 == user_id && e2 == entry_id) ==> #[trigger] Self::spec_ue_lookup(
                    final(self).user_entries@,
                    u2,
                    e2,
                ) == Self::spec_ue_lookup(old(self).user_entries@, u2, e2),
            r is Err ==> final(self).user_entries@ == old(self).user_entries@,
            Self::eq_but_user_entries(*final(self), *old(self)),
    {
        let entry = match self.get_entry(entry_id) {
            Ok(e) => e,
            Err(_) => {
                return Err(StoreError::NotFound);
            },
        };
        if !self.user_exists(user_id) {
            return Err(StoreError::NotFound);
        }
        let mut i: usize = 0;
        let mut found: Option<usize> = None;
        while i < self.user_entries.len()
            invariant
                old(self).wf(),
                *self == *old(self),
                i <= self.user_entries@.len(),
                match found {
                    Some(f) => f < i && self.user_entries@[f as int].user_id == user_id
                        && self.user_entries@[f as int].entry_id == entry_id,
                    None => forall|k: int|
                        0 <= k < i ==> !((#[trigger] self.user_entries@[k]).user_id == user_id
                            && self.user_entries@[k].entry_id == entry_id),
                },
            decreases self.user_entries@.len() - i,
        {
            let row = &self.user_entries[i];
            if row.user_id == user_id && row.entry_id == entry_id {
                found = Some(i);
            }
            i += 1;
        }
        let new_row = UserEntryRow { user_id, entry_id, settings: user_entry.clone() };
        let ghost pre = *self;
        match found {
            Some(f) => {
                let _ = self.user_entries.remove(f);
                self.user_entries.insert(f, new_row);
                proof {
                    assert(self.user_entries@ =~= pre.user_entries@.update(
                        f as int,
                        UserEntryRow { user_id, entry_id, settings: *user_entry },
                    ));
                    Self::lemma_upsert_update(pre, *self, f as int, user_id, entry_id, *user_entry);
                }
            },
            None => {
                self.user_entries.push(new_row);
                proof {
                    Self::lemma_upsert_push(pre, *self, user_id, entry_id, *user_entry);
                }
            },
        }
        Ok(entry)
    }

    /// Replacing the matched row in place keeps the store well formed and
    /// changes exactly one lookup.
    proof fn lemma_upsert_update(
        pre: Store,
        post: Store,
        f: int,
        user_id: UserId,
        entry_id: EntryId,
        settings: UserEntry,
    )
        requires
            pre.wf(),
            Self::user_in(pre.users@, user_id),
            Self::entry_in(pre.entries@, entry_id),
            0 <= f < pre.user_entries@.len(),
            pre.user_entries@[f].user_id == user_id,
            pre.user_entries@[f].entry_id == entry_id,
            post.user_entries@ == pre.user_entries@.update(
                f,
                UserEntryRow { user_id, entry_id, settings },
            ),
            Self::eq_but_user_entries(post, pre),
        ensures
            post.wf(),
            Self::spec_ue_lookup(post.user_entries@, user_id, entry_id) == Some(settings),
            forall|u2: UserId, e2: EntryId|
                !(u2 == user_id && e2 == entry_id) ==> #[trigger] Self::spec_ue_lookup(
                    post.user_entries@,
                    u2,
                    e2,
                ) == Self::spec_ue_lookup(pre.user_entries@, u2, e2),
    {
        let rows1 = pre.user_entries@;
        let rows2 = post.user_entries@;
        assert forall|i: int, j: int| 0 <= i < j < rows2.len() implies !((
        #[trigger] rows2[i]).user_id == (#[trigger] rows2[j]).user_id && rows2[i].entry_id
            == rows2[j].entry_id) by {
            assert(rows1[i].user_id == rows2[i].user_id && rows1[i].entry_id == rows2[i].entry_id);
            assert(rows1[j].user_id == rows2[j].user_id && rows1[j].entry_id == rows2[j].entry_id);
        }
        assert forall|k: int| 0 <= k < rows2.len() implies Self::user_in(
            post.users@,
            (#[trigger] rows2[k]).user_id,
        ) && Self::entry_in(post.entries@, rows2[k].entry_id) by {
            assert(rows1[k].user_id == rows2[k].user_id && rows1[k].entry_id == rows2[k].entry_id);
        }
        Self::lemma_ue_lookup(rows2, user_id, entry_id, f);
        assert forall|u2: UserId, e2: EntryId|
            !(u2 == user_id && e2 == entry_id) implies #[trigger] Self::spec_ue_lookup(
            rows2,
            u2,
            e2,
        ) == Self::spec_ue_lookup(rows1, u2, e2) by {
            if Self::ue_row_in(rows1, u2, e2) {
                let k = choose|k: int|
                    0 <= k < rows1.len() && (#[trigger] rows1[k]).user_id == u2 && rows1[k].entry_id
                        == e2;
                assert(k != f);
                assert(rows2[k] == rows1[k]);
                Self::lemma_ue_lookup(rows1, u2, e2, k);
                Self::lemma_ue_lookup(rows2, u2, e2, k);
            } else {
                assert forall|k: int|
                    0 <= k < rows2.len() implies !((#[trigger] rows2[k]).user_id == u2
                        && rows2[k].entry_id == e2) by {
                    if k != f {
                        assert(rows2[k] == rows1[k]);
                    }
                }
                assert(!Self::ue_row_in(rows2, u2, e2));
            }
        }
    }

    /// Appending a fresh state row keeps the store well formed and changes
    /// exactly one lookup.
    proof fn lemma_upsert_push(
        pre: Store,
        post: Store,
        user_id: UserId,
        entry_id: EntryId,
        settings: UserEntry,
    )
        requires
            pre.wf(),
            Self::user_in(pre.users@, user_id),
            Self::entry_in(pre.entries@, entry_id),
            !Self::ue_row_in(pre.user_entries@, user_id, entry_id),
            post.user_entries@ == pre.user_entries@.push(
                UserEntryRow { user_id, entry_id, settings },
            ),
            Self::eq_but_user_entries(post, pre),
        ensures
            post.wf(),
            Self::spec_ue_lookup(post.user_entries@, user_id, entry_id) == Some(settings),
            forall|u2: UserId, e2: EntryId|
                !(u2 == user_id && e2 == entry_id) ==> #[trigger] Self::spec_ue_lookup(
                    post.user_entries@,
                    u2,
                    e2,
                ) == Self::spec_ue_lookup(pre.user_entries@, u2, e2),
    {
        let rows1 = pre.user_entries@;
        let rows2 = post.user_entries@;
        let n = rows1.len() as int;
        assert forall|i: int, j: int| 0 <= i < j < rows2.len() implies !((
        #[trigger] rows2[i]).user_id == (#[trigger] rows2[j]).user_id && rows2[i].entry_id
            == rows2[j].entry_id) by {
            if j < n {
                assert(rows2[i] == rows1[i] && rows2[j] == rows1[j]);
            } else {
                assert(rows2[i] == rows1[i]);
                assert(rows2[j].user_id == user_id && rows2[j].entry_id == entry_id);
            }
        }
        assert forall|k: int| 0 <= k < rows2.len() implies Self::user_in(
            post.users@,
            (#[trigger] rows2[k]).user_id,
        ) && Self::entry_in(post.entries@, rows2[k].entry_id) by {
            if k < n {
                assert(rows2[k] == rows1[k]);
            }
        }
        Self::lemma_ue_lookup(rows2, user_id, entry_id, n);
        assert forall|u2: UserId, e2: EntryId|
            !(u2 == user_id && e2 == entry_id) implies #[trigger] Self::spec_ue_lookup(
            rows2,
            u2,
            e2,
        ) == Self::spec_ue_lookup(rows1, u2, e2) by {
            if Self::ue_row_in(rows1, u2, e2) {
                let k = choose|k: int|
                    0 <= k < rows1.len() && (#[trigger] rows1[k]).user_id == u2 && rows1[k].entry_id
                        == e2;
                assert(rows2[k] == rows1[k]);
                Self::lemma_ue_lookup(rows1, u2, e2, k);
                Self::lemma_ue_lookup(rows2, u2, e2, k);
            } else {
                assert forall|k: int|
                    0 <= k < rows2.len() implies !((#[trigger] rows2[k]).user_id == u2
                        && rows2[k].entry_id == e2) by {
                    if k < n {
                        assert(rows2[k] == rows1[k]);
                    }
                }
                assert(!Self::ue_row_in(rows2, u2, e2));
            }
        }
    }

    /// The listing order: strictly newer checks first, and within one check
    /// later article dates first.
    pub open spec fn spec_key_ge(a: (Entry, Option<UserEntry>), b: (Entry, Option<UserEntry>)) -> bool {
        ||| a.0.check_id > b.0.check_id
        ||| (a.0.check_id == b.0.check_id && a.0.article_date.millis >= b.0.article_date.millis)
    }

    /// Descending listing order over a whole sequence.
    pub open spec fn spec_sorted_desc(s: Seq<(Entry, Option<UserEntry>)>) -> bool {
        forall|x: int, y: int| 0 <= x < y < s.len() ==> Self::spec_key_ge(#[trigger] s[x], #[trigger] s[y])
    }

    /// The rows a listing draws from: entries of feeds the user subscribes
    /// to (restricted to one feed when asked), each joined with its state
    /// row.
    pub open spec fn spec_visible(self, user_id: UserId, feed_filter: Option<FeedId>) -> Seq<
        (Entry, Option<UserEntry>),
    > {
        self.entries@.filter(
            |e: Entry|
                Self::sub_in(self.subscriptions@, user_id, e.feed_id) && (feed_filter matches Some(
                    f,
                ) ==> e.feed_id == f),
        ).map_values(
            |e: Entry| (e, Self::spec_ue_lookup(self.user_entries@, user_id, e.id)),
        )
    }

    fn key_ge(a: &(Entry, Option<UserEntry>), b: &(Entry, Option<UserEntry>)) -> (r: bool)
        ensures
            r == Self::spec_key_ge(*a, *b),
    {
        a.0.check_id > b.0.check_id || (a.0.check_id == b.0.check_id
            && a.0.article_date.millis >= b.0.article_date.millis)
    }

    pub fn clone_pair(p: &(Entry, Option<UserEntry>)) -> (r: (Entry, Option<UserEntry>))
        ensures
            r == *p,
    {
        let settings = match &p.1 {
            Some(ue) => Some(ue.clone()),
            None => None,
        };
        (p.0.clone(), settings)
    }

    /// Sort a listing into descending order; the rows are only rearranged.
    fn sort_desc(v: &mut Vec<(Entry, Option<UserEntry>)>)
        ensures
            final(v)@.len() == old(v)@.len(),
            final(v)@.to_multiset() == old(v)@.to_multiset(),
            Self::spec_sorted_desc(final(v)@),
    {
        let n = v.len();
        if n == 0 {
            return ;
        }
        let mut i: usize = 1;
        while i < n
            invariant
                n == v@.len(),
                1 <= i <= n,
                v@.to_multiset() == old(v)@.to_multiset(),
                Self::spec_sorted_desc(v@.subrange(0, i as int)),
            decreases n - i,
        {
            let mut j: usize = 0;
            while j < i && Self::key_ge(&v[j], &v[i])
                invariant
                    n == v@.len(),
                    i < n,
                    j <= i,
                    forall|k: int|
                        0 <= k < j ==> Self::spec_key_ge(#[trigger] v@[k], v@[i as int]),
                decreases i - j,
            {
                j += 1;
            }
            let ghost before = v@;
            let x = v.remove(i);
            v.insert(j, x);
            proof {
                broadcast use vstd::seq_lib::group_to_multiset_ensures;

                let after = v@;
                assert(after =~= before.subrange(0, j as int) + seq![x] + before.subrange(
                    j as int,
                    i as int,
                ) + before.subrange(i + 1, n as int));
                // The multiset is unchanged: removing then inserting the same
                // row.
                assert(before.remove(i as int).insert(j as int, x).to_multiset()
                    =~= before.to_multiset());
                assert(after =~= before.remove(i as int).insert(j as int, x));
                // Raw-index view of the sorted prefix.
                assert forall|a: int, b: int| 0 <= a < b < i implies Self::spec_key_ge(
                    #[trigger] before[a],
                    #[trigger] before[b],
                ) by {
                    let sp = before.subrange(0, i as int);
                    assert(sp[a] == before[a] && sp[b] == before[b]);
                }
                // The sorted prefix grew by one.
                assert forall|x2: int, y2: int|
                    0 <= x2 < y2 < i + 1 implies Self::spec_key_ge(
                    #[trigger] after[x2],
                    #[trigger] after[y2],
                ) by {
                    let key = |p: int| if p < j { before[p] } else if p == j { x } else { before[p - 1] };
                    assert(after[x2] == key(x2));
                    assert(after[y2] == key(y2));
                    if x2 < j && y2 < j {
                        assert(Self::spec_key_ge(before[x2], before[y2]));
                    } else if x2 < j && y2 == j {
                        assert(Self::spec_key_ge(before[x2], x));
                    } else if x2 < j && y2 > j {
                        assert(Self::spec_key_ge(before[x2], before[y2 - 1]));
                    } else if x2 == j && y2 > j {
                        // x goes before the first row it beats; it beats the
                        // rest of the sorted prefix too.
                        if j < i {
                            assert(!Self::spec_key_ge(before[j as int], x));
                            assert(Self::spec_key_ge(x, before[j as int]));
                            if y2 - 1 > j {
                                assert(Self::spec_key_ge(before[j as int], before[y2 - 1]));
                            }
                            assert(Self::spec_key_ge(x, before[y2 - 1]));
                        }
                    } else {
                        assert(x2 > j);
                        assert(Self::spec_key_ge(before[x2 - 1], before[y2 - 1]));
                    }
                }
            }
            i += 1;
        }
        proof {
            assert(v@.subrange(0, n as int) =~= v@);
        }
    }

    /// One page of the given listing, in order.
    fn page_of(v: &Vec<(Entry, Option<UserEntry>)>, pagination: Pagination) -> (r: Vec<
        (Entry, Option<UserEntry>),
    >)
        ensures
            r@ == Self::spec_page(v@, pagination),
    {
        proof {
            assert((pagination.page_num as u128) * (pagination.page_size as u128) <= u128::MAX)
                by (nonlinear_arith)
                requires
                    pagination.page_num <= u64::MAX,
                    pagination.page_size <= u64::MAX,
            ;
        }
        let start128: u128 = (pagination.page_num as u128) * (pagination.page_size as u128);
        let mut r: Vec<(Entry, Option<UserEntry>)> = Vec::new();
        let mut taken: usize = 0;
        while taken < pagination.page_size && (start128 < (v.len() as u128) - (taken as u128))
            invariant
                start128 == pagination.page_num * pagination.page_size,
                taken <= pagination.page_size,
                taken == 0 || start128 + taken <= v@.len(),
                taken <= v@.len(),
                r@.len() == taken,
                forall|k: int| 0 <= k < taken ==> #[trigger] r@[k] == v@[start128 + k],
            decreases pagination.page_size - taken,
        {
            let idx: usize = (start128 as usize) + taken;
            r.push(Self::clone_pair(&v[idx]));
            taken += 1;
        }
        proof {
            assert(r@ =~= Self::spec_page(v@, pagination));
        }
        r
    }

    /// The rows behind a user's listing: entries of subscribed feeds (of one
    /// feed when asked), joined with their state rows, in descending listing
    /// order, paged. Rows with equal keys may come in any order.
    pub fn get_userentries(
        &self,
        user_id: UserId,
        feed_id: Option<&FeedId>,
        pagination: Pagination,
    ) -> (r: Vec<(Entry, Option<UserEntry>)>)
        requires
            self.wf(),
        ensures
            exists|sorted: Seq<(Entry, Option<UserEntry>)>|
                {
                    &&& sorted.to_multiset() == self.spec_visible(
                        user_id,
                        match feed_id {
                            Some(f) => Some(*f),
                            None => None,
                        },
                    ).to_multiset()
                    &&& Self::spec_sorted_desc(sorted)
                    &&& r@ == #[trigger] Self::spec_page(sorted, pagination)
                },
    {
        let ghost ff: Option<FeedId> = match feed_id {
            Some(f) => Some(*f),
            None => None,
        };
        let ghost pred = |e: Entry|
            Self::sub_in(self.subscriptions@, user_id, e.feed_id) && (ff matches Some(f)
                ==> e.feed_id == f);
        let ghost g = |e: Entry| (e, Self::spec_ue_lookup(self.user_entries@, user_id, e.id));
        let mut joined: Vec<(Entry, Option<UserEntry>)> = Vec::new();
        let mut i: usize = 0;
        proof {
            reveal(Seq::filter);
            assert(self.entries@.subrange(0, 0) =~= Seq::<Entry>::empty());
            assert(joined@ =~= self.entries@.subrange(0, 0).filter(pred).map_values(g));
        }
        while i < self.entries.len()
            invariant
                self.wf(),
                i <= self.entries@.len(),
                joined@ == self.entries@.subrange(0, i as int).filter(pred).map_values(g),
                ff == (match feed_id {
                    Some(f) => Some(*f),
                    None => None,
                }),
                pred == (|e: Entry|
                    Self::sub_in(self.subscriptions@, user_id, e.feed_id) && (ff matches Some(f)
                        ==> e.feed_id == f)),
                g == (|e: Entry| (e, Self::spec_ue_lookup(self.user_entries@, user_id, e.id))),
            decreases self.entries@.len() - i,
        {
            let ghost ei = self.entries@[i as int];
            let e = &self.entries[i];
            let wanted = match feed_id {
                Some(f) => e.feed_id == *f,
                None => true,
            };
            if wanted && self.subscription_exists(user_id, e.feed_id) {
                let settings = self.lookup_user_entry(user_id, e.id);
                joined.push((e.clone(), settings));
                proof {
                    lemma_filter_extend(self.entries@, i as int, pred);
                    assert(pred(ei));
                    assert(self.entries@.subrange(0, i + 1).filter(pred) == self.entries@.subrange(
                        0,
                        i as int,
                    ).filter(pred).push(ei));
                    assert(joined@ =~= self.entries@.subrange(0, i + 1).filter(pred).map_values(g));
                }
            } else {
                proof {
                    lemma_filter_extend(self.entries@, i as int, pred);
                    assert(!pred(ei));
                    assert(joined@ =~= self.entries@.subrange(0, i + 1).filter(pred).map_values(g));
                }
            }
            i += 1;
        }
        proof {
            assert(self.entries@.subrange(0, self.entries@.len() as int) =~= self.entries@);
        }
        let mut sorted = joined;
        Self::sort_desc(&mut sorted);
        let r = Self::page_of(&sorted, pagination);
        proof {
            assert(self.spec_visible(user_id, ff).to_multiset() == sorted@.to_multiset());
            assert(r@ == Self::spec_page(sorted@, pagination));
        }
        r
    }

    /// Entries of all subscribed feeds for the user, joined with their state
    /// rows, newest first, paged.
    pub fn get_entries_for_user(&self, user_id: UserId, pagination: Pagination) -> (r: Vec<
        (Entry, Option<UserEntry>),
    >)
        requires
            self.wf(),
        ensures
            exists|sorted: Seq<(Entry, Option<UserEntry>)>|
                {
                    &&& sorted.to_multiset() == self.spec_visible(user_id, None).to_multiset()
                    &&& Self::spec_sorted_desc(sorted)
                    &&& r@ == #[trigger] Self::spec_page(sorted, pagination)
                },
    {
        self.get_userentries(user_id, None, pagination)
    }

    /// Entries of one subscribed feed for the user, joined with their state
    /// rows, newest first, paged.
    pub fn get_entries_for_user_feed(
        &self,
        user_id: UserId,
        feed_id: &FeedId,
        pagination: Pagination,
    ) -> (r: Vec<(Entry, Option<UserEntry>)>)
        requires
            self.wf(),
        ensures
            exists|sorted: Seq<(Entry, Option<UserEntry>)>|
                {
                    &&& sorted.to_multiset() == self.spec_visible(
                        user_id,
                        Some(*feed_id),
                    ).to_multiset()
                    &&& Self::spec_sorted_desc(sorted)
                    &&& r@ == #[trigger] Self::spec_page(sorted, pagination)
                },
    {
        self.get_userentries(user_id, Some(feed_id), pagination)
    }

    /// For every feed and every pair of its stored checks, the check with
    /// the smaller id was performed no later than the other: check times are
    /// monotone in the causal order of check ids.
    pub proof fn lemma_feed_check_times_monotone(st: Store, i: int, j: int)
        requires
            st.wf(),
            0 <= i < st.checks@.len(),
            0 <= j < st.checks@.len(),
            st.checks@[i].feed_id == st.checks@[j].feed_id,
            st.checks@[i].id < st.checks@[j].id,
        ensures
            st.checks@[i].check_time.millis <= st.checks@[j].check_time.millis,
    {
        assert(st.checks@[i].id == i + 1 && st.checks@[j].id == j + 1);
    }

    /// Every stored entry's `check_id` names a stored feed check of the
    /// entry's own feed.
    pub proof fn lemma_entry_has_check(st: Store, i: int)
        requires
            st.wf(),
            0 <= i < st.entries@.len(),
        ensures
            Self::check_in(st.checks@, st.entries@[i].check_id, st.entries@[i].feed_id),
    {
    }

    /// `(feed_id, internal_id)` is unique across stored entries.
    pub proof fn lemma_internal_ids_unique(st: Store, i: int, j: int)
        requires
            st.wf(),
            0 <= i < st.entries@.len(),
            0 <= j < st.entries@.len(),
            st.entries@[i].feed_id == st.entries@[j].feed_id,
            st.entries@[i].internal_id@ == st.entries@[j].internal_id@,
        ensures
            i == j,
    {
        if i < j {
            assert(!(st.entries@[i].feed_id == st.entries@[j].feed_id
                && st.entries@[i].internal_id@ == st.entries@[j].internal_id@));
        } else if j < i {
            assert(!(st.entries@[j].feed_id == st.entries@[i].feed_id
                && st.entries@[j].internal_id@ == st.entries@[i].internal_id@));
        }
    }

    /// A fresh, empty store.
    pub fn new() -> (r: Store)
        ensures
            r.wf(),
            r.feeds@.len() == 0,
            r.entries@.len() == 0,
            r.checks@.len() == 0,
            r.users@.len() == 0,
            r.sessions@.len() == 0,
            r.subscriptions@.len() == 0,
            r.user_entries@.len() == 0,
    {
        Store {
            feeds: Vec::new(),
            entries: Vec::new(),
            checks: Vec::new(),
            users: Vec::new(),
            sessions: Vec::new(),
            subscriptions: Vec::new(),
            user_entries: Vec::new(),
        }
    }
}

} // verus!
