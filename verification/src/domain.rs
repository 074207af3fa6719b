//! The domain service: the stateless policy layer over the store. It owns
//! the immutable configuration (pepper, feed-check interval bounds, the
//! login-disabled flag), the ordered reader registration list, and the store
//! handle that all mutating operations route through.

use vstd::prelude::*;

use crate::feed::FeedReader;
use crate::model::{EntryId, FeedId, Timestamp, UserId};
use crate::store::Store;

verus! {

/// Why a domain operation failed.
#[derive(Clone, Copy, Debug, PartialEq, Eq, Structural)]
pub enum DomainError {
    /// A row the operation needs does not exist.
    NotFound,
    /// The operation would duplicate a key, or move a feed's checks
    /// backwards in time.
    Conflict,
    /// The initial fetch of a feed yielded anything but a parseable feed.
    FetchFailed,
    /// No reader accepted the fetched body.
    ParseFailed,
    /// A cryptographic call failed.
    CryptoFailed,
    /// The store refused a write for a reason the caller could not rule
    /// out, such as an identifier collision.
    StorageFailed,
    /// The configured interval bounds are not ordered.
    InvalidConfig,
}

/// A feed as handed to the presentation layer.
#[derive(Debug, PartialEq, Eq)]
pub struct Feed {
    pub id: FeedId,
    pub url: String,
    pub title: String,
}

impl Clone for Feed {
    fn clone(&self) -> (r: Self)
        ensures
            r == *self,
    {
        Feed { id: self.id, url: self.url.clone(), title: self.title.clone() }
    }
}

impl Feed {
    /// The presentation form of a stored feed.
    pub fn from_stored(feed: crate::store::Feed) -> (r: Feed)
        ensures
            r == (Feed { id: feed.id, url: feed.url, title: feed.title }),
    {
        Feed { id: feed.id, url: feed.url, title: feed.title }
    }
}

/// An entry as handed to the presentation layer: the stored fields plus the
/// user's read and tombstone state.
#[derive(Debug, PartialEq, Eq)]
pub struct Entry {
    pub id: EntryId,
    pub feed_id: FeedId,
    pub url: Option<String>,
    pub title: String,
    pub article_date: Timestamp,
    pub read: bool,
    pub tombstone: bool,
}

impl Clone for Entry {
    fn clone(&self) -> (r: Self)
        ensures
            r == *self,
    {
        Entry {
            id: self.id,
            feed_id: self.feed_id,
            url: crate::store::clone_opt_string(&self.url),
            title: self.title.clone(),
            article_date: self.article_date,
            read: self.read,
            tombstone: self.tombstone,
        }
    }
}

/// The domain service.
pub struct RussetDomainService {
    pub store: Store,
    pub readers: Vec<FeedReader>,
    pub pepper: Vec<u8>,
    pub min_feed_check_interval: u64,
    pub default_feed_check_interval: u64,
    pub max_feed_check_interval: u64,
    pub disable_logins: bool,
}

impl RussetDomainService {
    /// The service is usable: its store honors the schema invariants and
    /// its interval bounds are ordered.
    pub open spec fn wf(self) -> bool {
        &&& self.store.wf()
        &&& self.min_feed_check_interval <= self.default_feed_check_interval
        &&& self.default_feed_check_interval <= self.max_feed_check_interval
    }

    /// The immutable configuration of both services is the same.
    pub open spec fn same_config(post: RussetDomainService, pre: RussetDomainService) -> bool {
        &&& post.readers@ == pre.readers@
        &&& post.pepper@ == pre.pepper@
        &&& post.min_feed_check_interval == pre.min_feed_check_interval
        &&& post.default_feed_check_interval == pre.default_feed_check_interval
        &&& post.max_feed_check_interval == pre.max_feed_check_interval
        &&& post.disable_logins == pre.disable_logins
    }

    /// Build a service; refused when the interval bounds are not ordered
    /// `min <= default <= max`.
    pub fn new(
        store: Store,
        readers: Vec<FeedReader>,
        pepper: Vec<u8>,
        min_feed_check_interval: u64,
        default_feed_check_interval: u64,
        max_feed_check_interval: u64,
        disable_logins: bool,
    ) -> (r: Result<RussetDomainService, DomainError>)
        requires
            store.wf(),
        ensures
            r is Ok <==> min_feed_check_interval <= default_feed_check_interval
                <= max_feed_check_interval,
            r matches Ok(s) ==> s == (RussetDomainService {
                store,
                readers,
                pepper,
                min_feed_check_interval,
                default_feed_check_interval,
                max_feed_check_interval,
                disable_logins,
            }) && s.wf(),
    {
        if min_feed_check_interval > default_feed_check_interval {
            return Err(DomainError::InvalidConfig);
        }
        if default_feed_check_interval > max_feed_check_interval {
            return Err(DomainError::InvalidConfig);
        }
        Ok(
            RussetDomainService {
                store,
                readers,
                pepper,
                min_feed_check_interval,
                default_feed_check_interval,
                max_feed_check_interval,
                disable_logins,
            },
        )
    }
}

} // verus!
