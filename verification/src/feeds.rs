//! Feed management: the conditional-fetch classification, feed-check
//! construction, entry ingestion, and idempotent feed creation. The HTTP
//! fetch itself happens outside the library; its status, ETag header and
//! body come in as plain values.

use vstd::prelude::*;

use crate::domain::{DomainError, RussetDomainService};
use crate::feed;
use crate::feed::first_accepting;
use crate::model::{EntryId, FeedId, Timestamp, UserId};
use crate::store::{clone_opt_string, Entry, FeedCheck, Store, WriteFeedCheck};

verus! {

/// Previous check information: a prior stored check, or a bare scheduled
/// time (used for the synthetic initial check).
#[derive(Debug, PartialEq, Eq)]
pub enum CheckState {
    Check(FeedCheck),
    NoCheck(Timestamp),
}

impl Clone for CheckState {
    fn clone(&self) -> (r: Self)
        ensures
            r == *self,
    {
        match self {
            CheckState::Check(c) => CheckState::Check(c.clone()),
            CheckState::NoCheck(t) => CheckState::NoCheck(*t),
        }
    }
}

impl CheckState {
    /// The time this check is anchored at: the prior check's scheduled next
    /// check time, or the bare time itself.
    pub open spec fn spec_check_time(self) -> Timestamp {
        match self {
            CheckState::Check(c) => c.next_check_time,
            CheckState::NoCheck(t) => t,
        }
    }

    pub fn check_time(&self) -> (r: Timestamp)
        ensures
            r == self.spec_check_time(),
    {
        match self {
            CheckState::Check(c) => c.next_check_time,
            CheckState::NoCheck(t) => *t,
        }
    }

    /// The ETag carried over from the prior check, if any.
    pub open spec fn spec_etag(self) -> Option<String> {
        match self {
            CheckState::Check(c) => c.etag,
            CheckState::NoCheck(_) => None,
        }
    }

    pub fn etag(&self) -> (r: Option<String>)
        ensures
            r == self.spec_etag(),
    {
        match self {
            CheckState::Check(c) => clone_opt_string(&c.etag),
            CheckState::NoCheck(_) => None,
        }
    }
}

/// What came back from one conditional GET of a feed URL, as plain values:
/// the status code, the first ETag header when it was valid UTF-8, and the
/// body.
#[derive(Debug, PartialEq, Eq)]
pub struct FetchedResponse {
    pub status: u16,
    pub etag: Option<String>,
    pub body: Vec<u8>,
}

/// The classification of a fetch.
#[derive(Debug, PartialEq, Eq)]
pub enum FetchResponse {
    /// A parsed feed, with the response's ETag.
    Feed(feed::Feed, Option<String>),
    /// `304 Not Modified`: our ETag matched, no updates.
    EtagMatch,
    /// A `4xx` status.
    ClientError(u16),
    /// A `5xx` status.
    ServerError(u16),
}

impl RussetDomainService {
    /// Whether a response, classified against this service's readers, would
    /// yield a parsed feed.
    pub open spec fn spec_parseable(self, resp: FetchedResponse) -> bool {
        &&& resp.status != 304
        &&& !(400 <= resp.status <= 599)
        &&& first_accepting(self.readers@, resp.body@) >= 0
    }

    /// Classify an HTTP response: `304` is an ETag match, `4xx` a client
    /// error, `5xx` a server error; anything else is given to the readers in
    /// registration order, and the first successful parse wins, together
    /// with the response's ETag.
    pub fn classify_response(&self, resp: &FetchedResponse, now: Timestamp) -> (r: Result<
        FetchResponse,
        DomainError,
    >)
        ensures
            resp.status == 304 ==> r == Ok::<FetchResponse, DomainError>(FetchResponse::EtagMatch),
            400 <= resp.status <= 499 ==> r == Ok::<FetchResponse, DomainError>(
                FetchResponse::ClientError(resp.status),
            ),
            500 <= resp.status <= 599 ==> r == Ok::<FetchResponse, DomainError>(
                FetchResponse::ServerError(resp.status),
            ),
            !(resp.status == 304 || 400 <= resp.status <= 599) ==> {
                &&& (r is Ok <==> self.spec_parseable(*resp))
                &&& (r matches Ok(c) ==> c matches FetchResponse::Feed(f, etag)
                    && self.readers@[first_accepting(self.readers@, resp.body@)].spec_read_ok(
                    f,
                    resp.body@,
                    now,
                ) && etag == resp.etag)
                &&& (r is Err ==> r == Err::<FetchResponse, DomainError>(DomainError::ParseFailed))
            },
    {
        if resp.status == 304 {
            return Ok(FetchResponse::EtagMatch);
        }
        if 400 <= resp.status && resp.status <= 499 {
            return Ok(FetchResponse::ClientError(resp.status));
        }
        if 500 <= resp.status && resp.status <= 599 {
            return Ok(FetchResponse::ServerError(resp.status));
        }
        match feed::feed_from_bytes(&self.readers, resp.body.as_slice(), now) {
            Ok(f) => Ok(FetchResponse::Feed(f, clone_opt_string(&resp.etag))),
            Err(_) => Err(DomainError::ParseFailed),
        }
    }
}

/// How one stored entry realizes one parsed entry: it belongs to the feed,
/// is tagged with the check, and carries the parsed fields.
pub open spec fn entry_matches(e: Entry, p: feed::Entry, feed_id: FeedId, check_id: u64) -> bool {
    &&& e.feed_id == feed_id
    &&& e.check_id == check_id
    &&& e.internal_id@ == p.internal_id@
    &&& e.article_date == p.article_date
    &&& e.title@ == p.title@
    &&& match (e.url, p.url) {
        (Option::None, Option::None) => true,
        (Option::Some(a), Option::Some(b)) => a@ == b@,
        _ => false,
    }
}

/// The relation between the entry table before and after ingesting a parsed
/// entry list for one feed under one check id: walking the list in order,
/// an entry whose `internal_id` is already present is skipped, and any
/// other is appended with a fresh id, the check id, and the parsed fields.
pub open spec fn ingest_ok(
    pre: Seq<Entry>,
    post: Seq<Entry>,
    feed_id: FeedId,
    check_id: u64,
    parsed: Seq<feed::Entry>,
) -> bool
    decreases parsed.len(),
{
    if parsed.len() == 0 {
        post == pre
    } else {
        let p = parsed.first();
        if Store::internal_id_in(pre, feed_id, p.internal_id@) {
            ingest_ok(pre, post, feed_id, check_id, parsed.drop_first())
        } else {
            exists|e: Entry|
                #[trigger] entry_matches(e, p, feed_id, check_id) && ingest_ok(
                    pre.push(e),
                    post,
                    feed_id,
                    check_id,
                    parsed.drop_first(),
                )
        }
    }
}

/// Extending the parsed list by one entry extends the ingestion relation by
/// one step at its end: the entry is skipped when its internal id is
/// already present, and otherwise the given fresh row is appended.
pub proof fn lemma_ingest_snoc(
    pre: Seq<Entry>,
    mid: Seq<Entry>,
    post: Seq<Entry>,
    feed_id: FeedId,
    check_id: u64,
    parsed: Seq<feed::Entry>,
    p: feed::Entry,
    fresh: Option<Entry>,
)
    requires
        ingest_ok(pre, mid, feed_id, check_id, parsed),
        match fresh {
            Option::None => Store::internal_id_in(mid, feed_id, p.internal_id@) && post == mid,
            Option::Some(e) => !Store::internal_id_in(mid, feed_id, p.internal_id@)
                && entry_matches(e, p, feed_id, check_id) && post == mid.push(e),
        },
    ensures
        ingest_ok(pre, post, feed_id, check_id, parsed.push(p)),
    decreases parsed.len(),
{
    if parsed.len() == 0 {
        assert(parsed.push(p).first() == p);
        assert(parsed.push(p).drop_first() =~= Seq::<feed::Entry>::empty());
        match fresh {
            Option::None => {
                let pp = parsed.push(p);
                assert(mid == pre);
                assert(pp.first() == p);
                assert(Store::internal_id_in(pre, feed_id, p.internal_id@));
                assert(pp.drop_first().len() == 0);
                assert(ingest_ok(pre, post, feed_id, check_id, pp.drop_first()));
                assert(ingest_ok(pre, post, feed_id, check_id, pp));
            },
            Option::Some(e) => {
                let pp = parsed.push(p);
                assert(mid == pre);
                assert(!Store::internal_id_in(pre, feed_id, p.internal_id@));
                assert(pp.first() == p);
                assert(entry_matches(e, pp.first(), feed_id, check_id));
                assert(pp.drop_first().len() == 0);
                assert(ingest_ok(pre.push(e), post, feed_id, check_id, pp.drop_first()));
                assert(ingest_ok(pre, post, feed_id, check_id, pp));
            },
        }
    } else {
        assert(parsed.push(p).first() == parsed.first());
        assert(parsed.push(p).drop_first() =~= parsed.drop_first().push(p));
        let q = parsed.first();
        if Store::internal_id_in(pre, feed_id, q.internal_id@) {
            lemma_ingest_snoc(pre, mid, post, feed_id, check_id, parsed.drop_first(), p, fresh);
        } else {
            let e1 = choose|e1: Entry|
                #[trigger] entry_matches(e1, q, feed_id, check_id) && ingest_ok(
                    pre.push(e1),
                    mid,
                    feed_id,
                    check_id,
                    parsed.drop_first(),
                );
            lemma_ingest_snoc(
                pre.push(e1),
                mid,
                post,
                feed_id,
                check_id,
                parsed.drop_first(),
                p,
                fresh,
            );
            assert(ingest_ok(pre, post, feed_id, check_id, parsed.push(p)));
        }
    }
}

impl RussetDomainService {
    /// Ingest the entries of a parsed feed under the given check id: each
    /// parsed entry whose `internal_id` is not yet stored for the feed is
    /// appended, in order, with a fresh id. Already-known entries are never
    /// touched. A failure leaves the entries ingested so far in place.
    pub fn update_with_entries(
        &mut self,
        feed_id: &FeedId,
        reader_feed: &feed::Feed,
        check_id: u64,
    ) -> (r: Result<(), DomainError>)
        requires
            old(self).wf(),
            Store::check_in(old(self).store.checks@, check_id, *feed_id),
        ensures
            final(self).wf(),
            RussetDomainService::same_config(*final(self), *old(self)),
            Store::eq_but_entries(final(self).store, old(self).store),
            r is Ok ==> ingest_ok(
                old(self).store.entries@,
                final(self).store.entries@,
                *feed_id,
                check_id,
                reader_feed.entries@,
            ),
            r is Ok ==> final(self).store.entries@.len() >= old(self).store.entries@.len(),
            // Success is owed when no fresh identifier has to be drawn:
            // with every parsed internal id already stored (notably a
            // re-poll of an unchanged payload, or an empty list), the walk
            // deterministically skips everything.
            ((forall|j: int|
                0 <= j < reader_feed.entries@.len() ==> Store::internal_id_in(
                    old(self).store.entries@,
                    *feed_id,
                    (#[trigger] reader_feed.entries@[j]).internal_id@,
                )) ==> (r is Ok)),
            // A failure leaves exactly the entries ingested so far in
            // place: some prefix of the parsed list has been walked.
            (r is Err ==> exists|k: int|
                {
                    &&& 0 <= k <= reader_feed.entries@.len()
                    &&& ingest_ok(
                        old(self).store.entries@,
                        final(self).store.entries@,
                        *feed_id,
                        check_id,
                        reader_feed.entries@.subrange(0, k),
                    )
                }),
    {
        let n = reader_feed.entries.len();
        let mut i: usize = 0;
        proof {
            assert(reader_feed.entries@.subrange(0, 0) =~= Seq::<feed::Entry>::empty());
        }
        while i < n
            invariant
                old(self).wf(),
                self.wf(),
                n == reader_feed.entries@.len(),
                i <= n,
                RussetDomainService::same_config(*self, *old(self)),
                Store::eq_but_entries(self.store, old(self).store),
                Store::check_in(self.store.checks@, check_id, *feed_id),
                self.store.entries@.len() >= old(self).store.entries@.len(),
                ingest_ok(
                    old(self).store.entries@,
                    self.store.entries@,
                    *feed_id,
                    check_id,
                    reader_feed.entries@.subrange(0, i as int),
                ),
                (forall|j: int|
                    0 <= j < n ==> Store::internal_id_in(
                        old(self).store.entries@,
                        *feed_id,
                        (#[trigger] reader_feed.entries@[j]).internal_id@,
                    )) ==> self.store.entries@ == old(self).store.entries@,
            decreases n - i,
        {
            let ghost mid = self.store.entries@;
            let ghost p = reader_feed.entries@[i as int];
            let pe = &reader_feed.entries[i];
            let known = self.store.internal_id_known(*feed_id, pe.internal_id.as_str());
            let ghost fresh: Option<Entry> = Option::None;
            if !known {
                let entry = Entry {
                    id: EntryId(crate::model::fresh_ulid()),
                    feed_id: *feed_id,
                    internal_id: pe.internal_id.clone(),
                    check_id,
                    article_date: pe.article_date,
                    title: pe.title.clone(),
                    url: clone_opt_string(&pe.url),
                };
                proof {
                    fresh = Option::Some(entry);
                }
                let ghost e = entry;
                match self.store.add_entry(entry) {
                    Ok(()) => {
                        proof {
                            assert(self.store.entries@ == mid.push(e));
                            assert(entry_matches(e, p, *feed_id, check_id));
                        }
                    },
                    Err(_) => {
                        proof {
                            // Every-id-known would have made this entry a
                            // skip; and the table still holds exactly the
                            // walked prefix.
                            if forall|j: int|
                                0 <= j < n ==> Store::internal_id_in(
                                    old(self).store.entries@,
                                    *feed_id,
                                    (#[trigger] reader_feed.entries@[j]).internal_id@,
                                ) {
                                assert(self.store.entries@ == old(self).store.entries@);
                                assert(Store::internal_id_in(
                                    self.store.entries@,
                                    *feed_id,
                                    p.internal_id@,
                                ));
                                assert(false);
                            }
                            assert(self.store.entries@ == mid);
                            assert(ingest_ok(
                                old(self).store.entries@,
                                self.store.entries@,
                                *feed_id,
                                check_id,
                                reader_feed.entries@.subrange(0, i as int),
                            ));
                        }
                        return Err(DomainError::StorageFailed);
                    },
                }
            }
            proof {
                assert(reader_feed.entries@.subrange(0, i + 1) =~= reader_feed.entries@.subrange(
                    0,
                    i as int,
                ).push(p));
                lemma_ingest_snoc(
                    old(self).store.entries@,
                    mid,
                    self.store.entries@,
                    *feed_id,
                    check_id,
                    reader_feed.entries@.subrange(0, i as int),
                    p,
                    fresh,
                );
            }
            i += 1;
        }
        proof {
            assert(reader_feed.entries@.subrange(0, n as int) =~= reader_feed.entries@);
        }
        Ok(())
    }

    /// Build and persist the feed check for a classified fetch, then ingest
    /// the parsed entries when there are any. The next check time steps
    /// forward from the time this check was anchored at: by the default
    /// interval for a fresh feed, an ETag match or a server error, and by
    /// the maximum interval for a client error. The stored ETag is the
    /// response's for a fresh feed, the prior check's for an ETag match, and
    /// absent otherwise.
    pub fn build_check_and_update(
        &mut self,
        check_state: &CheckState,
        feed_id: &FeedId,
        fetch_response: &FetchResponse,
    ) -> (r: Result<FeedCheck, DomainError>)
        requires
            old(self).wf(),
        ensures
            final(self).wf(),
            RussetDomainService::same_config(*final(self), *old(self)),
            final(self).store.feeds@ == old(self).store.feeds@,
            final(self).store.users@ == old(self).store.users@,
            final(self).store.sessions@ == old(self).store.sessions@,
            final(self).store.subscriptions@ == old(self).store.subscriptions@,
            final(self).store.user_entries@ == old(self).store.user_entries@,
            r matches Ok(c) ==> {
                &&& c.id == old(self).store.checks@.len() + 1
                &&& c.feed_id == *feed_id
                &&& c.check_time == check_state.spec_check_time()
                &&& c.next_check_time.millis == Timestamp::spec_plus_millis(
                    check_state.spec_check_time(),
                    match fetch_response {
                        FetchResponse::ClientError(_) => old(self).max_feed_check_interval,
                        _ => old(self).default_feed_check_interval,
                    },
                )
                &&& c.etag == match fetch_response {
                    FetchResponse::Feed(_, etag) => *etag,
                    FetchResponse::EtagMatch => check_state.spec_etag(),
                    _ => Option::<String>::None,
                }
                &&& final(self).store.checks@ == old(self).store.checks@.push(c)
                &&& (fetch_response matches FetchResponse::Feed(f, _) ==> ingest_ok(
                    old(self).store.entries@,
                    final(self).store.entries@,
                    *feed_id,
                    c.id,
                    f.entries@,
                ))
                &&& !(fetch_response matches FetchResponse::Feed(f, _)) ==> final(self).store.entries@ == old(self).store.entries@
            },
            // A failure either left everything untouched, or the check row
            // went in and the entry table holds exactly some walked prefix
            // of the parsed entries.
            (r is Err ==> final(self).store.entries@ == old(self).store.entries@ || (match fetch_response {
                FetchResponse::Feed(f, _) => exists|c: FeedCheck, k: int|
                    {
                        &&& final(self).store.checks@ == old(self).store.checks@.push(c)
                        &&& c.id == old(self).store.checks@.len() + 1
                        &&& 0 <= k <= f.entries@.len()
                        &&& ingest_ok(
                            old(self).store.entries@,
                            final(self).store.entries@,
                            *feed_id,
                            c.id,
                            f.entries@.subrange(0, k),
                        )
                    },
                _ => false,
            })),
            !old(self).store.spec_feed_exists(*feed_id) ==> r is Err,
            // Success is owed whenever nothing random is involved: without a
            // parsed feed the only work is the check row, whose insertion
            // depends on the store alone; with one whose every entry is
            // already stored, no fresh identifier is drawn either.
            ((!(fetch_response matches FetchResponse::Feed(f, _))
                && old(self).store.spec_feed_exists(*feed_id)
                && (old(self).store.spec_last_check(*feed_id) matches Some(c)
                    ==> c.check_time.millis <= check_state.spec_check_time().millis)
                && old(self).store.checks@.len() < u64::MAX) ==> (r is Ok)),
            (((match fetch_response {
                FetchResponse::Feed(f, _) => forall|j: int|
                    0 <= j < f.entries@.len() ==> Store::internal_id_in(
                        old(self).store.entries@,
                        *feed_id,
                        (#[trigger] f.entries@[j]).internal_id@,
                    ),
                _ => false,
            }) && old(self).store.spec_feed_exists(*feed_id)
                && (old(self).store.spec_last_check(*feed_id) matches Some(c)
                    ==> c.check_time.millis <= check_state.spec_check_time().millis)
                && old(self).store.checks@.len() < u64::MAX) ==> (r is Ok)),
    {
        let check_time = check_state.check_time();
        let interval: u64 = match fetch_response {
            FetchResponse::ClientError(_) => self.max_feed_check_interval,
            _ => self.default_feed_check_interval,
        };
        let next_check_time = check_time.plus_millis(interval);
        let etag: Option<String> = match fetch_response {
            FetchResponse::Feed(_, etag) => clone_opt_string(etag),
            FetchResponse::EtagMatch => check_state.etag(),
            _ => None,
        };
        let wfc = WriteFeedCheck { feed_id: *feed_id, check_time, next_check_time, etag };
        let check = match self.store.add_feed_check(wfc) {
            Ok(c) => c,
            Err(crate::store::StoreError::NotFound) => {
                return Err(DomainError::NotFound);
            },
            Err(_) => {
                return Err(DomainError::Conflict);
            },
        };
        let result = check.clone();
        proof {
            assert(self.store.checks@[self.store.checks@.len() - 1] == check);
            assert(Store::check_in(self.store.checks@, check.id, *feed_id));
        }
        if let FetchResponse::Feed(reader_feed, _) = fetch_response {
            let ghost pre_entries = self.store.entries@;
            match self.update_with_entries(feed_id, reader_feed, check.id) {
                Ok(()) => {},
                Err(e) => {
                    proof {
                        let k = choose|k: int|
                            0 <= k <= reader_feed.entries@.len() && ingest_ok(
                                pre_entries,
                                self.store.entries@,
                                *feed_id,
                                check.id,
                                reader_feed.entries@.subrange(0, k),
                            );
                        assert(final(self).store.checks@ == old(self).store.checks@.push(check)
                            && check.id == old(self).store.checks@.len() + 1 && 0 <= k
                            <= reader_feed.entries@.len() && ingest_ok(
                            old(self).store.entries@,
                            final(self).store.entries@,
                            *feed_id,
                            check.id,
                            reader_feed.entries@.subrange(0, k),
                        ));
                    }
                    return Err(e);
                },
            }
        }
        Ok(result)
    }

    /// Update the stored entries for the given feed from one fetched
    /// response, recording the check that the update was part of.
    pub fn update_feed(
        &mut self,
        feed_id: &FeedId,
        last_check: &CheckState,
        response: &FetchedResponse,
        now: Timestamp,
    ) -> (r: Result<FeedCheck, DomainError>)
        requires
            old(self).wf(),
        ensures
            final(self).wf(),
            RussetDomainService::same_config(*final(self), *old(self)),
            final(self).store.feeds@ == old(self).store.feeds@,
            final(self).store.users@ == old(self).store.users@,
            final(self).store.sessions@ == old(self).store.sessions@,
            final(self).store.subscriptions@ == old(self).store.subscriptions@,
            final(self).store.user_entries@ == old(self).store.user_entries@,
            !old(self).store.spec_feed_exists(*feed_id) ==> r == Err::<FeedCheck, DomainError>(
                DomainError::NotFound,
            ) && *final(self) == *old(self),
            !(response.status == 304 || 400 <= response.status <= 599)
                && !old(self).spec_parseable(*response) && old(self).store.spec_feed_exists(
                *feed_id,
            ) ==> r == Err::<FeedCheck, DomainError>(DomainError::ParseFailed) && *final(self)
                == *old(self),
            r matches Ok(c) ==> {
                &&& c.id == old(self).store.checks@.len() + 1
                &&& c.feed_id == *feed_id
                &&& c.check_time == last_check.spec_check_time()
                &&& c.next_check_time.millis == Timestamp::spec_plus_millis(
                    last_check.spec_check_time(),
                    if 400 <= response.status <= 499 {
                        old(self).max_feed_check_interval
                    } else {
                        old(self).default_feed_check_interval
                    },
                )
                &&& c.etag == (if response.status == 304 {
                    last_check.spec_etag()
                } else if !(400 <= response.status <= 599) {
                    response.etag
                } else {
                    Option::<String>::None
                })
                &&& final(self).store.checks@ == old(self).store.checks@.push(c)
                &&& (response.status == 304 || 400 <= response.status <= 599 ==> final(self).store.entries@ == old(self).store.entries@)
                &&& (!(response.status == 304 || 400 <= response.status <= 599) ==> exists|
                    f: feed::Feed,
                |
                    {
                        &&& (#[trigger] f.entries@.len()) >= 0
                        &&& old(self).readers@[first_accepting(
                            old(self).readers@,
                            response.body@,
                        )].spec_read_ok(f, response.body@, now)
                        &&& ingest_ok(
                            old(self).store.entries@,
                            final(self).store.entries@,
                            *feed_id,
                            c.id,
                            f.entries@,
                        )
                    })
            },
            // A `304` or an error status is recorded without fail when the
            // feed is stored, the check state does not move its check times
            // backwards, and the check table is not exhausted.
            (((response.status == 304 || 400 <= response.status <= 599)
                && old(self).store.spec_feed_exists(*feed_id)
                && (old(self).store.spec_last_check(*feed_id) matches Some(c)
                    ==> c.check_time.millis <= last_check.spec_check_time().millis)
                && old(self).store.checks@.len() < u64::MAX) ==> (r is Ok)),
            // So is a parsed feed whose every entry is already stored (the
            // re-poll of an unchanged payload): no fresh identifier is
            // drawn.
            ((!(response.status == 304 || 400 <= response.status <= 599)
                && old(self).spec_parseable(*response)
                && (forall|pf: feed::Feed|
                    old(self).readers@[first_accepting(
                        old(self).readers@,
                        response.body@,
                    )].spec_read_ok(pf, response.body@, now) ==> (forall|j: int|
                        0 <= j < pf.entries@.len() ==> Store::internal_id_in(
                            old(self).store.entries@,
                            *feed_id,
                            (#[trigger] pf.entries@[j]).internal_id@,
                        )))
                && old(self).store.spec_feed_exists(*feed_id)
                && (old(self).store.spec_last_check(*feed_id) matches Some(c)
                    ==> c.check_time.millis <= last_check.spec_check_time().millis)
                && old(self).store.checks@.len() < u64::MAX) ==> (r is Ok)),
            // A failure either left everything untouched, or the check row
            // went in and the entry table holds exactly some walked prefix
            // of the parsed entries.
            (r is Err ==> final(self).store.entries@ == old(self).store.entries@ || (exists|
                pf: feed::Feed,
                c: FeedCheck,
                k: int,
            |
                {
                    &&& old(self).readers@[first_accepting(
                        old(self).readers@,
                        response.body@,
                    )].spec_read_ok(pf, response.body@, now)
                    &&& final(self).store.checks@ == old(self).store.checks@.push(c)
                    &&& c.id == old(self).store.checks@.len() + 1
                    &&& 0 <= k <= pf.entries@.len()
                    &&& ingest_ok(
                        old(self).store.entries@,
                        final(self).store.entries@,
                        *feed_id,
                        c.id,
                        pf.entries@.subrange(0, k),
                    )
                })),
    {
        if !self.store.feed_exists(*feed_id) {
            return Err(DomainError::NotFound);
        }
        let fetch_response = match self.classify_response(response, now) {
            Ok(c) => c,
            Err(e) => {
                return Err(e);
            },
        };
        let ghost pre = *self;
        let r = self.build_check_and_update(last_check, feed_id, &fetch_response);
        match r {
            Ok(c) => {
                proof {
                    if !(response.status == 304 || 400 <= response.status <= 599) {
                        assert(fetch_response matches FetchResponse::Feed(f, _)
                            && pre.readers@[first_accepting(
                            pre.readers@,
                            response.body@,
                        )].spec_read_ok(f, response.body@, now));
                    }
                }
                Ok(c)
            },
            Err(e) => {
                proof {
                    if self.store.entries@ != old(self).store.entries@ {
                        // Only the parsed-feed path touches entries; carry
                        // its prefix witness up.
                        let f = fetch_response->Feed_0;
                        let ck = choose|ck: FeedCheck, k: int|
                            {
                                &&& self.store.checks@ == old(self).store.checks@.push(ck)
                                &&& ck.id == old(self).store.checks@.len() + 1
                                &&& 0 <= k <= f.entries@.len()
                                &&& ingest_ok(
                                    old(self).store.entries@,
                                    self.store.entries@,
                                    *feed_id,
                                    ck.id,
                                    f.entries@.subrange(0, k),
                                )
                            };
                        assert(pre.readers@[first_accepting(
                            pre.readers@,
                            response.body@,
                        )].spec_read_ok(f, response.body@, now));
                    }
                }
                Err(e)
            },
        }
    }
}


impl RussetDomainService {
    /// Given a URL, ensure the feed is stored: if a feed with that URL is
    /// already stored its id is returned and nothing changes; otherwise the
    /// URL must name an absolute HTTP(S) resource and the fetched response
    /// must parse as a feed, which is inserted with a fresh id, an initial
    /// check anchored at `now`, and its entries. Anything else fails the
    /// creation without persisting.
    pub fn add_feed(&mut self, url: &str, response: &FetchedResponse, now: Timestamp) -> (r:
        Result<FeedId, DomainError>)
        requires
            old(self).wf(),
        ensures
            final(self).wf(),
            RussetDomainService::same_config(*final(self), *old(self)),
            final(self).store.users@ == old(self).store.users@,
            final(self).store.sessions@ == old(self).store.sessions@,
            final(self).store.subscriptions@ == old(self).store.subscriptions@,
            final(self).store.user_entries@ == old(self).store.user_entries@,
            Store::feed_url_in(old(self).store.feeds@, url@) ==> *final(self) == *old(self) && (
            r matches Ok(id) && exists|k: int|
                {
                    &&& 0 <= k < old(self).store.feeds@.len()
                    &&& (#[trigger] old(self).store.feeds@[k]).url@ == url@
                    &&& old(self).store.feeds@[k].id == id
                }),
            !Store::feed_url_in(old(self).store.feeds@, url@) && !old(self).spec_parseable(
                *response,
            ) ==> r == Err::<FeedId, DomainError>(DomainError::FetchFailed) && *final(self) == *old(
                self,
            ),
            // Only an absolute HTTP(S) URL may create a feed.
            (!Store::feed_url_in(old(self).store.feeds@, url@) && !feed::spec_is_http_url(url@)
                ==> r == Err::<FeedId, DomainError>(DomainError::FetchFailed) && *final(self)
                == *old(self)),
            ((!Store::feed_url_in(old(self).store.feeds@, url@) && (r is Ok))
                ==> feed::spec_is_http_url(url@)),
            !Store::feed_url_in(old(self).store.feeds@, url@) ==> (r matches Ok(id) ==> {
                &&& exists|f: crate::store::Feed|
                    {
                        &&& (#[trigger] f.id) == id
                        &&& f.url@ == url@
                        &&& final(self).store.feeds@ == old(self).store.feeds@.push(f)
                        &&& exists|pf: feed::Feed|
                            {
                                &&& old(self).readers@[first_accepting(
                                    old(self).readers@,
                                    response.body@,
                                )].spec_read_ok(pf, response.body@, now)
                                &&& f.title@ == (#[trigger] pf.title)@
                                &&& ingest_ok(
                                    old(self).store.entries@,
                                    final(self).store.entries@,
                                    id,
                                    (old(self).store.checks@.len() + 1) as u64,
                                    pf.entries@,
                                )
                            }
                    }
                &&& final(self).store.checks@.len() == old(self).store.checks@.len() + 1
                &&& final(self).store.checks@[old(self).store.checks@.len() as int] == (FeedCheck {
                    id: (old(self).store.checks@.len() + 1) as u64,
                    feed_id: id,
                    check_time: now,
                    next_check_time: Timestamp {
                        millis: Timestamp::spec_plus_millis(
                            now,
                            old(self).default_feed_check_interval,
                        ) as i64,
                    },
                    etag: response.etag,
                })
            }),
    {
        match self.store.get_feed_by_url(url) {
            Some(f) => {
                proof {
                    let feeds = self.store.feeds@;
                    let k = choose|k: int| 0 <= k < feeds.len() && feeds[k] == f;
                    assert(feeds[k].url@ == url@ && feeds[k].id == f.id);
                }
                Ok(f.id)
            },
            None => {
                if !feed::is_http_url(url) {
                    return Err(DomainError::FetchFailed);
                }
                let classified = match self.classify_response(response, now) {
                    Ok(c) => c,
                    Err(_) => {
                        return Err(DomainError::FetchFailed);
                    },
                };
                match classified {
                    FetchResponse::Feed(reader_feed, etag) => {
                        let id = FeedId(crate::model::fresh_ulid());
                        let stored = crate::store::Feed {
                            id,
                            title: reader_feed.title.clone(),
                            url: url.to_owned(),
                        };
                        let ghost f = stored;
                        let ghost pf = reader_feed;
                        match self.store.add_feed(stored) {
                            Ok(()) => {},
                            Err(_) => {
                                return Err(DomainError::StorageFailed);
                            },
                        }
                        let check_state = CheckState::NoCheck(now);
                        match self.build_check_and_update(
                            &check_state,
                            &id,
                            &FetchResponse::Feed(reader_feed, etag),
                        ) {
                            Ok(_) => {
                                proof {
                                    assert(f.id == id && f.url@ == url@ && f.title@ == pf.title@);
                                }
                                Ok(id)
                            },
                            Err(e) => Err(e),
                        }
                    },
                    _ => Err(DomainError::FetchFailed),
                }
            },
        }
    }

    /// All stored feeds, in presentation form.
    pub fn get_feeds(&self) -> (r: Vec<crate::domain::Feed>)
        ensures
            r@ == self.store.feeds@.map_values(
                |f: crate::store::Feed|
                    crate::domain::Feed { id: f.id, url: f.url, title: f.title },
            ),
    {
        let stored = self.store.get_feeds();
        Self::to_domain_feeds(stored, Ghost(self.store.feeds@))
    }

    /// All feeds the given user is subscribed to, in presentation form.
    pub fn feeds_for_user(&self, user_id: &UserId) -> (r: Vec<crate::domain::Feed>)
        ensures
            r@ == self.store.feeds@.filter(
                |f: crate::store::Feed| Store::sub_in(self.store.subscriptions@, *user_id, f.id),
            ).map_values(
                |f: crate::store::Feed|
                    crate::domain::Feed { id: f.id, url: f.url, title: f.title },
            ),
    {
        let stored = self.store.get_subscribed_feeds(*user_id);
        Self::to_domain_feeds(
            stored,
            Ghost(
                self.store.feeds@.filter(
                    |f: crate::store::Feed| Store::sub_in(
                        self.store.subscriptions@,
                        *user_id,
                        f.id,
                    ),
                ),
            ),
        )
    }

    /// Presentation form of a list of stored feeds.
    fn to_domain_feeds(stored: Vec<crate::store::Feed>, expect: Ghost<Seq<crate::store::Feed>>) -> (r:
        Vec<crate::domain::Feed>)
        requires
            stored@ == expect@,
        ensures
            r@ == expect@.map_values(
                |f: crate::store::Feed|
                    crate::domain::Feed { id: f.id, url: f.url, title: f.title },
            ),
    {
        let ghost g = |f: crate::store::Feed|
            crate::domain::Feed { id: f.id, url: f.url, title: f.title };
        let mut r: Vec<crate::domain::Feed> = Vec::new();
        let mut i: usize = 0;
        while i < stored.len()
            invariant
                stored@ == expect@,
                i <= stored@.len(),
                r@ =~= stored@.subrange(0, i as int).map_values(g),
                g == (|f: crate::store::Feed|
                    crate::domain::Feed { id: f.id, url: f.url, title: f.title }),
            decreases stored@.len() - i,
        {
            let f = stored[i].clone();
            r.push(crate::domain::Feed { id: f.id, url: f.url, title: f.title });
            proof {
                assert(r@ =~= stored@.subrange(0, i + 1).map_values(g));
            }
            i += 1;
        }
        proof {
            assert(stored@.subrange(0, stored@.len() as int) =~= stored@);
        }
        r
    }

    /// One stored feed, in presentation form.
    pub fn get_feed(&self, feed_id: &FeedId) -> (r: Result<crate::domain::Feed, DomainError>)
        ensures
            r matches Ok(f) ==> f.id == *feed_id && exists|k: int|
                0 <= k < self.store.feeds@.len() && (#[trigger] self.store.feeds@[k]).id
                    == *feed_id && self.store.feeds@[k].url@ == f.url@
                    && self.store.feeds@[k].title@ == f.title@,
            r is Err <==> !Store::feed_in(self.store.feeds@, *feed_id),
    {
        match self.store.get_feed(*feed_id) {
            Ok(f) => {
                proof {
                    let feeds = self.store.feeds@;
                    let k = choose|k: int| 0 <= k < feeds.len() && feeds[k] == f;
                    assert(feeds[k].id == *feed_id);
                }
                Ok(crate::domain::Feed::from_stored(f))
            },
            Err(_) => Err(DomainError::NotFound),
        }
    }

    /// The latest stored check for the given feed, if any.
    pub fn get_last_feed_check(&self, feed_id: &FeedId) -> (r: Option<FeedCheck>)
        ensures
            r == self.store.spec_last_check(*feed_id),
    {
        self.store.get_last_feed_check(*feed_id)
    }
}

/// After an ingestion, the prior entry table is an unchanged prefix of the
/// new one, and every parsed entry's internal id is stored for the feed.
pub proof fn lemma_ingest_covers(
    pre: Seq<Entry>,
    post: Seq<Entry>,
    feed_id: FeedId,
    check_id: u64,
    parsed: Seq<feed::Entry>,
)
    requires
        ingest_ok(pre, post, feed_id, check_id, parsed),
    ensures
        pre.len() <= post.len(),
        forall|k: int| 0 <= k < pre.len() ==> post[k] == pre[k],
        forall|i: int|
            0 <= i < parsed.len() ==> Store::internal_id_in(
                post,
                feed_id,
                (#[trigger] parsed[i]).internal_id@,
            ),
    decreases parsed.len(),
{
    if parsed.len() == 0 {
    } else {
        let q = parsed.first();
        if Store::internal_id_in(pre, feed_id, q.internal_id@) {
            lemma_ingest_covers(pre, post, feed_id, check_id, parsed.drop_first());
            assert forall|i: int| 0 <= i < parsed.len() implies Store::internal_id_in(
                post,
                feed_id,
                (#[trigger] parsed[i]).internal_id@,
            ) by {
                if i == 0 {
                    let w = choose|w: int|
                        0 <= w < pre.len() && (#[trigger] pre[w]).feed_id == feed_id
                            && pre[w].internal_id@ == q.internal_id@;
                    assert(post[w] == pre[w]);
                } else {
                    assert(parsed.drop_first()[i - 1] == parsed[i]);
                }
            }
        } else {
            let e = choose|e: Entry|
                #[trigger] entry_matches(e, q, feed_id, check_id) && ingest_ok(
                    pre.push(e),
                    post,
                    feed_id,
                    check_id,
                    parsed.drop_first(),
                );
            lemma_ingest_covers(pre.push(e), post, feed_id, check_id, parsed.drop_first());
            assert forall|k: int| 0 <= k < pre.len() implies post[k] == pre[k] by {
                assert(pre.push(e)[k] == pre[k]);
            }
            assert forall|i: int| 0 <= i < parsed.len() implies Store::internal_id_in(
                post,
                feed_id,
                (#[trigger] parsed[i]).internal_id@,
            ) by {
                if i == 0 {
                    assert(pre.push(e)[pre.len() as int] == e);
                    assert(post[pre.len() as int] == e);
                } else {
                    assert(parsed.drop_first()[i - 1] == parsed[i]);
                }
            }
        }
    }
}

/// Ingesting a list whose every internal id is already stored inserts
/// nothing.
pub proof fn lemma_ingest_no_new(
    pre: Seq<Entry>,
    post: Seq<Entry>,
    feed_id: FeedId,
    check_id: u64,
    parsed: Seq<feed::Entry>,
)
    requires
        ingest_ok(pre, post, feed_id, check_id, parsed),
        forall|i: int|
            0 <= i < parsed.len() ==> Store::internal_id_in(
                pre,
                feed_id,
                (#[trigger] parsed[i]).internal_id@,
            ),
    ensures
        post == pre,
    decreases parsed.len(),
{
    if parsed.len() > 0 {
        let q = parsed.first();
        assert(q == parsed[0]);
        assert(Store::internal_id_in(pre, feed_id, q.internal_id@));
        assert(forall|i: int|
            0 <= i < parsed.drop_first().len() ==> Store::internal_id_in(
                pre,
                feed_id,
                (#[trigger] parsed.drop_first()[i]).internal_id@,
            )) by {
            assert forall|i: int| 0 <= i < parsed.drop_first().len() implies Store::internal_id_in(
                pre,
                feed_id,
                (#[trigger] parsed.drop_first()[i]).internal_id@,
            ) by {
                assert(parsed.drop_first()[i] == parsed[i + 1]);
            }
        }
        lemma_ingest_no_new(pre, post, feed_id, check_id, parsed.drop_first());
    }
}

/// Ingestion is idempotent in `internal_id`: re-running an ingestion of the
/// same parsed payload against the table it produced inserts zero new
/// entries.
pub proof fn lemma_ingest_idempotent(
    pre: Seq<Entry>,
    mid: Seq<Entry>,
    post: Seq<Entry>,
    feed_id: FeedId,
    check_id1: u64,
    check_id2: u64,
    parsed: Seq<feed::Entry>,
)
    requires
        ingest_ok(pre, mid, feed_id, check_id1, parsed),
        ingest_ok(mid, post, feed_id, check_id2, parsed),
    ensures
        post == mid,
{
    lemma_ingest_covers(pre, mid, feed_id, check_id1, parsed);
    lemma_ingest_no_new(mid, post, feed_id, check_id2, parsed);
}

/// All stored feeds bearing one URL are the same row: the URL is unique.
pub proof fn lemma_feed_url_unique(st: Store, i: int, j: int)
    requires
        st.wf(),
        0 <= i < st.feeds@.len(),
        0 <= j < st.feeds@.len(),
        st.feeds@[i].url@ == st.feeds@[j].url@,
    ensures
        i == j,
{
    if i < j {
        assert(st.feeds@[i].url@ != st.feeds@[j].url@);
    } else if j < i {
        assert(st.feeds@[j].url@ != st.feeds@[i].url@);
    }
}

/// Ensuring a feed by URL twice returns the same id both times and leaves
/// exactly one feed row bearing that URL: with the feed present after the
/// first call, the second call hands back the stored feed's id and changes
/// nothing, and uniqueness of URLs makes that row the only one.
pub proof fn lemma_add_feed_idempotent(mid: Store, id1: FeedId, id2: FeedId, url: Seq<char>)
    requires
        mid.wf(),
        exists|k: int|
            0 <= k < mid.feeds@.len() && (#[trigger] mid.feeds@[k]).url@ == url
                && mid.feeds@[k].id == id1,
        exists|k: int|
            0 <= k < mid.feeds@.len() && (#[trigger] mid.feeds@[k]).url@ == url
                && mid.feeds@[k].id == id2,
    ensures
        id1 == id2,
        mid.feeds@.filter(|f: crate::store::Feed| f.url@ == url).len() == 1,
{
    let k1 = choose|k: int|
        0 <= k < mid.feeds@.len() && (#[trigger] mid.feeds@[k]).url@ == url && mid.feeds@[k].id
            == id1;
    let k2 = choose|k: int|
        0 <= k < mid.feeds@.len() && (#[trigger] mid.feeds@[k]).url@ == url && mid.feeds@[k].id
            == id2;
    lemma_feed_url_unique(mid, k1, k2);
    let pred = |f: crate::store::Feed| f.url@ == url;
    let filtered = mid.feeds@.filter(pred);
    crate::store::lemma_filter_keeps(mid.feeds@, pred, k1);
    assert(filtered.len() >= 1);
    if filtered.len() > 1 {
        crate::store::lemma_filter_preserves_pairwise(
            mid.feeds@,
            pred,
            |a: crate::store::Feed, b: crate::store::Feed| a.url@ != b.url@,
        );
        broadcast use vstd::seq_lib::group_filter_ensures;

        assert(pred(filtered[0]) && pred(filtered[1]));
        assert(false);
    }
}

} // verus!
