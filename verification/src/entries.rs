//! Entry listings and per-user entry actions: paginated listings joined
//! with read/tombstone state, reading one entry (which marks it read), and
//! batch updates of per-user state.

use vstd::prelude::*;

use crate::domain::{DomainError, Entry, RussetDomainService};
use crate::model::{EntryId, FeedId, Pagination, Timestamp, UserId};
use crate::store::{Store, UserEntry};

verus! {

/// The presentation form of one listing row: the stored fields plus the
/// read and tombstone flags, which hold exactly when the state row exists
/// and carries the respective timestamp.
pub open spec fn spec_convert_entry(row: (crate::store::Entry, Option<UserEntry>)) -> Entry {
    Entry {
        id: row.0.id,
        feed_id: row.0.feed_id,
        url: row.0.url,
        title: row.0.title,
        article_date: row.0.article_date,
        read: match row.1 {
            Some(ue) => ue.read is Some,
            None => false,
        },
        tombstone: match row.1 {
            Some(ue) => ue.tombstone is Some,
            None => false,
        },
    }
}

/// The presentation form of one listing row.
pub fn convert_entry(entry: crate::store::Entry, user_entry: Option<UserEntry>) -> (r: Entry)
    ensures
        r == spec_convert_entry((entry, user_entry)),
{
    let read = match &user_entry {
        Some(ue) => ue.read.is_some(),
        None => false,
    };
    let tombstone = match &user_entry {
        Some(ue) => ue.tombstone.is_some(),
        None => false,
    };
    Entry {
        id: entry.id,
        feed_id: entry.feed_id,
        url: entry.url,
        title: entry.title,
        article_date: entry.article_date,
        read,
        tombstone,
    }
}

impl RussetDomainService {
    /// Convert one page of joined rows and drop the tombstoned ones.
    fn convert_page(page: Vec<(crate::store::Entry, Option<UserEntry>)>) -> (r: Vec<Entry>)
        ensures
            r@ == page@.map_values(|row: (crate::store::Entry, Option<UserEntry>)| spec_convert_entry(row)).filter(|e: Entry| !e.tombstone),
    {
        let ghost pred = |e: Entry| !e.tombstone;
        let mut r: Vec<Entry> = Vec::new();
        let mut i: usize = 0;
        let n = page.len();
        proof {
            reveal(Seq::filter);
            assert(page@.subrange(0, 0).map_values(|row: (crate::store::Entry, Option<UserEntry>)| spec_convert_entry(row)) =~= Seq::<
                Entry,
            >::empty());
        }
        let mut rest = page;
        // Walk the page front to back, converting and filtering.
        while i < n
            invariant
                n == rest@.len(),
                i <= n,
                r@ == rest@.subrange(0, i as int).map_values(|row: (crate::store::Entry, Option<UserEntry>)| spec_convert_entry(row)).filter(pred),
                pred == (|e: Entry| !e.tombstone),
            decreases n - i,
        {
            let ghost mapped = rest@.map_values(|row: (crate::store::Entry, Option<UserEntry>)| spec_convert_entry(row));
            let (entry, ue) = Store::clone_pair(&rest[i]);
            let converted = convert_entry(entry, ue);
            let keep = !converted.tombstone;
            if keep {
                r.push(converted);
            }
            proof {
                assert(rest@.subrange(0, i as int).map_values(|row: (crate::store::Entry, Option<UserEntry>)| spec_convert_entry(row))
                    =~= mapped.subrange(0, i as int));
                assert(rest@.subrange(0, i + 1).map_values(|row: (crate::store::Entry, Option<UserEntry>)| spec_convert_entry(row)) =~= mapped.subrange(
                    0,
                    i + 1,
                ));
                crate::store::lemma_filter_extend(mapped, i as int, pred);
                assert(mapped[i as int] == converted);
            }
            i += 1;
        }
        proof {
            assert(rest@.subrange(0, n as int) =~= rest@);
        }
        r
    }

    /// The paginated, newest-first listing of non-tombstoned entries of all
    /// feeds the user subscribes to, each with its read state.
    pub fn get_subscribed_entries(&self, user_id: &UserId, pagination: &Pagination) -> (r: Vec<
        Entry,
    >)
        requires
            self.wf(),
        ensures
            exists|sorted: Seq<(crate::store::Entry, Option<UserEntry>)>|
                {
                    &&& sorted.to_multiset() == self.store.spec_visible(
                        *user_id,
                        None,
                    ).to_multiset()
                    &&& Store::spec_sorted_desc(sorted)
                    &&& r@ == (#[trigger] Store::spec_page(sorted, *pagination)).map_values(
                        |row: (crate::store::Entry, Option<UserEntry>)| spec_convert_entry(row),
                    ).filter(|e: Entry| !e.tombstone)
                },
    {
        let page = self.store.get_entries_for_user(*user_id, *pagination);
        Self::convert_page(page)
    }

    /// The paginated, newest-first listing of non-tombstoned entries of one
    /// feed, each with the user's read state.
    pub fn get_feed_entries(
        &self,
        user_id: &UserId,
        feed_id: &FeedId,
        pagination: &Pagination,
    ) -> (r: Vec<Entry>)
        requires
            self.wf(),
        ensures
            exists|sorted: Seq<(crate::store::Entry, Option<UserEntry>)>|
                {
                    &&& sorted.to_multiset() == self.store.spec_visible(
                        *user_id,
                        Some(*feed_id),
                    ).to_multiset()
                    &&& Store::spec_sorted_desc(sorted)
                    &&& r@ == (#[trigger] Store::spec_page(sorted, *pagination)).map_values(
                        |row: (crate::store::Entry, Option<UserEntry>)| spec_convert_entry(row),
                    ).filter(|e: Entry| !e.tombstone)
                },
    {
        let page = self.store.get_entries_for_user_feed(*user_id, feed_id, *pagination);
        Self::convert_page(page)
    }

    /// Atomically read one entry and mark it read for the user at `now`;
    /// the entry comes back with its freshly-computed state.
    pub fn get_entry(&mut self, entry_id: &EntryId, user_id: &UserId, now: Timestamp) -> (r:
        Result<Entry, DomainError>)
        requires
            old(self).wf(),
        ensures
            final(self).wf(),
            RussetDomainService::same_config(*final(self), *old(self)),
            Store::eq_but_user_entries(final(self).store, old(self).store),
            r is Ok <==> Store::entry_in(old(self).store.entries@, *entry_id) && Store::user_in(
                old(self).store.users@,
                *user_id,
            ),
            r matches Ok(e) ==> {
                &&& e.id == *entry_id
                &&& e.read
                &&& !e.tombstone
                &&& exists|k: int|
                    {
                        &&& 0 <= k < old(self).store.entries@.len()
                        &&& (#[trigger] old(self).store.entries@[k]).id == *entry_id
                        &&& old(self).store.entries@[k].url == e.url
                        &&& old(self).store.entries@[k].title@ == e.title@
                        &&& old(self).store.entries@[k].feed_id == e.feed_id
                    }
                &&& Store::spec_ue_lookup(final(self).store.user_entries@, *user_id, *entry_id)
                    == Some(UserEntry { read: Some(now), tombstone: None })
            },
            r is Err ==> final(self).store.user_entries@ == old(self).store.user_entries@,
            forall|u2: UserId, e2: EntryId|
                !(u2 == *user_id && e2 == *entry_id) ==> #[trigger] Store::spec_ue_lookup(
                    final(self).store.user_entries@,
                    u2,
                    e2,
                ) == Store::spec_ue_lookup(old(self).store.user_entries@, u2, e2),
    {
        let user_entry = UserEntry { read: Some(now), tombstone: None };
        match self.store.get_entry_and_set_userentry(*entry_id, *user_id, &user_entry) {
            Ok(entry) => {
                proof {
                    let entries = old(self).store.entries@;
                    let k = choose|k: int| 0 <= k < entries.len() && entries[k] == entry;
                    assert(entries[k].id == *entry_id);
                }
                Ok(convert_entry(entry, Some(user_entry)))
            },
            Err(_) => Err(DomainError::NotFound),
        }
    }

    /// Upsert the `(user, entry)` state row for each listed entry with the
    /// given payload. Each upsert is individually atomic; the batch stops at
    /// the first failure, leaving the earlier upserts in place.
    pub fn set_userentries(
        &mut self,
        entry_ids: &Vec<EntryId>,
        user_id: &UserId,
        user_entry: &UserEntry,
    ) -> (r: Result<(), DomainError>)
        requires
            old(self).wf(),
        ensures
            final(self).wf(),
            RussetDomainService::same_config(*final(self), *old(self)),
            Store::eq_but_user_entries(final(self).store, old(self).store),
            r is Ok <==> (forall|k: int|
                0 <= k < entry_ids@.len() ==> Store::entry_in(
                    old(self).store.entries@,
                    #[trigger] entry_ids@[k],
                )) && (entry_ids@.len() > 0 ==> Store::user_in(old(self).store.users@, *user_id)),
            r is Ok ==> forall|k: int|
                0 <= k < entry_ids@.len() ==> #[trigger] Store::spec_ue_lookup(
                    final(self).store.user_entries@,
                    *user_id,
                    entry_ids@[k],
                ) == Some(*user_entry),
            forall|u2: UserId, e2: EntryId|
                (u2 != *user_id || !entry_ids@.contains(e2)) ==> #[trigger] Store::spec_ue_lookup(
                    final(self).store.user_entries@,
                    u2,
                    e2,
                ) == Store::spec_ue_lookup(old(self).store.user_entries@, u2, e2),
            // On the first failure the batch stops: the rows before the
            // failing id hold the payload, and every pair outside that
            // walked prefix is untouched.
            (r is Err ==> exists|k: int|
                {
                    &&& 0 <= k < entry_ids@.len()
                    &&& !(Store::entry_in(old(self).store.entries@, #[trigger] entry_ids@[k])
                        && Store::user_in(old(self).store.users@, *user_id))
                    &&& (forall|j: int|
                        0 <= j < k ==> #[trigger] Store::spec_ue_lookup(
                            final(self).store.user_entries@,
                            *user_id,
                            entry_ids@[j],
                        ) == Some(*user_entry))
                    &&& (forall|u2: UserId, e2: EntryId|
                        (u2 != *user_id || !entry_ids@.subrange(0, k).contains(e2))
                            ==> #[trigger] Store::spec_ue_lookup(
                            final(self).store.user_entries@,
                            u2,
                            e2,
                        ) == Store::spec_ue_lookup(old(self).store.user_entries@, u2, e2))
                }),
    {
        let n = entry_ids.len();
        let mut i: usize = 0;
        while i < n
            invariant
                old(self).wf(),
                self.wf(),
                n == entry_ids@.len(),
                i <= n,
                RussetDomainService::same_config(*self, *old(self)),
                Store::eq_but_user_entries(self.store, old(self).store),
                forall|k: int|
                    0 <= k < i ==> Store::entry_in(
                        old(self).store.entries@,
                        #[trigger] entry_ids@[k],
                    ),
                i > 0 ==> Store::user_in(old(self).store.users@, *user_id),
                forall|k: int|
                    0 <= k < i ==> #[trigger] Store::spec_ue_lookup(
                        self.store.user_entries@,
                        *user_id,
                        entry_ids@[k],
                    ) == Some(*user_entry),
                forall|u2: UserId, e2: EntryId|
                    (u2 != *user_id || !entry_ids@.subrange(0, i as int).contains(e2))
                        ==> #[trigger] Store::spec_ue_lookup(
                        self.store.user_entries@,
                        u2,
                        e2,
                    ) == Store::spec_ue_lookup(old(self).store.user_entries@, u2, e2),
            decreases n - i,
        {
            let ghost prefix = entry_ids@.subrange(0, i as int);
            let ghost before_rows = self.store.user_entries@;
            let entry_id = entry_ids[i];
            match self.store.get_entry_and_set_userentry(entry_id, *user_id, user_entry) {
                Ok(_) => {},
                Err(_) => {
                    proof {
                        assert(!(Store::entry_in(old(self).store.entries@, entry_ids@[i as int])
                            && Store::user_in(old(self).store.users@, *user_id)));
                    }
                    return Err(DomainError::NotFound);
                },
            }
            proof {
                let ext = entry_ids@.subrange(0, i + 1);
                assert(ext =~= prefix.push(entry_ids@[i as int]));
                assert forall|u2: UserId, e2: EntryId|
                    u2 != *user_id || !ext.contains(e2) implies #[trigger] Store::spec_ue_lookup(
                    self.store.user_entries@,
                    u2,
                    e2,
                ) == Store::spec_ue_lookup(old(self).store.user_entries@, u2, e2) by {
                    if u2 == *user_id {
                        // The hypothesis then says `e2` is outside `ext`,
                        // which holds both the walked prefix and the pair
                        // just upserted.
                        assert(ext[prefix.len() as int] == entry_ids@[i as int]);
                        assert(ext.contains(entry_ids@[i as int]));
                        assert(e2 != entry_ids@[i as int]);
                        if prefix.contains(e2) {
                            let w = choose|w: int| 0 <= w < prefix.len() && prefix[w] == e2;
                            assert(ext[w] == e2 && ext.contains(e2));
                        }
                        assert(!prefix.contains(e2));
                    }
                    assert(!(u2 == *user_id && e2 == entry_ids@[i as int]));
                    assert(Store::spec_ue_lookup(self.store.user_entries@, u2, e2)
                        == Store::spec_ue_lookup(before_rows, u2, e2));
                    assert(Store::spec_ue_lookup(before_rows, u2, e2) == Store::spec_ue_lookup(
                        old(self).store.user_entries@,
                        u2,
                        e2,
                    ));
                }
            }
            i += 1;
        }
        proof {
            assert(entry_ids@.subrange(0, n as int) =~= entry_ids@);
        }
        Ok(())
    }
}

} // verus!
