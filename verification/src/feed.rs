//! Feed readers: decoders that turn a fetched byte buffer into a normalized
//! feed record, and the dispatcher that tries them in registration order.
//!
//! The outside parsers (Atom and RSS) are called through trusted wrappers
//! whose results are named; the normalization rules — which field becomes the
//! entry's identity, URL, date and title — are verified.

use vstd::prelude::*;
use vstd::string::StrSliceExecFns;

use crate::model::Timestamp;

verus! {

/// A normalized feed: a title and its entries.
#[derive(Debug, PartialEq, Eq)]
pub struct Feed {
    pub title: String,
    pub entries: Vec<Entry>,
}

/// A normalized feed entry.
#[derive(Debug, PartialEq, Eq)]
pub struct Entry {
    /// The feed's own identifier for the entry; authoritative for identity.
    pub internal_id: String,
    pub url: Option<String>,
    pub article_date: Timestamp,
    pub title: String,
}

/// A decoder failed to accept the buffer.
#[derive(Clone, Copy, Debug, PartialEq, Eq, Structural)]
pub struct FeedReadError;

/// What the Atom parser hands back: the feed title and, for each entry, its
/// id, update time, title, and links.
#[derive(Debug)]
pub struct RawAtomFeed {
    pub title: String,
    pub entries: Vec<RawAtomEntry>,
}

#[derive(Debug)]
pub struct RawAtomEntry {
    pub id: String,
    pub updated_millis: i64,
    pub title: String,
    pub links: Vec<RawAtomLink>,
}

#[derive(Debug)]
pub struct RawAtomLink {
    pub rel: String,
    pub href: String,
}

/// What the RSS parser hands back for each channel item.
#[derive(Debug)]
pub struct RawRssChannel {
    pub title: String,
    pub items: Vec<RawRssItem>,
}

#[derive(Debug)]
pub struct RawRssItem {
    pub guid: Option<String>,
    pub link: Option<String>,
    pub pub_date: Option<String>,
    pub title: Option<String>,
}

pub uninterp spec fn atom_feed_of(bytes: Seq<u8>) -> Option<RawAtomFeed>;

pub uninterp spec fn rss_channel_of(bytes: Seq<u8>) -> Option<RawRssChannel>;

pub uninterp spec fn rfc2822_millis_of(s: Seq<char>) -> Option<i64>;

pub uninterp spec fn url_normal_of(s: Seq<char>) -> Option<Seq<char>>;

/// Relies on atom_syndication::Feed::read_from: the parse is a function of
/// the bytes alone. The wrapper hands back the feed title and, per entry,
/// the id, the update time in epoch milliseconds, the title text, and the
/// `(rel, href)` of each link.
#[verifier::external_body]
fn parse_atom(bytes: &[u8]) -> (r: Option<RawAtomFeed>)
    ensures
        r == atom_feed_of(bytes@),
{
    atom_syndication::Feed::read_from(bytes).ok().map(|feed| RawAtomFeed {
        title: feed.title.value,
        entries: feed.entries.into_iter().map(|e| RawAtomEntry {
            id: e.id,
            updated_millis: e.updated.timestamp_millis(),
            title: e.title.value,
            links: e.links.into_iter().map(|l| RawAtomLink { rel: l.rel, href: l.href }).collect(),
        }).collect(),
    })
}

/// Relies on rss::Channel::read_from: the parse is a function of the bytes
/// alone. The wrapper hands back the channel title and, per item, the guid
/// value, link, publication date string, and title.
#[verifier::external_body]
fn parse_rss(bytes: &[u8]) -> (r: Option<RawRssChannel>)
    ensures
        r == rss_channel_of(bytes@),
{
    rss::Channel::read_from(bytes).ok().map(|ch| RawRssChannel {
        title: ch.title,
        items: ch.items.into_iter().map(|i| RawRssItem {
            guid: i.guid.map(|g| g.value),
            link: i.link,
            pub_date: i.pub_date,
            title: i.title,
        }).collect(),
    })
}

/// Relies on chrono's `DateTime::parse_from_rfc2822`: the parse is a
/// function of the string alone; on success the result is the parsed
/// instant in epoch milliseconds.
#[verifier::external_body]
fn parse_rfc2822_millis(s: &str) -> (r: Option<i64>)
    ensures
        r == rfc2822_millis_of(s@),
{
    chrono::DateTime::parse_from_rfc2822(s).ok().map(|dt| dt.timestamp_millis())
}

/// Relies on `reqwest::Url::parse` (the url crate): `Some` exactly when the
/// string parses as an absolute URL, holding its normalized serialization.
#[verifier::external_body]
pub fn parse_url(s: &str) -> (r: Option<String>)
    ensures
        r is Some <==> url_normal_of(s@) is Some,
        r matches Some(u) ==> url_normal_of(s@) == Some(u@),
{
    reqwest::Url::parse(s).ok().map(|u| u.to_string())
}

/// Whether a normalized URL string names an HTTP or HTTPS resource: it
/// starts with the `http://` or `https://` scheme prefix (the normalized
/// serialization writes the scheme in lower case).
pub open spec fn spec_is_http_url(s: Seq<char>) -> bool {
    ||| (s.len() >= 7 && s.subrange(0, 7) == "http://"@)
    ||| (s.len() >= 8 && s.subrange(0, 8) == "https://"@)
}

pub fn is_http_url(s: &str) -> (r: bool)
    ensures
        r == spec_is_http_url(s@),
{
    let n = s.unicode_len();
    let mut http = false;
    if n >= 7 {
        let p = s.substring_char(0, 7);
        http = p.to_owned() == String::from_str("http://");
    }
    let mut https = false;
    if n >= 8 {
        let p = s.substring_char(0, 8);
        https = p.to_owned() == String::from_str("https://");
    }
    http || https
}

/// The href of the first link whose relationship type is `alternate`.
pub open spec fn spec_alternate_href(links: Seq<RawAtomLink>) -> Option<Seq<char>>
    decreases links.len(),
{
    if links.len() == 0 {
        None
    } else if links.first().rel@ == "alternate"@ {
        Some(links.first().href@)
    } else {
        spec_alternate_href(links.drop_first())
    }
}

fn alternate_href(links: &Vec<RawAtomLink>) -> (r: Option<String>)
    ensures
        match r {
            Some(h) => spec_alternate_href(links@) == Some(h@),
            None => spec_alternate_href(links@) is None,
        },
{
    let mut i: usize = 0;
    proof {
        assert(links@.skip(0) =~= links@);
    }
    while i < links.len()
        invariant
            i <= links@.len(),
            spec_alternate_href(links@) == spec_alternate_href(links@.skip(i as int)),
        decreases links@.len() - i,
    {
        let rel_matches = links[i].rel == String::from_str("alternate");
        proof {
            assert(links@.skip(i as int).first() == links@[i as int]);
            assert(links@.skip(i as int).drop_first() =~= links@.skip(i + 1));
        }
        if rel_matches {
            return Some(links[i].href.clone());
        }
        i += 1;
    }
    proof {
        assert(links@.skip(links@.len() as int).len() == 0);
    }
    None
}

/// How one normalized entry relates to one raw Atom entry: the entry id is
/// the identity, the URL is the first `alternate` link's href (when it
/// parses), the date is the update time, the title is the title text.
pub open spec fn atom_entry_ok(en: Entry, raw: RawAtomEntry) -> bool {
    &&& en.internal_id@ == raw.id@
    &&& en.article_date.millis == raw.updated_millis
    &&& en.title@ == raw.title@
    &&& match spec_alternate_href(raw.links@) {
        None => en.url is None,
        Some(href) => match url_normal_of(href) {
            None => en.url is None,
            Some(v) => en.url matches Some(u) && u@ == v,
        },
    }
}

pub open spec fn atom_feed_ok(f: Feed, raw: RawAtomFeed) -> bool {
    &&& f.title@ == raw.title@
    &&& f.entries@.len() == raw.entries@.len()
    &&& forall|i: int|
        0 <= i < raw.entries@.len() ==> atom_entry_ok(#[trigger] f.entries@[i], raw.entries@[i])
}

#[derive(Clone, Copy, Debug, PartialEq, Eq, Structural)]
pub struct AtomFeedReader {}

impl AtomFeedReader {
    pub fn new() -> (r: AtomFeedReader)
        ensures
            r == (AtomFeedReader {  }),
    {
        AtomFeedReader {  }
    }

    /// Decode an Atom document.
    pub fn read_feed(&self, bytes: &[u8]) -> (r: Result<Feed, FeedReadError>)
        ensures
            r is Ok <==> atom_feed_of(bytes@) is Some,
            r matches Ok(f) ==> atom_feed_of(bytes@) matches Some(raw) && atom_feed_ok(f, raw),
    {
        let raw = match parse_atom(bytes) {
            Some(raw) => raw,
            None => {
                return Err(FeedReadError);
            },
        };
        let mut entries: Vec<Entry> = Vec::new();
        let mut i: usize = 0;
        while i < raw.entries.len()
            invariant
                i <= raw.entries@.len(),
                entries@.len() == i,
                forall|k: int|
                    0 <= k < i ==> atom_entry_ok(#[trigger] entries@[k], raw.entries@[k]),
            decreases raw.entries@.len() - i,
        {
            let re = &raw.entries[i];
            let url = match alternate_href(&re.links) {
                Some(href) => parse_url(href.as_str()),
                None => None,
            };
            let en = Entry {
                internal_id: re.id.clone(),
                url,
                article_date: Timestamp::new(re.updated_millis),
                title: re.title.clone(),
            };
            proof {
                assert(atom_entry_ok(en, raw.entries@[i as int]));
            }
            entries.push(en);
            i += 1;
        }
        Ok(Feed { title: raw.title, entries })
    }
}

/// Whether an RSS item carries something to identify it by: a guid, or
/// failing that a link.
pub open spec fn rss_item_identified(it: RawRssItem) -> bool {
    it.guid is Some || it.link is Some
}

/// How one normalized entry relates to one raw RSS item: the guid (or else
/// the link) is the identity, the link is the URL (when it parses), the
/// `pubDate` is the date when it parses as RFC 2822 and the current wall
/// clock otherwise, and a missing title defaults.
pub open spec fn rss_entry_ok(en: Entry, it: RawRssItem, now: Timestamp) -> bool {
    &&& match it.guid {
        Some(g) => en.internal_id@ == g@,
        None => it.link matches Some(l) && en.internal_id@ == l@,
    }
    &&& match it.link {
        None => en.url is None,
        Some(l) => match url_normal_of(l@) {
            None => en.url is None,
            Some(v) => en.url matches Some(u) && u@ == v,
        },
    }
    &&& en.article_date.millis == match it.pub_date {
        Some(d) => match rfc2822_millis_of(d@) {
            Some(ms) => ms,
            None => now.millis,
        },
        None => now.millis,
    }
    &&& en.title@ == match it.title {
        Some(t) => t@,
        None => "<untitled>"@,
    }
}

pub open spec fn rss_channel_ok(f: Feed, raw: RawRssChannel, now: Timestamp) -> bool {
    &&& f.title@ == raw.title@
    &&& f.entries@.len() == raw.items@.len()
    &&& forall|i: int|
        0 <= i < raw.items@.len() ==> rss_entry_ok(#[trigger] f.entries@[i], raw.items@[i], now)
}

/// Whether the RSS reader accepts the buffer: it parses as a channel and
/// every item can be identified.
pub open spec fn rss_accepts(bytes: Seq<u8>) -> bool {
    match rss_channel_of(bytes) {
        Some(ch) => forall|i: int|
            0 <= i < ch.items@.len() ==> rss_item_identified(#[trigger] ch.items@[i]),
        None => false,
    }
}

#[derive(Clone, Copy, Debug, PartialEq, Eq, Structural)]
pub struct RssFeedReader {}

impl RssFeedReader {
    pub fn new() -> (r: RssFeedReader)
        ensures
            r == (RssFeedReader {  }),
    {
        RssFeedReader {  }
    }

    /// Decode an RSS document. An item with neither guid nor link has no
    /// identity, so such a buffer is not accepted.
    pub fn read_feed(&self, bytes: &[u8], now: Timestamp) -> (r: Result<Feed, FeedReadError>)
        ensures
            r is Ok <==> rss_accepts(bytes@),
            r matches Ok(f) ==> rss_channel_of(bytes@) matches Some(raw) && rss_channel_ok(
                f,
                raw,
                now,
            ),
    {
        let raw = match parse_rss(bytes) {
            Some(raw) => raw,
            None => {
                return Err(FeedReadError);
            },
        };
        let mut entries: Vec<Entry> = Vec::new();
        let mut i: usize = 0;
        while i < raw.items.len()
            invariant
                rss_channel_of(bytes@) == Some(raw),
                i <= raw.items@.len(),
                entries@.len() == i,
                forall|k: int| 0 <= k < i ==> rss_item_identified(#[trigger] raw.items@[k]),
                forall|k: int|
                    0 <= k < i ==> rss_entry_ok(#[trigger] entries@[k], raw.items@[k], now),
            decreases raw.items@.len() - i,
        {
            let it = &raw.items[i];
            let internal_id = match &it.guid {
                Some(g) => g.clone(),
                None => match &it.link {
                    Some(l) => l.clone(),
                    None => {
                        proof {
                            assert(rss_channel_of(bytes@) matches Some(ch)
                                && !rss_item_identified(ch.items@[i as int]));
                            assert(!rss_accepts(bytes@));
                        }
                        return Err(FeedReadError);
                    },
                },
            };
            let url = match &it.link {
                Some(l) => parse_url(l.as_str()),
                None => None,
            };
            let article_date = match &it.pub_date {
                Some(d) => match parse_rfc2822_millis(d.as_str()) {
                    Some(ms) => Timestamp::new(ms),
                    None => now,
                },
                None => now,
            };
            let title = match &it.title {
                Some(t) => t.clone(),
                None => String::from_str("<untitled>"),
            };
            let en = Entry { internal_id, url, article_date, title };
            proof {
                assert(rss_entry_ok(en, raw.items@[i as int], now));
            }
            entries.push(en);
            i += 1;
        }
        Ok(Feed { title: raw.title, entries })
    }
}

/// The closed set of feed readers, in a value that a registration list can
/// hold.
#[derive(Clone, Copy, Debug, PartialEq, Eq, Structural)]
pub enum FeedReader {
    Rss(RssFeedReader),
    Atom(AtomFeedReader),
}

impl FeedReader {
    /// Whether this reader accepts the buffer.
    pub open spec fn spec_accepts(self, bytes: Seq<u8>) -> bool {
        match self {
            FeedReader::Atom(_) => atom_feed_of(bytes) is Some,
            FeedReader::Rss(_) => rss_accepts(bytes),
        }
    }

    /// How this reader's successful result relates to the buffer.
    pub open spec fn spec_read_ok(self, f: Feed, bytes: Seq<u8>, now: Timestamp) -> bool {
        match self {
            FeedReader::Atom(_) => atom_feed_of(bytes) matches Some(raw) && atom_feed_ok(f, raw),
            FeedReader::Rss(_) => rss_channel_of(bytes) matches Some(raw) && rss_channel_ok(
                f,
                raw,
                now,
            ),
        }
    }

    /// Attempt one decode.
    pub fn read_feed(&self, bytes: &[u8], now: Timestamp) -> (r: Result<Feed, FeedReadError>)
        ensures
            r is Ok <==> self.spec_accepts(bytes@),
            r matches Ok(f) ==> self.spec_read_ok(f, bytes@, now),
    {
        match self {
            FeedReader::Atom(reader) => reader.read_feed(bytes),
            FeedReader::Rss(reader) => reader.read_feed(bytes, now),
        }
    }
}

/// The position of the first reader that accepts the buffer, or -1.
pub open spec fn first_accepting(readers: Seq<FeedReader>, bytes: Seq<u8>) -> int
    decreases readers.len(),
{
    if readers.len() == 0 {
        -1
    } else if readers.first().spec_accepts(bytes) {
        0
    } else {
        let rest = first_accepting(readers.drop_first(), bytes);
        if rest == -1 {
            -1
        } else {
            rest + 1
        }
    }
}

pub proof fn lemma_first_accepting(readers: Seq<FeedReader>, bytes: Seq<u8>)
    ensures
        -1 <= first_accepting(readers, bytes) < readers.len(),
        first_accepting(readers, bytes) >= 0 ==> readers[first_accepting(
            readers,
            bytes,
        )].spec_accepts(bytes) && forall|k: int|
            0 <= k < first_accepting(readers, bytes) ==> !(#[trigger] readers[k]).spec_accepts(
                bytes,
            ),
        first_accepting(readers, bytes) == -1 ==> forall|k: int|
            0 <= k < readers.len() ==> !(#[trigger] readers[k]).spec_accepts(bytes),
    decreases readers.len(),
{
    if readers.len() > 0 && !readers.first().spec_accepts(bytes) {
        lemma_first_accepting(readers.drop_first(), bytes);
        assert forall|k: int| 0 <= k < readers.len() implies readers[k] == if k == 0 {
            readers.first()
        } else {
            readers.drop_first()[k - 1]
        } by {}
    }
}

/// Try each reader in registration order; the first that accepts the buffer
/// wins, and later readers are not consulted.
pub fn feed_from_bytes(readers: &Vec<FeedReader>, bytes: &[u8], now: Timestamp) -> (r: Result<
    Feed,
    FeedReadError,
>)
    ensures
        r is Ok <==> first_accepting(readers@, bytes@) >= 0,
        r matches Ok(f) ==> readers@[first_accepting(readers@, bytes@)].spec_read_ok(
            f,
            bytes@,
            now,
        ),
{
    let mut i: usize = 0;
    while i < readers.len()
        invariant
            i <= readers@.len(),
            forall|k: int| 0 <= k < i ==> !(#[trigger] readers@[k]).spec_accepts(bytes@),
        decreases readers@.len() - i,
    {
        match readers[i].read_feed(bytes, now) {
            Ok(f) => {
                proof {
                    lemma_first_accepting(readers@, bytes@);
                    let fa = first_accepting(readers@, bytes@);
                    if fa < i {
                        assert(!readers@[fa].spec_accepts(bytes@));
                    }
                    if fa > i || fa == -1 {
                        assert(!readers@[i as int].spec_accepts(bytes@));
                    }
                    assert(fa == i);
                }
                return Ok(f);
            },
            Err(_) => {},
        }
        i += 1;
    }
    proof {
        lemma_first_accepting(readers@, bytes@);
        if first_accepting(readers@, bytes@) >= 0 {
            assert(!readers@[first_accepting(readers@, bytes@)].spec_accepts(bytes@));
        }
    }
    Err(FeedReadError)
}

} // verus!
