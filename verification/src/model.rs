//! Utility types shared across the crate: timestamps, identifiers,
//! pagination, and the small newtypes of the persistence model.

use vstd::prelude::*;

verus! {

/// An absolute wall-clock instant, in signed milliseconds since the Unix
/// epoch. Negative values denote instants before the epoch.
#[derive(Clone, Copy, Debug, PartialEq, Eq, Hash, Structural)]
pub struct Timestamp {
    pub millis: i64,
}

impl Timestamp {
    pub fn new(millis: i64) -> (r: Timestamp)
        ensures
            r.millis == millis,
    {
        Timestamp { millis }
    }

    /// The current wall-clock time.
    ///
    /// Relies on `std::time::SystemTime::now`; nothing is promised of the
    /// clock's reading.
    #[verifier::external_body]
    pub fn now() -> Timestamp {
        let t = std::time::SystemTime::now();
        let ms: i64 = match t.duration_since(std::time::UNIX_EPOCH) {
            Ok(d) => d.as_millis() as i64,
            Err(e) => -(e.duration().as_millis() as i64),
        };
        Timestamp { millis: ms }
    }

    /// Milliseconds from `now` until `timestamp`; zero if `timestamp` is not
    /// after `now`.
    pub fn until_from(now: Timestamp, timestamp: Timestamp) -> (r: u64)
        ensures
            r == Self::spec_until_from(now, timestamp),
    {
        if timestamp.millis <= now.millis {
            0
        } else {
            ((timestamp.millis as i128) - (now.millis as i128)) as u64
        }
    }

    pub open spec fn spec_until_from(now: Timestamp, timestamp: Timestamp) -> u64 {
        if timestamp.millis <= now.millis {
            0
        } else {
            (timestamp.millis - now.millis) as u64
        }
    }

    /// Milliseconds between the current system clock and the given
    /// timestamp. Zero if the given timestamp is in the past relative to the
    /// current system clock.
    pub fn until(timestamp: Timestamp) -> (r: u64)
        ensures
            exists|now: Timestamp| r == Self::spec_until_from(now, timestamp),
    {
        let now = Timestamp::now();
        Timestamp::until_from(now, timestamp)
    }

    /// This timestamp advanced by `interval_ms` milliseconds, saturating at
    /// the largest representable instant.
    pub fn plus_millis(self, interval_ms: u64) -> (r: Timestamp)
        ensures
            r.millis == Self::spec_plus_millis(self, interval_ms),
    {
        let sum: i128 = (self.millis as i128) + (interval_ms as i128);
        if sum > i64::MAX as i128 {
            Timestamp { millis: i64::MAX }
        } else {
            Timestamp { millis: sum as i64 }
        }
    }

    pub open spec fn spec_plus_millis(t: Timestamp, interval_ms: u64) -> int {
        if t.millis + interval_ms > i64::MAX {
            i64::MAX as int
        } else {
            t.millis + interval_ms
        }
    }
}

/// A slice of a listing: `page_num` pages of `page_size` rows are skipped,
/// and at most `page_size` rows are returned.
#[derive(Clone, Copy, Debug, PartialEq, Eq, Structural)]
pub struct Pagination {
    pub page_num: usize,
    pub page_size: usize,
}

/// Identifier of a stored feed: a 128-bit time-ordered (ULID-shaped) value.
#[derive(Clone, Copy, Debug, PartialEq, Eq, Hash, Structural)]
pub struct FeedId(pub u128);

/// Identifier of a stored entry: a 128-bit time-ordered (ULID-shaped) value.
#[derive(Clone, Copy, Debug, PartialEq, Eq, Hash, Structural)]
pub struct EntryId(pub u128);

/// Identifier of a user: a 128-bit time-ordered (ULID-shaped) value.
#[derive(Clone, Copy, Debug, PartialEq, Eq, Hash, Structural)]
pub struct UserId(pub u128);

/// A fresh 128-bit time-ordered identifier.
///
/// Relies on `ulid::Ulid::new`: the value mixes the wall clock with random
/// bits, so nothing is promised of it.
#[verifier::external_body]
pub fn fresh_ulid() -> u128 {
    ulid::Ulid::new().0
}

#[derive(Clone, Copy, Debug, PartialEq, Eq, Structural)]
pub enum UserType {
    Sysop,
    Member,
}

impl UserType {
    /// The canonical name of this user type.
    pub fn name(self) -> (r: &'static str)
        ensures
            self == UserType::Sysop ==> r@ == "Sysop"@,
            self == UserType::Member ==> r@ == "Member"@,
    {
        match self {
            UserType::Sysop => "Sysop",
            UserType::Member => "Member",
        }
    }

    /// Parse a user type from its canonical name; any other string is
    /// rejected.
    pub fn from_name(s: &str) -> (r: Option<UserType>)
        ensures
            r == Some(UserType::Sysop) <==> s@ == "Sysop"@,
            r == Some(UserType::Member) <==> s@ == "Member"@,
            r is None <==> (s@ != "Sysop"@ && s@ != "Member"@),
    {
        proof {
            reveal_strlit("Sysop");
            reveal_strlit("Member");
            assert("Sysop"@.len() == 5);
            assert("Member"@.len() == 6);
            assert("Sysop"@ != "Member"@);
        }
        let owned = s.to_owned();
        if owned == String::from_str("Sysop") {
            Some(UserType::Sysop)
        } else if owned == String::from_str("Member") {
            Some(UserType::Member)
        } else {
            None
        }
    }
}

/// A self-describing password hash string (PHC format).
#[derive(Debug, PartialEq, Eq)]
pub struct PasswordHash(pub String);

impl Clone for PasswordHash {
    fn clone(&self) -> (r: Self)
        ensures
            r == *self,
    {
        PasswordHash(self.0.clone())
    }
}

/// An opaque session token handed to clients as a cookie.
#[derive(Debug, PartialEq, Eq)]
pub struct SessionToken(pub String);

impl Clone for SessionToken {
    fn clone(&self) -> (r: Self)
        ensures
            r == *self,
    {
        SessionToken(self.0.clone())
    }
}

} // verus!
