//! Russet: a multi-user feed aggregator core.
//!
//! The crate models the aggregator's hard core: the persistence contract and
//! its schema invariants, the domain service (users, sessions, feeds,
//! entries), conditional-fetch classification, feed-reader dispatch, the
//! polling scheduler's decisions, and the request-level rules of the HTTP
//! surface. Network and terminal I/O live outside the library and hand it
//! plain values.

pub mod conf;
pub mod crypto;
pub mod domain;
pub mod entries;
pub mod feed;
pub mod feeds;
pub mod httpapi;
pub mod model;
pub mod sched;
pub mod store;
pub mod users;
