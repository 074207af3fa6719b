//! Users and sessions: password hashing, login with its side-channel
//! defense, token-based authentication, session cleanup, and subscription
//! management.

use vstd::prelude::*;
use vstd::string::StringSliceAdditionalSpecFns;

use crate::crypto;
use crate::crypto::{argon2_definite, argon2_match, base32_of};
use crate::domain::{DomainError, RussetDomainService};
use crate::model::{FeedId, SessionToken, Timestamp, UserId, UserType};
use crate::store::{Session, Store, Subscription, User};

verus! {

/// Milliseconds in a gigasecond, the lifetime of a permanent session: a
/// touch under 32 years.
pub const PERMANENT_SESSION_MS: u64 = 1_000_000_000_000;

/// Milliseconds in one week: the lifetime of an ordinary session.
pub const SESSION_MS: u64 = 604_800_000;

/// A fixed, precomputed Argon2id hash. A login attempt for a name that no
/// user bears still verifies the offered password against this hash, so
/// that response time does not leak whether the name exists.
pub const DUMMY_HASH: &'static str = "$argon2id$v=19$m=19456,t=2,p=1$DFhnniX1Kn3JoEKD5e9qbQ$IxgxUYNYPTvPTjez280uFJh166f+eNkCXntlVe5NaZQ";

impl RussetDomainService {
    /// Mint a fresh session token: 256 bits from the system's entropy
    /// source, base32-encoded without padding.
    fn generate_token() -> (r: Result<SessionToken, DomainError>)
        ensures
            r matches Ok(t) ==> exists|b: Seq<u8>| b.len() == 32 && t.0@ == base32_of(b),
            r matches Err(e) ==> e == DomainError::CryptoFailed,
    {
        let bytes = match crypto::random_bytes_32() {
            Ok(b) => b,
            Err(_) => {
                return Err(DomainError::CryptoFailed);
            },
        };
        let encoded = crypto::base32_encode(bytes.as_slice());
        proof {
            let b = bytes@;
            assert(b.len() == 32 && encoded@ == base32_of(b));
        }
        Ok(SessionToken(encoded))
    }

    /// Hash a plaintext password with the service's pepper.
    fn hash_password(&self, plaintext_password: &str) -> (r: Result<
        crate::model::PasswordHash,
        DomainError,
    >)
        ensures
            r matches Ok(h) ==> argon2_match(
                h.0@,
                plaintext_password.spec_bytes(),
                self.pepper@,
            ),
            r matches Err(e) ==> e == DomainError::CryptoFailed,
    {
        match crypto::argon2_hash(plaintext_password.as_bytes(), self.pepper.as_slice()) {
            Ok(h) => Ok(crate::model::PasswordHash(h)),
            Err(_) => Err(DomainError::CryptoFailed),
        }
    }

    /// Log a user in. A stored user whose hash matches the offered password
    /// gets a fresh session: its expiration lies strictly after `now`, a
    /// gigasecond later for a permanent session and a week later otherwise,
    /// and its token encodes 32 bytes of fresh entropy. A definite mismatch,
    /// or a name that no user bears, yields `None`; for an unknown name the
    /// offered password is still hashed once, against a fixed hash, to
    /// resist user enumeration by response time. In read-only mode
    /// (`disable_logins`) every attempt yields `None` without touching the
    /// store.
    pub fn login_user(
        &mut self,
        user_name: &str,
        plaintext_password: &str,
        permanent_session: bool,
        now: Timestamp,
    ) -> (r: Result<Option<Session>, DomainError>)
        requires
            old(self).wf(),
            now.millis < i64::MAX,
        ensures
            final(self).wf(),
            RussetDomainService::same_config(*final(self), *old(self)),
            Store::eq_but_sessions(final(self).store, old(self).store),
            r matches Ok(Some(s)) ==> {
                &&& exists|k: int|
                    {
                        &&& 0 <= k < old(self).store.users@.len()
                        &&& (#[trigger] old(self).store.users@[k]).name@ == user_name@
                        &&& argon2_match(
                            old(self).store.users@[k].password_hash.0@,
                            plaintext_password.spec_bytes(),
                            old(self).pepper@,
                        )
                        &&& s.user_id == old(self).store.users@[k].id
                    }
                &&& s.expiration.millis == Timestamp::spec_plus_millis(
                    now,
                    if permanent_session {
                        PERMANENT_SESSION_MS
                    } else {
                        SESSION_MS
                    },
                )
                &&& s.expiration.millis > now.millis
                &&& exists|b: Seq<u8>| b.len() == 32 && s.token.0@ == base32_of(b)
                &&& final(self).store.sessions@ == old(self).store.sessions@.push(s)
            },
            old(self).disable_logins ==> (r matches Ok(None)),
            !old(self).disable_logins ==> ((r matches Ok(None)) <==> (!Store::user_named_in(
                old(self).store.users@,
                user_name@,
            ) || exists|k: int|
                {
                    &&& 0 <= k < old(self).store.users@.len()
                    &&& (#[trigger] old(self).store.users@[k]).name@ == user_name@
                    &&& !argon2_match(
                        old(self).store.users@[k].password_hash.0@,
                        plaintext_password.spec_bytes(),
                        old(self).pepper@,
                    )
                    &&& argon2_definite(
                        old(self).store.users@[k].password_hash.0@,
                        plaintext_password.spec_bytes(),
                        old(self).pepper@,
                    )
                })),
            (r is Err || r matches Ok(None)) ==> final(self).store.sessions@ == old(
                self,
            ).store.sessions@,
    {
        if self.disable_logins {
            return Ok(None);
        }
        let user_opt = self.store.get_user_by_name(user_name);
        match user_opt {
            Some(user) => {
                proof {
                    let users = self.store.users@;
                    let k = choose|k: int| 0 <= k < users.len() && users[k] == user;
                    assert(users[k].name@ == user_name@);
                }
                match crypto::argon2_verify(
                    user.password_hash.0.as_str(),
                    plaintext_password.as_bytes(),
                    self.pepper.as_slice(),
                ) {
                    Ok(true) => {
                        let token = match Self::generate_token() {
                            Ok(t) => t,
                            Err(e) => {
                                return Err(e);
                            },
                        };
                        let duration_ms: u64 = if permanent_session {
                            PERMANENT_SESSION_MS
                        } else {
                            SESSION_MS
                        };
                        let expiration = now.plus_millis(duration_ms);
                        let session = Session { token, user_id: user.id, expiration };
                        let stored = session.clone();
                        match self.store.add_session(stored) {
                            Ok(()) => {
                                proof {
                                    let users = old(self).store.users@;
                                    let k = choose|k: int|
                                        0 <= k < users.len() && users[k] == user;
                                    assert(users[k].name@ == user_name@ && session.user_id
                                        == users[k].id);
                                }
                                Ok(Some(session))
                            },
                            Err(_) => Err(DomainError::StorageFailed),
                        }
                    },
                    Ok(false) => {
                        proof {
                            let users = self.store.users@;
                            let k = choose|k: int| 0 <= k < users.len() && users[k] == user;
                            assert(users[k].name@ == user_name@);
                        }
                        Ok(None)
                    },
                    Err(_) => {
                        proof {
                            // The hash neither matched nor definitely
                            // mismatched, so no user clause of the None case
                            // can hold of this user; uniqueness rules out
                            // any other bearer of the name.
                            let users = self.store.users@;
                            let k = choose|k: int| 0 <= k < users.len() && users[k] == user;
                            assert(users[k].name@ == user_name@);
                        }
                        Err(DomainError::CryptoFailed)
                    },
                }
            },
            None => {
                let _ = crypto::argon2_verify(
                    DUMMY_HASH,
                    plaintext_password.as_bytes(),
                    self.pepper.as_slice(),
                );
                Ok(None)
            },
        }
    }

    /// Add a user with the given name, password and type; refused when the
    /// name is taken.
    pub fn add_user(
        &mut self,
        user_name: &str,
        plaintext_password: &str,
        user_type: UserType,
    ) -> (r: Result<(), DomainError>)
        requires
            old(self).wf(),
        ensures
            final(self).wf(),
            RussetDomainService::same_config(*final(self), *old(self)),
            Store::eq_but_users(final(self).store, old(self).store),
            Store::user_named_in(old(self).store.users@, user_name@) ==> r == Err::<
                (),
                DomainError,
            >(DomainError::Conflict),
            r is Ok ==> !Store::user_named_in(old(self).store.users@, user_name@),
            r is Ok ==> exists|u: User|
                {
                    &&& final(self).store.users@ == old(self).store.users@.push(u)
                    &&& u.name@ == user_name@
                    &&& u.user_type == user_type
                    &&& argon2_match(
                        u.password_hash.0@,
                        plaintext_password.spec_bytes(),
                        old(self).pepper@,
                    )
                },
            r is Err ==> final(self).store.users@ == old(self).store.users@,
    {
        match self.store.get_user_by_name(user_name) {
            Some(_) => Err(DomainError::Conflict),
            None => {
                let password_hash = match self.hash_password(plaintext_password) {
                    Ok(h) => h,
                    Err(e) => {
                        return Err(e);
                    },
                };
                let user = User {
                    id: UserId(crate::model::fresh_ulid()),
                    name: user_name.to_owned(),
                    password_hash,
                    user_type,
                };
                let ghost u = user;
                match self.store.add_user(user) {
                    Ok(()) => {
                        proof {
                            assert(final(self).store.users@ == old(self).store.users@.push(u));
                        }
                        Ok(())
                    },
                    Err(_) => Err(DomainError::StorageFailed),
                }
            },
        }
    }

    /// Replace the password of the user bearing the given name.
    pub fn set_user_password(&mut self, user_name: &str, plaintext_password: &str) -> (r: Result<
        (),
        DomainError,
    >)
        requires
            old(self).wf(),
        ensures
            final(self).wf(),
            RussetDomainService::same_config(*final(self), *old(self)),
            Store::eq_but_users(final(self).store, old(self).store),
            !Store::user_named_in(old(self).store.users@, user_name@) <==> r == Err::<
                (),
                DomainError,
            >(DomainError::NotFound),
            r is Ok ==> exists|k: int|
                {
                    &&& 0 <= k < old(self).store.users@.len()
                    &&& (#[trigger] old(self).store.users@[k]).name@ == user_name@
                    &&& exists|h: crate::model::PasswordHash|
                        {
                            &&& argon2_match(
                                h.0@,
                                plaintext_password.spec_bytes(),
                                old(self).pepper@,
                            )
                            &&& final(self).store.users@ == old(self).store.users@.update(
                                k,
                                User {
                                    id: old(self).store.users@[k].id,
                                    name: old(self).store.users@[k].name,
                                    password_hash: h,
                                    user_type: old(self).store.users@[k].user_type,
                                },
                            )
                        }
                },
            r is Err ==> final(self).store.users@ == old(self).store.users@,
    {
        let user = match self.store.get_user_by_name(user_name) {
            Some(u) => u,
            None => {
                return Err(DomainError::NotFound);
            },
        };
        let password_hash = match self.hash_password(plaintext_password) {
            Ok(h) => h,
            Err(e) => {
                return Err(e);
            },
        };
        proof {
            let users = self.store.users@;
            let k = choose|k: int| 0 <= k < users.len() && users[k] == user;
            assert(users[k].name@ == user_name@);
        }
        let updated = User {
            id: user.id,
            name: user.name,
            password_hash,
            user_type: user.user_type,
        };
        let ghost uh = updated.password_hash;
        match self.store.update_user(&updated) {
            Ok(()) => {
                proof {
                    let users = old(self).store.users@;
                    let k = choose|k: int|
                        0 <= k < users.len() && (#[trigger] users[k]).id == updated.id
                            && final(self).store.users@ == users.update(
                            k,
                            User {
                                id: updated.id,
                                name: updated.name,
                                password_hash: updated.password_hash,
                                user_type: users[k].user_type,
                            },
                        );
                    assert(users[k] == user) by {
                        let w = choose|w: int| 0 <= w < users.len() && users[w] == user;
                        if w < k {
                            assert(users[w].id != users[k].id);
                        } else if k < w {
                            assert(users[k].id != users[w].id);
                        }
                    }
                    assert(users[k].name@ == user_name@);
                }
                Ok(())
            },
            Err(_) => Err(DomainError::StorageFailed),
        }
    }

    /// Delete the user bearing the given name, cascading to its sessions,
    /// per-user entry rows and subscriptions; the user row goes last.
    pub fn delete_user(&mut self, user_name: &str) -> (r: Result<(), DomainError>)
        requires
            old(self).wf(),
        ensures
            final(self).wf(),
            RussetDomainService::same_config(*final(self), *old(self)),
            r is Ok <==> Store::user_named_in(old(self).store.users@, user_name@),
            r is Err ==> *final(self) == *old(self),
            r is Ok ==> exists|k: int|
                {
                    let uid = (#[trigger] old(self).store.users@[k]).id;
                    &&& 0 <= k < old(self).store.users@.len()
                    &&& old(self).store.users@[k].name@ == user_name@
                    &&& !Store::user_in(final(self).store.users@, uid)
                    &&& (forall|j: int|
                        0 <= j < final(self).store.sessions@.len() ==> (#[trigger] final(self).store.sessions@[j]).user_id != uid)
                    &&& (forall|j: int|
                        0 <= j < final(self).store.user_entries@.len() ==> (#[trigger] final(self).store.user_entries@[j]).user_id != uid)
                    &&& (forall|j: int|
                        0 <= j < final(self).store.subscriptions@.len() ==> (#[trigger] final(self).store.subscriptions@[j]).user_id != uid)
                    &&& final(self).store.users@ == old(self).store.users@.filter(
                        |u: User| u.id != uid,
                    )
                    &&& final(self).store.sessions@ == old(self).store.sessions@.filter(
                        |s: Session| s.user_id != uid,
                    )
                    &&& final(self).store.subscriptions@ == old(self).store.subscriptions@.filter(
                        |s: Subscription| s.user_id != uid,
                    )
                },
            final(self).store.feeds@ == old(self).store.feeds@,
            final(self).store.entries@ == old(self).store.entries@,
            final(self).store.checks@ == old(self).store.checks@,
    {
        let user = match self.store.get_user_by_name(user_name) {
            Some(u) => u,
            None => {
                return Err(DomainError::NotFound);
            },
        };
        proof {
            let users = self.store.users@;
            let k = choose|k: int| 0 <= k < users.len() && users[k] == user;
            assert(users[k].name@ == user_name@ && users[k].id == user.id);
        }
        self.store.delete_user(user.id);
        proof {
            let users = old(self).store.users@;
            let k = choose|k: int|
                0 <= k < users.len() && (#[trigger] users[k]).name@ == user_name@ && users[k].id
                    == user.id;
        }
        Ok(())
    }

    /// Delete every session of the user bearing the given name.
    pub fn delete_user_sessions(&mut self, user_name: &str) -> (r: Result<u32, DomainError>)
        requires
            old(self).wf(),
        ensures
            final(self).wf(),
            RussetDomainService::same_config(*final(self), *old(self)),
            Store::eq_but_sessions(final(self).store, old(self).store),
            !Store::user_named_in(old(self).store.users@, user_name@) <==> r == Err::<
                u32,
                DomainError,
            >(DomainError::NotFound),
            r matches Ok(n) ==> exists|k: int|
                {
                    let uid = (#[trigger] old(self).store.users@[k]).id;
                    &&& 0 <= k < old(self).store.users@.len()
                    &&& old(self).store.users@[k].name@ == user_name@
                    &&& final(self).store.sessions@ == old(self).store.sessions@.filter(
                        |s: Session| s.user_id != uid,
                    )
                    &&& n == old(self).store.sessions@.len() - final(self).store.sessions@.len()
                },
            r == Err::<u32, DomainError>(DomainError::NotFound) ==> final(self).store.sessions@
                == old(self).store.sessions@,
    {
        let user = match self.store.get_user_by_name(user_name) {
            Some(u) => u,
            None => {
                return Err(DomainError::NotFound);
            },
        };
        proof {
            let users = self.store.users@;
            let k = choose|k: int| 0 <= k < users.len() && users[k] == user;
            assert(users[k].name@ == user_name@ && users[k].id == user.id);
        }
        match self.store.delete_sessions_for_user(user.id) {
            Ok(n) => {
                proof {
                    let users = old(self).store.users@;
                    let k = choose|k: int|
                        0 <= k < users.len() && (#[trigger] users[k]).name@ == user_name@
                            && users[k].id == user.id;
                }
                Ok(n)
            },
            Err(_) => Err(DomainError::StorageFailed),
        }
    }

    /// Delete every session that expires strictly before `now`.
    pub fn cleanup_expired_sessions(&mut self, now: Timestamp) -> (r: Result<(), DomainError>)
        requires
            old(self).wf(),
        ensures
            final(self).wf(),
            RussetDomainService::same_config(*final(self), *old(self)),
            Store::eq_but_sessions(final(self).store, old(self).store),
            r is Ok,
            final(self).store.sessions@ == old(self).store.sessions@.filter(
                |s: Session| s.expiration.millis >= now.millis,
            ),
    {
        self.store.delete_expired_sessions(now);
        Ok(())
    }

    /// Authenticate a session token: the bearer's user exactly when a
    /// session with this token is stored and not yet expired. An expired
    /// session found here is deleted on the spot.
    pub fn auth_user(&mut self, token: &str, now: Timestamp) -> (r: Result<
        Option<User>,
        DomainError,
    >)
        requires
            old(self).wf(),
        ensures
            final(self).wf(),
            RussetDomainService::same_config(*final(self), *old(self)),
            Store::eq_but_sessions(final(self).store, old(self).store),
            r is Ok,
            (r matches Ok(None)) <==> !(exists|k: int|
                {
                    &&& 0 <= k < old(self).store.sessions@.len()
                    &&& (#[trigger] old(self).store.sessions@[k]).token.0@ == token@
                    &&& old(self).store.sessions@[k].expiration.millis > now.millis
                }),
            r matches Ok(Some(u)) ==> {
                &&& old(self).store.users@.contains(u)
                &&& exists|k: int|
                    {
                        &&& 0 <= k < old(self).store.sessions@.len()
                        &&& (#[trigger] old(self).store.sessions@[k]).token.0@ == token@
                        &&& u.id == old(self).store.sessions@[k].user_id
                    }
                &&& *final(self) == *old(self)
            },
            (exists|k: int|
                {
                    &&& 0 <= k < old(self).store.sessions@.len()
                    &&& (#[trigger] old(self).store.sessions@[k]).token.0@ == token@
                    &&& old(self).store.sessions@[k].expiration.millis <= now.millis
                }) ==> final(self).store.sessions@ == old(self).store.sessions@.filter(
                |s: Session| s.token.0@ != token@,
            ),
            !Store::session_in(old(self).store.sessions@, token@) ==> *final(self) == *old(self),
    {
        match self.store.get_user_by_session(token) {
            Some((user, session)) => {
                proof {
                    let sessions = self.store.sessions@;
                    let k = choose|k: int| 0 <= k < sessions.len() && sessions[k] == session;
                    assert(sessions[k].token.0@ == token@);
                }
                if session.expiration.millis <= now.millis {
                    match self.store.delete_session(token) {
                        Ok(()) => {
                            proof {
                                let sessions = old(self).store.sessions@;
                                let k = choose|k: int|
                                    0 <= k < sessions.len() && #[trigger] sessions[k] == session;
                                assert forall|j: int|
                                    0 <= j < sessions.len() && (#[trigger] sessions[j]).token.0@
                                        == token@ implies sessions[j].expiration.millis
                                    <= now.millis by {
                                    if j < k {
                                        assert(sessions[j].token.0@ != sessions[k].token.0@);
                                    } else if k < j {
                                        assert(sessions[k].token.0@ != sessions[j].token.0@);
                                    }
                                }
                            }
                            Ok(None)
                        },
                        Err(_) => Err(DomainError::StorageFailed),
                    }
                } else {
                    proof {
                        let sessions = self.store.sessions@;
                        let k = choose|k: int| 0 <= k < sessions.len() && sessions[k] == session;
                        assert(sessions[k].token.0@ == token@ && sessions[k].expiration.millis
                            > now.millis && user.id == sessions[k].user_id);
                    }
                    Ok(Some(user))
                }
            },
            None => Ok(None),
        }
    }

    /// Subscribe a user to a feed.
    pub fn subscribe(&mut self, user_id: &UserId, feed_id: &FeedId) -> (r: Result<
        (),
        DomainError,
    >)
        requires
            old(self).wf(),
        ensures
            final(self).wf(),
            RussetDomainService::same_config(*final(self), *old(self)),
            Store::eq_but_subscriptions(final(self).store, old(self).store),
            r is Ok <==> {
                &&& !Store::sub_in(old(self).store.subscriptions@, *user_id, *feed_id)
                &&& Store::user_in(old(self).store.users@, *user_id)
                &&& Store::feed_in(old(self).store.feeds@, *feed_id)
            },
            r is Ok ==> final(self).store.subscriptions@ == old(self).store.subscriptions@.push(Subscription { user_id: *user_id, feed_id: *feed_id }),
            r is Err ==> final(self).store.subscriptions@ == old(self).store.subscriptions@,
    {
        match self.store.add_subscription(*user_id, *feed_id) {
            Ok(()) => Ok(()),
            Err(crate::store::StoreError::NotFound) => Err(DomainError::NotFound),
            Err(_) => Err(DomainError::Conflict),
        }
    }

    /// Unsubscribe a user from a feed; idempotent.
    pub fn unsubscribe(&mut self, user_id: &UserId, feed_id: &FeedId) -> (r: Result<
        (),
        DomainError,
    >)
        requires
            old(self).wf(),
        ensures
            final(self).wf(),
            RussetDomainService::same_config(*final(self), *old(self)),
            Store::eq_but_subscriptions(final(self).store, old(self).store),
            r is Ok,
            final(self).store.subscriptions@ == old(self).store.subscriptions@.filter(
                |s: Subscription|
                    s != (Subscription { user_id: *user_id, feed_id: *feed_id }),
            ),
    {
        self.store.remove_subscription(*user_id, *feed_id);
        Ok(())
    }
}


/// Subscribing, unsubscribing and subscribing again leaves exactly one
/// subscription row for the pair: the unsubscription removes every row of
/// the pair, and the renewed subscription appends exactly one.
pub proof fn lemma_resubscribe_single_row(
    pre: Seq<Subscription>,
    after_unsub: Seq<Subscription>,
    after_resub: Seq<Subscription>,
    user_id: UserId,
    feed_id: FeedId,
)
    requires
        after_unsub == pre.filter(|s: Subscription| s != (Subscription { user_id, feed_id })),
        after_resub == after_unsub.push(Subscription { user_id, feed_id }),
    ensures
        after_resub.filter(|s: Subscription| s == (Subscription { user_id, feed_id })).len() == 1,
{
    broadcast use vstd::seq_lib::group_filter_ensures;

    let target = Subscription { user_id, feed_id };
    let keep = |s: Subscription| s != target;
    let hit = |s: Subscription| s == target;
    // No row of the pair survives the unsubscription.
    assert forall|k: int| 0 <= k < after_unsub.len() implies (#[trigger] after_unsub[k])
        != target by {
        assert(keep(pre.filter(keep)[k]));
    }
    // So the only matching row of the final table is the pushed one: the
    // filter splits over the two parts, the survivors contribute nothing,
    // and the pushed row contributes itself.
    let f = after_resub.filter(hit);
    assert(after_resub =~= after_unsub + seq![target]);
    Seq::filter_distributes_over_add(after_unsub, seq![target], hit);
    let fu = after_unsub.filter(hit);
    if fu.len() > 0 {
        crate::store::lemma_filter_in_original(after_unsub, hit, 0);
        let w = choose|w: int| 0 <= w < after_unsub.len() && #[trigger] after_unsub[w] == fu[0];
        assert(hit(fu[0]));
        assert(false);
    }
    reveal(Seq::filter);
    assert(seq![target].drop_last() =~= Seq::<Subscription>::empty());
    assert(seq![target].filter(hit) =~= seq![target]);
    assert(f.len() == 1);
}

} // verus!
