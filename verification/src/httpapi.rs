//! The request-level rules of the HTTP surface: the error taxonomy and its
//! status codes, request records, pagination defaults, the session cookie's
//! name, access rules, and the parsing of the batch entry-action form. The
//! routing, extraction and rendering live outside the library.

use vstd::prelude::*;
use vstd::string::StrSliceExecFns;

use crate::model::{EntryId, Pagination, Timestamp, UserId, UserType};
use crate::store::{Session, User};

verus! {

/// The name of the session cookie.
pub const SESSION_COOKIE: &'static str = "session_id";

/// The `Content-Security-Policy` value every response carries.
pub const CSP_HEADER_VALUE: &'static str = "script-source none";

/// The shared error taxonomy of the HTTP surface.
#[derive(Debug, PartialEq, Eq)]
pub enum HttpError {
    BadRequest { description: String },
    Unauthenticated { redirect_to: Option<String> },
    Forbidden,
    NotFound,
    InternalError { description: String },
}

impl HttpError {
    /// The status code each error kind maps to.
    pub fn status_code(&self) -> (r: u16)
        ensures
            r == match self {
                HttpError::BadRequest { .. } => 400u16,
                HttpError::Unauthenticated { .. } => 401u16,
                HttpError::Forbidden => 403u16,
                HttpError::NotFound => 404u16,
                HttpError::InternalError { .. } => 500u16,
            },
    {
        match self {
            HttpError::BadRequest { .. } => 400,
            HttpError::Unauthenticated { .. } => 401,
            HttpError::Forbidden => 403,
            HttpError::NotFound => 404,
            HttpError::InternalError { .. } => 500,
        }
    }
}

/// The query of the login form page.
#[derive(Debug, PartialEq, Eq)]
pub struct LoginPageQuery {
    pub redirect_to: Option<String>,
}

/// The login form body.
#[derive(Debug, PartialEq, Eq)]
pub struct LoginRequest {
    pub user_name: String,
    pub plaintext_password: String,
    pub redirect_to: Option<String>,
    pub permanent_session: bool,
}

/// The default of the login form's `permanent_session` field when the box
/// is absent.
pub fn default_permanent_session() -> (r: bool)
    ensures
        r == false,
{
    false
}

/// The subscribe form body.
#[derive(Debug, PartialEq, Eq)]
pub struct SubscribeRequest {
    pub url: String,
}

/// The pagination a listing request resolves to: page zero and one hundred
/// rows unless the query says otherwise.
pub fn effective_pagination(page_num: Option<usize>, page_size: Option<usize>) -> (r: Pagination)
    ensures
        r.page_num == match page_num {
            Some(n) => n,
            None => 0,
        },
        r.page_size == match page_size {
            Some(n) => n,
            None => 100,
        },
{
    Pagination {
        page_num: match page_num {
            Some(n) => n,
            None => 0,
        },
        page_size: match page_size {
            Some(n) => n,
            None => 100,
        },
    }
}

/// Where the entry page redirects: to the entry's URL, or to the root when
/// it has none.
pub fn entry_redirect_target(url: Option<String>) -> (r: String)
    ensures
        match url {
            Some(u) => r == u,
            None => r@ == "/"@,
        },
{
    match url {
        Some(u) => u,
        None => String::from_str("/"),
    }
}

/// The user-page access rule: a sysop may view any user, a member only
/// themselves.
pub fn user_page_access(viewer: &User, page_user_id: UserId) -> (r: Result<(), HttpError>)
    ensures
        r is Ok <==> viewer.user_type == UserType::Sysop || viewer.id == page_user_id,
        r is Err ==> r == Err::<(), HttpError>(HttpError::Forbidden),
{
    let is_sysop = match viewer.user_type {
        UserType::Sysop => true,
        UserType::Member => false,
    };
    if is_sysop || viewer.id == page_user_id {
        Ok(())
    } else {
        Err(HttpError::Forbidden)
    }
}

/// What a successful login hands to the response: the cookie's value and
/// optional expiration, and where to redirect.
#[derive(Debug, PartialEq, Eq)]
pub struct LoginOutcome {
    pub cookie_token: String,
    pub cookie_expires: Option<Timestamp>,
    pub redirect: String,
}

/// Shape the response of a login attempt: a minted session becomes a
/// `session_id` cookie — with the session's expiration for a permanent
/// session, and a plain session cookie otherwise — and a redirect to the
/// requested page or the root; no session fails with `Unauthenticated`
/// carrying the attempted redirect.
pub fn login_response(
    session: Option<Session>,
    redirect_to: Option<String>,
    permanent_session: bool,
) -> (r: Result<LoginOutcome, HttpError>)
    ensures
        match session {
            Some(s) => r matches Ok(o) && o.cookie_token == s.token.0 && o.cookie_expires == (
            if permanent_session {
                Some(s.expiration)
            } else {
                Option::<Timestamp>::None
            }) && (match redirect_to {
                Some(d) => o.redirect == d,
                None => o.redirect@ == "/"@,
            }),
            None => r matches Err(e) && e == (HttpError::Unauthenticated { redirect_to }),
        },
{
    match session {
        Some(s) => {
            let cookie_expires = if permanent_session {
                Some(s.expiration)
            } else {
                None
            };
            let redirect = match redirect_to {
                Some(d) => d,
                None => String::from_str("/"),
            };
            Ok(LoginOutcome { cookie_token: s.token.0, cookie_expires, redirect })
        },
        None => Err(HttpError::Unauthenticated { redirect_to }),
    }
}

/// A batch action over selected entries.
#[derive(Clone, Copy, Debug, PartialEq, Eq, Structural)]
pub enum EntryAction {
    MarkRead,
    Delete,
}

/// The parsed batch entry-action form.
#[derive(Debug, PartialEq, Eq)]
pub struct EditUserEntriesRequest {
    pub action: EntryAction,
    pub select_all: bool,
    pub selected_ids: Vec<EntryId>,
}

impl EntryAction {
    /// The per-user state payload an action writes, stamped at `now`:
    /// marking read sets the read time; deleting sets both the read time
    /// and the tombstone.
    pub fn payload(self, now: Timestamp) -> (r: crate::store::UserEntry)
        ensures
            self == EntryAction::MarkRead ==> r == (crate::store::UserEntry {
                read: Some(now),
                tombstone: None,
            }),
            self == EntryAction::Delete ==> r == (crate::store::UserEntry {
                read: Some(now),
                tombstone: Some(now),
            }),
    {
        match self {
            EntryAction::MarkRead => crate::store::UserEntry { read: Some(now), tombstone: None },
            EntryAction::Delete => crate::store::UserEntry {
                read: Some(now),
                tombstone: Some(now),
            },
        }
    }
}

/// What a 128-bit identifier's canonical string form decodes to, if
/// anything.
pub uninterp spec fn ulid_of_str(s: Seq<char>) -> Option<u128>;

/// Relies on `ulid::Ulid::from_string`: the decode is a function of the
/// string alone.
#[verifier::external_body]
pub fn parse_ulid(s: &str) -> (r: Option<u128>)
    ensures
        r == ulid_of_str(s@),
{
    ulid::Ulid::from_string(s).ok().map(|u| u.0)
}

/// One step of folding the form's key-value pairs into a request: at most
/// one `action` pair with a known value, `select-all`, and `select-<id>`
/// keys whose suffix decodes as an identifier; anything else refuses the
/// form.
pub open spec fn spec_edit_fold(
    pairs: Seq<(String, String)>,
    st: (Option<EntryAction>, bool, Seq<EntryId>),
) -> Option<(Option<EntryAction>, bool, Seq<EntryId>)>
    decreases pairs.len(),
{
    if pairs.len() == 0 {
        Some(st)
    } else {
        let k = pairs.first().0@;
        let v = pairs.first().1@;
        if k == "action"@ {
            if st.0 is Some {
                None
            } else if v == "mark_read"@ {
                spec_edit_fold(pairs.drop_first(), (Some(EntryAction::MarkRead), st.1, st.2))
            } else if v == "delete"@ {
                spec_edit_fold(pairs.drop_first(), (Some(EntryAction::Delete), st.1, st.2))
            } else {
                None
            }
        } else if k == "select-all"@ {
            spec_edit_fold(pairs.drop_first(), (st.0, true, st.2))
        } else if k.len() >= 7 && k.subrange(0, 7) == "select-"@ {
            match ulid_of_str(k.subrange(7, k.len() as int)) {
                Some(u) => spec_edit_fold(pairs.drop_first(), (st.0, st.1, st.2.push(EntryId(u)))),
                None => None,
            }
        } else {
            None
        }
    }
}

/// What the batch entry-action form parses to, if anything: the folded
/// state, provided an action was named.
pub open spec fn spec_parse_edit(pairs: Seq<(String, String)>) -> Option<
    (EntryAction, bool, Seq<EntryId>),
> {
    match spec_edit_fold(pairs, (None, false, Seq::empty())) {
        Some(st) => match st.0 {
            Some(a) => Some((a, st.1, st.2)),
            None => None,
        },
        None => None,
    }
}

impl EditUserEntriesRequest {
    /// Parse the raw form pairs of the batch entry action.
    pub fn from_raw_entries(entries: &Vec<(String, String)>) -> (r: Result<
        EditUserEntriesRequest,
        HttpError,
    >)
        ensures
            r is Ok <==> spec_parse_edit(entries@) is Some,
            r matches Ok(req) ==> spec_parse_edit(entries@) matches Some(p) && req.action == p.0
                && req.select_all == p.1 && req.selected_ids@ == p.2,
            r matches Err(e) ==> e matches HttpError::BadRequest { .. },
    {
        let key_action = String::from_str("action");
        let key_select_all = String::from_str("select-all");
        let key_prefix = String::from_str("select-");
        let val_mark_read = String::from_str("mark_read");
        let val_delete = String::from_str("delete");
        let mut action: Option<EntryAction> = None;
        let mut select_all: bool = false;
        let mut selected_ids: Vec<EntryId> = Vec::new();
        let n = entries.len();
        let mut i: usize = 0;
        proof {
            assert(entries@.skip(0) =~= entries@);
        }
        while i < n
            invariant
                n == entries@.len(),
                i <= n,
                key_action@ == "action"@,
                key_select_all@ == "select-all"@,
                key_prefix@ == "select-"@,
                val_mark_read@ == "mark_read"@,
                val_delete@ == "delete"@,
                spec_edit_fold(entries@, (None, false, Seq::empty())) == spec_edit_fold(
                    entries@.skip(i as int),
                    (action, select_all, selected_ids@),
                ),
            decreases n - i,
        {
            proof {
                assert(entries@.skip(i as int).first() == entries@[i as int]);
                assert(entries@.skip(i as int).drop_first() =~= entries@.skip(i + 1));
            }
            let key = &entries[i].0;
            let value = &entries[i].1;
            if *key == key_action {
                if action.is_some() {
                    return Err(
                        HttpError::BadRequest {
                            description: String::from_str("multiple actions"),
                        },
                    );
                }
                if *value == val_mark_read {
                    action = Some(EntryAction::MarkRead);
                } else if *value == val_delete {
                    action = Some(EntryAction::Delete);
                } else {
                    return Err(
                        HttpError::BadRequest {
                            description: String::from_str("unknown action"),
                        },
                    );
                }
            } else if *key == key_select_all {
                select_all = true;
            } else {
                let klen = key.as_str().unicode_len();
                let is_selection = klen >= 7 && {
                    let prefix = key.as_str().substring_char(0, 7);
                    prefix.to_owned() == key_prefix
                };
                if !is_selection {
                    return Err(
                        HttpError::BadRequest { description: String::from_str("bad key") },
                    );
                }
                let suffix = key.as_str().substring_char(7, klen);
                match parse_ulid(suffix) {
                    Some(u) => {
                        selected_ids.push(EntryId(u));
                    },
                    None => {
                        return Err(
                            HttpError::BadRequest {
                                description: String::from_str("bad entry id"),
                            },
                        );
                    },
                }
            }
            i += 1;
        }
        proof {
            assert(entries@.skip(n as int).len() == 0);
        }
        match action {
            Some(a) => Ok(EditUserEntriesRequest { action: a, select_all, selected_ids }),
            None => Err(HttpError::BadRequest { description: String::from_str("no action") }),
        }
    }
}

} // verus!
