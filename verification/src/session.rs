use vstd::prelude::*;

use crate::database::Store;
use crate::errors::Error;
use crate::rows::{user_eqv, User};

verus! {

/// What the session cookie resolves to, once per request: either the numeric
/// id of a logged-in user, carried by a tamper-evident private cookie, or no
/// cookie at all.
///
/// The HTTP layer turns the raw cookie into this value and passes it down the
/// call chain, so that "logged in or not" is an explicit, typed input of
/// every operation rather than ambient context.
#[derive(Clone, Copy, Debug, PartialEq, Eq, Structural)]
pub enum Session {
    /// No session cookie was presented.
    Anonymous,
    /// A valid cookie bound to this user id was presented.
    LoggedIn(i32),
}

/// Guard value witnessing that a request does *not* come from an
/// authenticated user.
#[derive(Debug)]
pub struct NotLoggedIn;

impl NotLoggedIn {
    /// Resolves a session into the guard: the guard is produced exactly when
    /// no user is logged in, so routes reserved for anonymous visitors
    /// forward authenticated requests elsewhere.
    pub fn from_session(session: &Session) -> (r: Option<NotLoggedIn>)
        ensures
            r is Some <==> session is Anonymous,
    {
        match session {
            Session::Anonymous => Some(NotLoggedIn),
            Session::LoggedIn(_) => None,
        }
    }
}

/// The outcome of resolving a session against the store.
pub enum Auth {
    /// The cookie's user id resolved to this user snapshot.
    Authenticated(User),
    /// A cookie was presented but its id no longer resolves to a row; the
    /// request fails with a server-class error.
    Failure(Error),
    /// No cookie was presented: the request falls through to the handlers
    /// for anonymous visitors.
    Anonymous,
}

impl User {
    /// Resolves a session to a `User` snapshot, the way every authenticated
    /// route obtains its caller: a logged-in id is looked up in the store,
    /// an id that no longer resolves is a failure, and a missing cookie
    /// falls through.
    pub fn from_session(store: &Store, session: &Session) -> (r: Auth)
        requires
            store.wf(),
        ensures
            match r {
                Auth::Authenticated(u) => {
                    &&& *session is LoggedIn
                    &&& 1 <= session->LoggedIn_0 <= store.users().len()
                    &&& user_eqv(u, store.users()[session->LoggedIn_0 - 1])
                },
                Auth::Failure(e) => {
                    &&& *session is LoggedIn
                    &&& !(1 <= session->LoggedIn_0 <= store.users().len())
                    &&& e == Error::NotFound
                },
                Auth::Anonymous => *session is Anonymous,
            },
    {
        match session {
            Session::Anonymous => Auth::Anonymous,
            Session::LoggedIn(id) => match User::load_id(store, *id) {
                Ok(u) => Auth::Authenticated(u),
                Err(e) => Auth::Failure(e),
            },
        }
    }
}

} // verus!
