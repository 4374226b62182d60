use vstd::prelude::*;

use crate::errors::Error;
use crate::messages::{AuthCredentials, LoginInfo, RegisterInfo};
use crate::rows::{user_eqv, User};

verus! {

// ---------------------------------------------------------------------------
// Row-level predicates over the store's tables
// ---------------------------------------------------------------------------

/// User ids are assigned sequentially: the row at index `i` carries id `i + 1`,
/// so ids start at 1 and grow monotonically with each registration.
pub open spec fn user_ids_sequential(users: Seq<User>) -> bool {
    forall|i: int| 0 <= i < users.len() ==> (#[trigger] users[i]).user_id == i + 1
}

/// No two user rows carry the same username.
pub open spec fn usernames_unique(users: Seq<User>) -> bool {
    forall|i: int, j: int|
        0 <= i < j < users.len() ==> (#[trigger] users[i]).username@ != (#[trigger] users[j]).username@
}

/// Every user's liked-track and playlist id lists are free of duplicates.
pub open spec fn id_lists_unique(users: Seq<User>) -> bool {
    forall|i: int|
        0 <= i < users.len() ==> ((#[trigger] users[i]).liked_track_ids@.no_duplicates()
            && users[i].playlist_ids@.no_duplicates())
}

/// Some user row carries the given username.
pub open spec fn has_username(users: Seq<User>, name: Seq<char>) -> bool {
    exists|i: int| 0 <= i < users.len() && (#[trigger] users[i]).username@ == name
}

/// The index of the user row carrying the given username; meaningful only
/// when `has_username` holds (and then unique, given `usernames_unique`).
pub open spec fn username_index(users: Seq<User>, name: Seq<char>) -> int {
    choose|i: int| 0 <= i < users.len() && (#[trigger] users[i]).username@ == name
}

/// The user row carrying the given username.
pub open spec fn user_named(users: Seq<User>, name: Seq<char>) -> User {
    users[username_index(users, name)]
}

/// How a user row looks after its external-service credentials were set:
/// both credential fields hold the given values and every other field is
/// unchanged.
pub open spec fn creds_set(new: User, prev: User, c: AuthCredentials) -> bool {
    &&& new.user_id == prev.user_id
    &&& new.hash == prev.hash
    &&& new.username == prev.username
    &&& new.sc_oauth_token == Some(c.oauth_token)
    &&& new.sc_client_id == Some(c.client_id)
    &&& new.liked_track_ids@ == prev.liked_track_ids@
    &&& new.playlist_ids@ == prev.playlist_ids@
}

/// How a user row looks after its liked-track id list was replaced: the new
/// list holds exactly the given ids, without duplicates (and verbatim when
/// the given ids are already duplicate-free); every other field is unchanged.
pub open spec fn liked_ids_replaced(new: User, prev: User, ids: Seq<i64>) -> bool {
    &&& new.user_id == prev.user_id
    &&& new.hash == prev.hash
    &&& new.username == prev.username
    &&& new.sc_oauth_token == prev.sc_oauth_token
    &&& new.sc_client_id == prev.sc_client_id
    &&& new.liked_track_ids@.no_duplicates()
    &&& forall|x: i64| new.liked_track_ids@.contains(x) == ids.contains(x)
    &&& (ids.no_duplicates() ==> new.liked_track_ids@ == ids)
    &&& new.playlist_ids@ == prev.playlist_ids@
}

/// How a user row looks after its playlist id list was replaced; symmetric to
/// `liked_ids_replaced`.
pub open spec fn playlist_ids_replaced(new: User, prev: User, ids: Seq<i64>) -> bool {
    &&& new.user_id == prev.user_id
    &&& new.hash == prev.hash
    &&& new.username == prev.username
    &&& new.sc_oauth_token == prev.sc_oauth_token
    &&& new.sc_client_id == prev.sc_client_id
    &&& new.liked_track_ids@ == prev.liked_track_ids@
    &&& new.playlist_ids@.no_duplicates()
    &&& forall|x: i64| new.playlist_ids@.contains(x) == ids.contains(x)
    &&& (ids.no_duplicates() ==> new.playlist_ids@ == ids)
}

/// What a row inserted by registration looks like: the assigned id, the given
/// username and password hash, no external-service credentials yet, and empty
/// id lists.
pub open spec fn is_fresh_user(u: User, id: int, username: Seq<char>, hash: Seq<char>) -> bool {
    &&& u.user_id == id
    &&& u.username@ == username
    &&& u.hash@ == hash
    &&& u.sc_oauth_token is None
    &&& u.sc_client_id is None
    &&& u.liked_track_ids@ == Seq::<i64>::empty()
    &&& u.playlist_ids@ == Seq::<i64>::empty()
}

// ---------------------------------------------------------------------------
// The store
// ---------------------------------------------------------------------------

/// The normalized relational store.
///
/// It exclusively owns the persisted rows; `User` values handed out by the
/// load operations are snapshots, not live references. Every operation keeps
/// the store's invariant [`Store::wf`]: sequential user ids, globally unique
/// usernames, duplicate-free per-user id lists, and unique primary keys in
/// each of the other tables.
///
/// The store is a single shared resource: a deployment wraps it for exclusive
/// access per call (for example in a mutex), so operations serialize against
/// each other, and a concurrent reader sees a row-consistent state between
/// any two calls.
pub struct Store {
    pub(crate) users: Vec<User>,
    pub(crate) sc_users: Vec<crate::rows::SoundCloudUser>,
    pub(crate) tracks: Vec<crate::rows::Track>,
    pub(crate) playlists: Vec<crate::rows::Playlist>,
}

impl Store {
    /// The user table, in insertion order.
    pub open(crate) spec fn users(self) -> Seq<User> {
        self.users@
    }

    /// The external-account table, in insertion order.
    pub open(crate) spec fn sc_users(self) -> Seq<crate::rows::SoundCloudUser> {
        self.sc_users@
    }

    /// The track table, in insertion order.
    pub open(crate) spec fn tracks(self) -> Seq<crate::rows::Track> {
        self.tracks@
    }

    /// The playlist table, in insertion order.
    pub open(crate) spec fn playlists(self) -> Seq<crate::rows::Playlist> {
        self.playlists@
    }

    /// The store's invariant; established by [`Store::new`] and kept by every
    /// operation.
    pub open spec fn wf(self) -> bool {
        &&& user_ids_sequential(self.users())
        &&& usernames_unique(self.users())
        &&& id_lists_unique(self.users())
        &&& crate::catalog::sc_user_ids_unique(self.sc_users())
        &&& crate::catalog::track_ids_unique(self.tracks())
        &&& crate::catalog::playlist_ids_unique(self.playlists())
    }

    /// Creates an empty store with all four tables in place.
    pub fn new() -> (s: Store)
        ensures
            s.wf(),
            s.users() == Seq::<User>::empty(),
            s.sc_users() == Seq::<crate::rows::SoundCloudUser>::empty(),
            s.tracks() == Seq::<crate::rows::Track>::empty(),
            s.playlists() == Seq::<crate::rows::Playlist>::empty(),
    {
        Store { users: Vec::new(), sc_users: Vec::new(), tracks: Vec::new(), playlists: Vec::new() }
    }
}

// ---------------------------------------------------------------------------
// User operations
// ---------------------------------------------------------------------------

impl User {
    /// Checks whether a user with the given username exists.
    pub fn username_exists(store: &Store, username: &str) -> (r: bool)
        ensures
            r == has_username(store.users(), username@),
    {
        let uname: String = username.to_owned();
        let n = store.users.len();
        let mut i: usize = 0;
        while i < n
            invariant
                i <= n,
                n == store.users@.len(),
                uname@ == username@,
                forall|j: int| 0 <= j < i ==> (#[trigger] store.users@[j]).username@ != username@,
            decreases n - i,
        {
            if store.users[i].username == uname {
                assert(store.users@[i as int].username@ == username@);
                return true;
            }
            i = i + 1;
        }
        false
    }

    /// Inserts a new user based on the given registration info and the
    /// caller-computed password hash, returning the id of the new user.
    ///
    /// Fails with [`Error::UserAlreadyExists`], leaving the store untouched,
    /// exactly when the username is already taken (case-sensitive exact
    /// match). Otherwise the new row gets the next sequential id, the given
    /// username and hash, no external-service credentials, and empty id
    /// lists.
    pub fn create_new(store: &mut Store, rinfo: &RegisterInfo, hash: &str) -> (r: Result<
        i32,
        Error,
    >)
        requires
            old(store).wf(),
            old(store).users().len() < i32::MAX as int,
        ensures
            final(store).wf(),
            has_username(old(store).users(), rinfo.username@) ==> {
                &&& r == Err::<i32, Error>(Error::UserAlreadyExists)
                &&& *final(store) == *old(store)
            },
            !has_username(old(store).users(), rinfo.username@) ==> {
                &&& r == Ok::<i32, Error>((old(store).users().len() + 1) as i32)
                &&& final(store).users().len() == old(store).users().len() + 1
                &&& final(store).users().take(old(store).users().len() as int) == old(store).users()
                &&& is_fresh_user(
                    final(store).users().last(),
                    old(store).users().len() as int + 1,
                    rinfo.username@,
                    hash@,
                )
                &&& final(store).sc_users() == old(store).sc_users()
                &&& final(store).tracks() == old(store).tracks()
                &&& final(store).playlists() == old(store).playlists()
            },
    {
        if User::username_exists(store, rinfo.username.as_str()) {
            return Err(Error::UserAlreadyExists);
        }
        let id: i32 = (store.users.len() + 1) as i32;
        let row = User {
            user_id: id,
            hash: hash.to_owned(),
            username: rinfo.username.clone(),
            sc_oauth_token: None,
            sc_client_id: None,
            liked_track_ids: Vec::new(),
            playlist_ids: Vec::new(),
        };
        let ghost prev = store.users@;
        store.users.push(row);
        proof {
            assert(store.users@.take(prev.len() as int) =~= prev);
            assert forall|i: int, j: int| 0 <= i < j < store.users@.len() implies (#[trigger] store
                .users@[i]).username@ != (#[trigger] store.users@[j]).username@ by {
                if j < prev.len() {
                    assert(usernames_unique(prev));
                } else {
                    assert(store.users@[j].username@ == rinfo.username@);
                    assert(store.users@[i] == prev[i]);
                }
            }
        }
        Ok(id)
    }

    /// Loads the user with the given id; fails with [`Error::NotFound`]
    /// exactly when no row carries that id.
    pub fn load_id(store: &Store, id: i32) -> (r: Result<User, Error>)
        requires
            store.wf(),
        ensures
            match r {
                Ok(u) => 1 <= id <= store.users().len() && user_eqv(
                    u,
                    store.users()[id - 1],
                ),
                Err(e) => e == Error::NotFound && !(1 <= id <= store.users().len()),
            },
    {
        if id >= 1 && id as usize <= store.users.len() {
            let idx: usize = (id as usize) - 1;
            Ok(store.users[idx].clone())
        } else {
            Err(Error::NotFound)
        }
    }

    /// Loads the user with the given username; fails with
    /// [`Error::LoginFailed`] exactly when no row carries that username, so
    /// that a failed login never reveals whether the username exists.
    pub fn load_username(store: &Store, username: &str) -> (r: Result<User, Error>)
        requires
            store.wf(),
        ensures
            match r {
                Ok(u) => has_username(store.users(), username@) && user_eqv(
                    u,
                    user_named(store.users(), username@),
                ),
                Err(e) => e == Error::LoginFailed && !has_username(store.users(), username@),
            },
    {
        let uname: String = username.to_owned();
        let n = store.users.len();
        let mut i: usize = 0;
        while i < n
            invariant
                i <= n,
                n == store.users@.len(),
                uname@ == username@,
                store.wf(),
                forall|j: int| 0 <= j < i ==> (#[trigger] store.users@[j]).username@ != username@,
            decreases n - i,
        {
            if store.users[i].username == uname {
                proof {
                    assert(store.users@[i as int].username@ == username@);
                    let k = username_index(store.users@, username@);
                    assert(0 <= k < store.users@.len() && store.users@[k].username@ == username@);
                    if k != i {
                        assert(usernames_unique(store.users@));
                        assert(false);
                    }
                }
                return Ok(store.users[i].clone());
            }
            i = i + 1;
        }
        Err(Error::LoginFailed)
    }

    /// Stores the given credentials for the external music service on this
    /// user's row, overwriting any prior pair. A row whose id is no longer
    /// present is left alone, mirroring an update that matches no row.
    pub fn store_sc_credentials(&self, store: &mut Store, credentials: &AuthCredentials)
        requires
            old(store).wf(),
        ensures
            final(store).wf(),
            final(store).sc_users() == old(store).sc_users(),
            final(store).tracks() == old(store).tracks(),
            final(store).playlists() == old(store).playlists(),
            !(1 <= self.user_id <= old(store).users().len()) ==> final(store).users() == old(store).users(),
            1 <= self.user_id <= old(store).users().len() ==> {
                &&& final(store).users().len() == old(store).users().len()
                &&& forall|j: int|
                    0 <= j < old(store).users().len() && j != self.user_id - 1 ==> final(store).users()[j] == old(store).users()[j]
                &&& creds_set(
                    final(store).users()[self.user_id - 1],
                    old(store).users()[self.user_id - 1],
                    *credentials,
                )
            },
    {
        if self.user_id >= 1 && self.user_id as usize <= store.users.len() {
            let idx: usize = (self.user_id as usize) - 1;
            let prev = store.users[idx].clone();
            let row = User {
                user_id: prev.user_id,
                hash: prev.hash,
                username: prev.username,
                sc_oauth_token: Some(credentials.oauth_token.clone()),
                sc_client_id: Some(credentials.client_id.clone()),
                liked_track_ids: prev.liked_track_ids,
                playlist_ids: prev.playlist_ids,
            };
            store.users[idx] = row;
        }
    }

    /// Replaces this user's liked-track id list with the given ids, freed of
    /// duplicates. A row whose id is no longer present is left alone.
    pub fn update_liked_track_ids(&self, store: &mut Store, ids: &Vec<i64>)
        requires
            old(store).wf(),
        ensures
            final(store).wf(),
            final(store).sc_users() == old(store).sc_users(),
            final(store).tracks() == old(store).tracks(),
            final(store).playlists() == old(store).playlists(),
            !(1 <= self.user_id <= old(store).users().len()) ==> final(store).users() == old(store).users(),
            1 <= self.user_id <= old(store).users().len() ==> {
                &&& final(store).users().len() == old(store).users().len()
                &&& forall|j: int|
                    0 <= j < old(store).users().len() && j != self.user_id - 1 ==> final(store).users()[j] == old(store).users()[j]
                &&& liked_ids_replaced(
                    final(store).users()[self.user_id - 1],
                    old(store).users()[self.user_id - 1],
                    ids@,
                )
            },
    {
        if self.user_id >= 1 && self.user_id as usize <= store.users.len() {
            let idx: usize = (self.user_id as usize) - 1;
            let deduped = dedup_ids(ids);
            let prev = store.users[idx].clone();
            let row = User {
                user_id: prev.user_id,
                hash: prev.hash,
                username: prev.username,
                sc_oauth_token: prev.sc_oauth_token,
                sc_client_id: prev.sc_client_id,
                liked_track_ids: deduped,
                playlist_ids: prev.playlist_ids,
            };
            store.users[idx] = row;
        }
    }

    /// Replaces this user's playlist id list with the given ids, freed of
    /// duplicates. A row whose id is no longer present is left alone.
    pub fn update_playlist_ids(&self, store: &mut Store, ids: &Vec<i64>)
        requires
            old(store).wf(),
        ensures
            final(store).wf(),
            final(store).sc_users() == old(store).sc_users(),
            final(store).tracks() == old(store).tracks(),
            final(store).playlists() == old(store).playlists(),
            !(1 <= self.user_id <= old(store).users().len()) ==> final(store).users() == old(store).users(),
            1 <= self.user_id <= old(store).users().len() ==> {
                &&& final(store).users().len() == old(store).users().len()
                &&& forall|j: int|
                    0 <= j < old(store).users().len() && j != self.user_id - 1 ==> final(store).users()[j] == old(store).users()[j]
                &&& playlist_ids_replaced(
                    final(store).users()[self.user_id - 1],
                    old(store).users()[self.user_id - 1],
                    ids@,
                )
            },
    {
        if self.user_id >= 1 && self.user_id as usize <= store.users.len() {
            let idx: usize = (self.user_id as usize) - 1;
            let deduped = dedup_ids(ids);
            let prev = store.users[idx].clone();
            let row = User {
                user_id: prev.user_id,
                hash: prev.hash,
                username: prev.username,
                sc_oauth_token: prev.sc_oauth_token,
                sc_client_id: prev.sc_client_id,
                liked_track_ids: prev.liked_track_ids,
                playlist_ids: deduped,
            };
            store.users[idx] = row;
        }
    }

    /// Returns true if this user matches the given `LoginInfo`.
    ///
    /// This means that the usernames are equivalent and that the password the
    /// user entered verified against the stored hash. Verifying is the hash
    /// collaborator's work; its verdict comes in as `password_verified`.
    pub fn auth(&self, login_info: &LoginInfo, password_verified: bool) -> (r: bool)
        ensures
            r == (self.username@ == login_info.username@ && password_verified),
    {
        self.username == login_info.username && password_verified
    }
}

/// Checks whether the vector contains the given id.
pub(crate) fn contains_id(v: &Vec<i64>, x: i64) -> (r: bool)
    ensures
        r == v@.contains(x),
{
    let mut i: usize = 0;
    while i < v.len()
        invariant
            i <= v.len(),
            forall|j: int| 0 <= j < i ==> v@[j] != x,
        decreases v.len() - i,
    {
        if v[i] == x {
            assert(v@.contains(x));
            return true;
        }
        i = i + 1;
    }
    false
}

/// Copies the given ids, keeping only the first occurrence of each.
pub(crate) fn dedup_ids(v: &Vec<i64>) -> (r: Vec<i64>)
    ensures
        r@.no_duplicates(),
        forall|x: i64| r@.contains(x) == v@.contains(x),
        v@.no_duplicates() ==> r@ == v@,
{
    let mut r: Vec<i64> = Vec::new();
    let mut i: usize = 0;
    while i < v.len()
        invariant
            i <= v.len(),
            r@.no_duplicates(),
            forall|x: i64| r@.contains(x) == v@.take(i as int).contains(x),
            v@.no_duplicates() ==> r@ == v@.take(i as int),
        decreases v.len() - i,
    {
        let ghost prev = r@;
        let ghost seen = v@.take(i as int);
        let x = v[i];
        let dup = contains_id(&r, x);
        if !dup {
            r.push(x);
        }
        proof {
            let grown = v@.take(i + 1 as int);
            assert(grown =~= seen.push(x));
            assert forall|y: i64| r@.contains(y) == grown.contains(y) by {
                if r@.contains(y) {
                    let k = choose|k: int| 0 <= k < r@.len() && r@[k] == y;
                    if k < prev.len() {
                        assert(prev[k] == y);
                        assert(prev.contains(y));
                        assert(seen.contains(y));
                        let m = choose|m: int| 0 <= m < seen.len() && seen[m] == y;
                        assert(grown[m] == y);
                        assert(grown.contains(y));
                    } else {
                        assert(y == x);
                        assert(grown[i as int] == x);
                        assert(grown.contains(y));
                    }
                }
                if grown.contains(y) {
                    let k = choose|k: int| 0 <= k < grown.len() && grown[k] == y;
                    if k < i {
                        assert(seen[k] == y);
                        assert(seen.contains(y));
                        assert(prev.contains(y));
                        let m = choose|m: int| 0 <= m < prev.len() && prev[m] == y;
                        assert(r@[m] == y);
                        assert(r@.contains(y));
                    } else {
                        assert(y == x);
                        if dup {
                            assert(prev.contains(x));
                            let m = choose|m: int| 0 <= m < prev.len() && prev[m] == x;
                            assert(r@[m] == x);
                        } else {
                            assert(r@[prev.len() as int] == x);
                        }
                        assert(r@.contains(y));
                    }
                }
            }
            if !dup {
                assert forall|p: int, q: int| 0 <= p < q < r@.len() implies r@[p] != r@[q] by {
                    if q < prev.len() {
                        assert(prev.no_duplicates());
                        assert(prev[p] != prev[q]);
                    } else {
                        assert(r@[q] == x);
                        assert(r@[p] == prev[p]);
                        if prev[p] == x {
                            assert(prev.contains(x));
                            assert(false);
                        }
                    }
                }
            }
            if v@.no_duplicates() {
                if dup {
                    assert(prev == seen);
                    assert(seen.contains(x));
                    let k = choose|k: int| 0 <= k < seen.len() && seen[k] == x;
                    assert(v@[k] == x && v@[i as int] == x && k != i);
                    assert(false);
                } else {
                    assert(prev == seen);
                    assert(r@ =~= grown);
                }
            }
        }
        i = i + 1;
    }
    proof {
        assert(v@.take(v@.len() as int) =~= v@);
    }
    r
}

} // verus!
