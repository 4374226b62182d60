use vstd::prelude::*;

use crate::database::Store;
use crate::errors::Error;
use crate::rows::{playlist_eqv, Playlist, SoundCloudUser, Track};

verus! {

// ---------------------------------------------------------------------------
// Predicates over the track, external-account and playlist tables
// ---------------------------------------------------------------------------

/// No two track rows carry the same track id.
pub open spec fn track_ids_unique(tracks: Seq<Track>) -> bool {
    forall|i: int, j: int|
        0 <= i < j < tracks.len() ==> (#[trigger] tracks[i]).track_id != (
        #[trigger] tracks[j]).track_id
}

/// No two external-account rows carry the same external id.
pub open spec fn sc_user_ids_unique(sc_users: Seq<SoundCloudUser>) -> bool {
    forall|i: int, j: int|
        0 <= i < j < sc_users.len() ==> (#[trigger] sc_users[i]).sc_user_id != (
        #[trigger] sc_users[j]).sc_user_id
}

/// No two playlist rows carry the same playlist id.
pub open spec fn playlist_ids_unique(playlists: Seq<Playlist>) -> bool {
    forall|i: int, j: int|
        0 <= i < j < playlists.len() ==> (#[trigger] playlists[i]).playlist_id != (
        #[trigger] playlists[j]).playlist_id
}

/// Some track row carries the given id.
pub open spec fn has_track(tracks: Seq<Track>, id: i64) -> bool {
    exists|i: int| 0 <= i < tracks.len() && (#[trigger] tracks[i]).track_id == id
}

/// The index of the track row carrying the given id; meaningful only when
/// `has_track` holds (and then unique, given `track_ids_unique`).
pub open spec fn track_index(tracks: Seq<Track>, id: i64) -> int {
    choose|i: int| 0 <= i < tracks.len() && (#[trigger] tracks[i]).track_id == id
}

/// The track row carrying the given id.
pub open spec fn track_with_id(tracks: Seq<Track>, id: i64) -> Track {
    tracks[track_index(tracks, id)]
}

/// Some external-account row carries the given id.
pub open spec fn has_sc_user(sc_users: Seq<SoundCloudUser>, id: i64) -> bool {
    exists|i: int| 0 <= i < sc_users.len() && (#[trigger] sc_users[i]).sc_user_id == id
}

/// The index of the external-account row carrying the given id; meaningful
/// only when `has_sc_user` holds (and then unique, given
/// `sc_user_ids_unique`).
pub open spec fn sc_user_index(sc_users: Seq<SoundCloudUser>, id: i64) -> int {
    choose|i: int| 0 <= i < sc_users.len() && (#[trigger] sc_users[i]).sc_user_id == id
}

/// The external-account row carrying the given id.
pub open spec fn sc_user_with_id(sc_users: Seq<SoundCloudUser>, id: i64) -> SoundCloudUser {
    sc_users[sc_user_index(sc_users, id)]
}

/// Some playlist row carries the given id.
pub open spec fn has_playlist(playlists: Seq<Playlist>, id: i64) -> bool {
    exists|i: int| 0 <= i < playlists.len() && (#[trigger] playlists[i]).playlist_id == id
}

/// The index of the playlist row carrying the given id; meaningful only when
/// `has_playlist` holds (and then unique, given `playlist_ids_unique`).
pub open spec fn playlist_index(playlists: Seq<Playlist>, id: i64) -> int {
    choose|i: int| 0 <= i < playlists.len() && (#[trigger] playlists[i]).playlist_id == id
}

/// The playlist row carrying the given id.
pub open spec fn playlist_with_id(playlists: Seq<Playlist>, id: i64) -> Playlist {
    playlists[playlist_index(playlists, id)]
}


// ---------------------------------------------------------------------------
// Finding rows
// ---------------------------------------------------------------------------

/// Finds the index of the track row carrying the given id, if any.
fn find_track(tracks: &Vec<Track>, id: i64) -> (r: Option<usize>)
    ensures
        match r {
            Some(i) => i < tracks@.len() && tracks@[i as int].track_id == id,
            None => !has_track(tracks@, id),
        },
{
    let n = tracks.len();
    let mut i: usize = 0;
    while i < n
        invariant
            i <= n,
            n == tracks@.len(),
            forall|j: int| 0 <= j < i ==> (#[trigger] tracks@[j]).track_id != id,
        decreases n - i,
    {
        if tracks[i].track_id == id {
            return Some(i);
        }
        i = i + 1;
    }
    None
}

/// Finds the index of the external-account row carrying the given id, if any.
fn find_sc_user(sc_users: &Vec<SoundCloudUser>, id: i64) -> (r: Option<usize>)
    ensures
        match r {
            Some(i) => i < sc_users@.len() && sc_users@[i as int].sc_user_id == id,
            None => !has_sc_user(sc_users@, id),
        },
{
    let n = sc_users.len();
    let mut i: usize = 0;
    while i < n
        invariant
            i <= n,
            n == sc_users@.len(),
            forall|j: int| 0 <= j < i ==> (#[trigger] sc_users@[j]).sc_user_id != id,
        decreases n - i,
    {
        if sc_users[i].sc_user_id == id {
            return Some(i);
        }
        i = i + 1;
    }
    None
}

/// Finds the index of the playlist row carrying the given id, if any.
fn find_playlist(playlists: &Vec<Playlist>, id: i64) -> (r: Option<usize>)
    ensures
        match r {
            Some(i) => i < playlists@.len() && playlists@[i as int].playlist_id == id,
            None => !has_playlist(playlists@, id),
        },
{
    let n = playlists.len();
    let mut i: usize = 0;
    while i < n
        invariant
            i <= n,
            n == playlists@.len(),
            forall|j: int| 0 <= j < i ==> (#[trigger] playlists@[j]).playlist_id != id,
        decreases n - i,
    {
        if playlists[i].playlist_id == id {
            return Some(i);
        }
        i = i + 1;
    }
    None
}

// ---------------------------------------------------------------------------
// External-account operations
// ---------------------------------------------------------------------------

impl SoundCloudUser {
    /// Upserts this external account: inserts the row if no row carries its
    /// id yet, and otherwise leaves the table untouched, so a repeated insert
    /// never alters the first row's fields.
    pub fn create_new(&self, store: &mut Store)
        requires
            old(store).wf(),
        ensures
            final(store).wf(),
            final(store).users() == old(store).users(),
            final(store).tracks() == old(store).tracks(),
            final(store).playlists() == old(store).playlists(),
            has_sc_user(old(store).sc_users(), self.sc_user_id) ==> final(store).sc_users()
                == old(store).sc_users(),
            !has_sc_user(old(store).sc_users(), self.sc_user_id) ==> final(store).sc_users()
                == old(store).sc_users().push(*self),
    {
        match find_sc_user(&store.sc_users, self.sc_user_id) {
            Some(i) => {
                proof {
                    assert(has_sc_user(store.sc_users@, self.sc_user_id));
                }
            },
            None => {
                let ghost prev = store.sc_users@;
                store.sc_users.push(self.clone());
                proof {
                    assert(store.sc_users@ =~= prev.push(*self));
                    assert forall|p: int, q: int|
                        0 <= p < q < store.sc_users@.len() implies (#[trigger] store.sc_users@[p]).sc_user_id
                        != (#[trigger] store.sc_users@[q]).sc_user_id by {
                        if q < prev.len() {
                            assert(sc_user_ids_unique(prev));
                        } else {
                            assert(store.sc_users@[q].sc_user_id == self.sc_user_id);
                            assert(store.sc_users@[p] == prev[p]);
                        }
                    }
                }
            },
        }
    }

    /// Loads the external account with the given id; fails with
    /// [`Error::NotFound`] exactly when no row carries that id.
    pub fn load_id(store: &Store, sc_user_id: i64) -> (r: Result<SoundCloudUser, Error>)
        requires
            store.wf(),
        ensures
            match r {
                Ok(u) => has_sc_user(store.sc_users(), sc_user_id) && u == sc_user_with_id(
                    store.sc_users(),
                    sc_user_id,
                ),
                Err(e) => e == Error::NotFound && !has_sc_user(store.sc_users(), sc_user_id),
            },
    {
        match find_sc_user(&store.sc_users, sc_user_id) {
            Some(i) => {
                proof {
                    assert(has_sc_user(store.sc_users@, sc_user_id));
                    let k = sc_user_index(store.sc_users@, sc_user_id);
                    assert(0 <= k < store.sc_users@.len() && store.sc_users@[k].sc_user_id
                        == sc_user_id);
                    if k != i {
                        assert(sc_user_ids_unique(store.sc_users@));
                        assert(false);
                    }
                }
                Ok(store.sc_users[i].clone())
            },
            None => Err(Error::NotFound),
        }
    }
}

// ---------------------------------------------------------------------------
// Track operations
// ---------------------------------------------------------------------------

impl Track {
    /// Upserts this track and, first, the external account that owns it.
    ///
    /// Each of the two rows is inserted only if its id is absent; a
    /// pre-existing row is left unmodified.
    pub fn create_new(&self, store: &mut Store, user: &SoundCloudUser)
        requires
            old(store).wf(),
        ensures
            final(store).wf(),
            final(store).users() == old(store).users(),
            final(store).playlists() == old(store).playlists(),
            has_sc_user(old(store).sc_users(), user.sc_user_id) ==> final(store).sc_users()
                == old(store).sc_users(),
            !has_sc_user(old(store).sc_users(), user.sc_user_id) ==> final(store).sc_users()
                == old(store).sc_users().push(*user),
            has_track(old(store).tracks(), self.track_id) ==> final(store).tracks() == old(
                store,
            ).tracks(),
            !has_track(old(store).tracks(), self.track_id) ==> final(store).tracks() == old(
                store,
            ).tracks().push(*self),
    {
        user.create_new(store);
        match find_track(&store.tracks, self.track_id) {
            Some(i) => {
                proof {
                    assert(has_track(store.tracks@, self.track_id));
                }
            },
            None => {
                let ghost prev = store.tracks@;
                store.tracks.push(self.clone());
                proof {
                    assert(store.tracks@ =~= prev.push(*self));
                    assert forall|p: int, q: int|
                        0 <= p < q < store.tracks@.len() implies (#[trigger] store.tracks@[p]).track_id
                        != (#[trigger] store.tracks@[q]).track_id by {
                        if q < prev.len() {
                            assert(track_ids_unique(prev));
                        } else {
                            assert(store.tracks@[q].track_id == self.track_id);
                            assert(store.tracks@[p] == prev[p]);
                        }
                    }
                }
            },
        }
    }

    /// Loads the track with the given id; fails with [`Error::NotFound`]
    /// exactly when no row carries that id.
    pub fn load_id(store: &Store, track_id: i64) -> (r: Result<Track, Error>)
        requires
            store.wf(),
        ensures
            match r {
                Ok(t) => has_track(store.tracks(), track_id) && t == track_with_id(
                    store.tracks(),
                    track_id,
                ),
                Err(e) => e == Error::NotFound && !has_track(store.tracks(), track_id),
            },
    {
        match find_track(&store.tracks, track_id) {
            Some(i) => {
                proof {
                    assert(has_track(store.tracks@, track_id));
                    let k = track_index(store.tracks@, track_id);
                    assert(0 <= k < store.tracks@.len() && store.tracks@[k].track_id == track_id);
                    if k != i {
                        assert(track_ids_unique(store.tracks@));
                        assert(false);
                    }
                }
                Ok(store.tracks[i].clone())
            },
            None => Err(Error::NotFound),
        }
    }
}

// ---------------------------------------------------------------------------
// Playlist operations
// ---------------------------------------------------------------------------

/// Pushing a track row extends the ids present in the table by exactly that
/// row's id.
pub(crate) proof fn lemma_has_track_push(ts: Seq<Track>, t: Track, id: i64)
    ensures
        has_track(ts.push(t), id) == (has_track(ts, id) || t.track_id == id),
{
    let grown = ts.push(t);
    if has_track(grown, id) {
        let k = choose|k: int| 0 <= k < grown.len() && (#[trigger] grown[k]).track_id == id;
        if k < ts.len() {
            assert(ts[k].track_id == id);
            assert(has_track(ts, id));
        } else {
            assert(grown[k] == t);
        }
    }
    if has_track(ts, id) {
        let k = choose|k: int| 0 <= k < ts.len() && (#[trigger] ts[k]).track_id == id;
        assert(grown[k].track_id == id);
        assert(has_track(grown, id));
    }
    if t.track_id == id {
        assert(grown[ts.len() as int].track_id == id);
        assert(has_track(grown, id));
    }
}

/// Pushing a playlist row extends the ids present in the table by exactly
/// that row's id.
pub(crate) proof fn lemma_has_playlist_push(ps: Seq<Playlist>, p: Playlist, id: i64)
    ensures
        has_playlist(ps.push(p), id) == (has_playlist(ps, id) || p.playlist_id == id),
{
    let grown = ps.push(p);
    if has_playlist(grown, id) {
        let k = choose|k: int| 0 <= k < grown.len() && (#[trigger] grown[k]).playlist_id == id;
        if k < ps.len() {
            assert(ps[k].playlist_id == id);
            assert(has_playlist(ps, id));
        } else {
            assert(grown[k] == p);
        }
    }
    if has_playlist(ps, id) {
        let k = choose|k: int| 0 <= k < ps.len() && (#[trigger] ps[k]).playlist_id == id;
        assert(grown[k].playlist_id == id);
        assert(has_playlist(grown, id));
    }
    if p.playlist_id == id {
        assert(grown[ps.len() as int].playlist_id == id);
        assert(has_playlist(grown, id));
    }
}

impl Playlist {
    /// Upserts this playlist together with what it depends on: first the
    /// external account that owns it, then every member track, and finally
    /// the playlist row itself.
    ///
    /// Each row is inserted only if its id is absent; pre-existing rows are
    /// left unmodified, so repeating the call is a no-op on every table.
    pub fn create_new(&self, store: &mut Store, user: &SoundCloudUser, tracks: &Vec<Track>)
        requires
            old(store).wf(),
        ensures
            final(store).wf(),
            final(store).users() == old(store).users(),
            has_sc_user(old(store).sc_users(), user.sc_user_id) ==> final(store).sc_users()
                == old(store).sc_users(),
            !has_sc_user(old(store).sc_users(), user.sc_user_id) ==> final(store).sc_users()
                == old(store).sc_users().push(*user),
            final(store).tracks().len() >= old(store).tracks().len(),
            final(store).tracks().take(old(store).tracks().len() as int) == old(store).tracks(),
            forall|id: i64|
                has_track(final(store).tracks(), id) == (has_track(old(store).tracks(), id)
                    || has_track(tracks@, id)),
            has_playlist(old(store).playlists(), self.playlist_id) ==> final(store).playlists()
                == old(store).playlists(),
            !has_playlist(old(store).playlists(), self.playlist_id) ==> {
                &&& final(store).playlists().len() == old(store).playlists().len() + 1
                &&& final(store).playlists().take(old(store).playlists().len() as int) == old(
                    store,
                ).playlists()
                &&& playlist_eqv(final(store).playlists().last(), *self)
            },
    {
        user.create_new(store);
        let ghost users0 = store.users@;
        let ghost sc0 = store.sc_users@;
        let ghost pls0 = store.playlists@;
        let ghost tracks0 = store.tracks@;
        let n = tracks.len();
        let mut i: usize = 0;
        while i < n
            invariant
                i <= n,
                n == tracks@.len(),
                store.wf(),
                store.users@ == users0,
                store.sc_users@ == sc0,
                store.playlists@ == pls0,
                store.tracks@.len() >= tracks0.len(),
                store.tracks@.take(tracks0.len() as int) == tracks0,
                forall|id: i64| #![trigger has_track(tracks@.take(i as int), id)]
                    has_track(store.tracks@, id) == (has_track(tracks0, id) || has_track(
                        tracks@.take(i as int),
                        id,
                    )),
            decreases n - i,
        {
            let t = &tracks[i];
            let ghost prevt = store.tracks@;
            match find_track(&store.tracks, t.track_id) {
                Some(j) => {
                    proof {
                        assert(has_track(store.tracks@, t.track_id));
                    }
                },
                None => {
                    store.tracks.push(t.clone());
                    proof {
                        assert(store.tracks@ =~= prevt.push(tracks@[i as int]));
                        assert(store.tracks@.take(tracks0.len() as int) =~= prevt.take(
                            tracks0.len() as int,
                        ));
                        assert forall|p: int, q: int|
                            0 <= p < q < store.tracks@.len() implies (#[trigger] store.tracks@[p]).track_id
                            != (#[trigger] store.tracks@[q]).track_id by {
                            if q < prevt.len() {
                                assert(track_ids_unique(prevt));
                            } else {
                                assert(store.tracks@[q].track_id == tracks@[i as int].track_id);
                                assert(store.tracks@[p] == prevt[p]);
                            }
                        }
                    }
                },
            }
            proof {
                let cur = store.tracks@;
                let seen = tracks@.take(i as int);
                let grown = tracks@.take(i + 1 as int);
                let t_now = tracks@[i as int];
                assert(grown =~= seen.push(t_now));
                if has_track(prevt, t_now.track_id) {
                    assert(cur == prevt);
                    assert forall|id: i64|
                        has_track(cur, id) == (has_track(tracks0, id) || has_track(
                            grown,
                            id,
                        )) by {
                        lemma_has_track_push(seen, t_now, id);
                        assert(has_track(grown, id) == has_track(seen.push(t_now), id));
                        assert(has_track(prevt, id) == (has_track(tracks0, id) || has_track(
                            tracks@.take(i as int),
                            id,
                        )));
                        if t_now.track_id == id {
                            assert(has_track(cur, id));
                        }
                    }
                } else {
                    assert(cur == prevt.push(t_now));
                    assert forall|id: i64|
                        has_track(cur, id) == (has_track(tracks0, id) || has_track(
                            grown,
                            id,
                        )) by {
                        lemma_has_track_push(prevt, t_now, id);
                        lemma_has_track_push(seen, t_now, id);
                        assert(has_track(cur, id) == has_track(prevt.push(t_now), id));
                        assert(has_track(grown, id) == has_track(seen.push(t_now), id));
                        assert(has_track(prevt, id) == (has_track(tracks0, id) || has_track(
                            tracks@.take(i as int),
                            id,
                        )));
                    }
                }
            }
            i = i + 1;
        }
        proof {
            assert(tracks@.take(n as int) =~= tracks@);
            assert forall|id: i64|
                has_track(store.tracks@, id) == (has_track(tracks0, id) || has_track(
                    tracks@,
                    id,
                )) by {
                assert(has_track(store.tracks@, id) == (has_track(tracks0, id) || has_track(
                    tracks@.take(i as int),
                    id,
                )));
            }
        }
        match find_playlist(&store.playlists, self.playlist_id) {
            Some(j) => {
                proof {
                    assert(has_playlist(store.playlists@, self.playlist_id));
                }
            },
            None => {
                let ghost prevp = store.playlists@;
                store.playlists.push(self.clone());
                proof {
                    assert(store.playlists@.take(prevp.len() as int) =~= prevp);
                    assert forall|p: int, q: int|
                        0 <= p < q < store.playlists@.len() implies (#[trigger] store.playlists@[p]).playlist_id
                        != (#[trigger] store.playlists@[q]).playlist_id by {
                        if q < prevp.len() {
                            assert(playlist_ids_unique(prevp));
                        } else {
                            assert(store.playlists@[q].playlist_id == self.playlist_id);
                            assert(store.playlists@[p] == prevp[p]);
                        }
                    }
                }
            },
        }
    }

    /// Loads the playlist with the given id; fails with [`Error::NotFound`]
    /// exactly when no row carries that id.
    pub fn load_id(store: &Store, playlist_id: i64) -> (r: Result<Playlist, Error>)
        requires
            store.wf(),
        ensures
            match r {
                Ok(p) => has_playlist(store.playlists(), playlist_id) && playlist_eqv(
                    p,
                    playlist_with_id(store.playlists(), playlist_id),
                ),
                Err(e) => e == Error::NotFound && !has_playlist(store.playlists(), playlist_id),
            },
    {
        match find_playlist(&store.playlists, playlist_id) {
            Some(i) => {
                proof {
                    assert(has_playlist(store.playlists@, playlist_id));
                    let k = playlist_index(store.playlists@, playlist_id);
                    assert(0 <= k < store.playlists@.len() && store.playlists@[k].playlist_id
                        == playlist_id);
                    if k != i {
                        assert(playlist_ids_unique(store.playlists@));
                        assert(false);
                    }
                }
                Ok(store.playlists[i].clone())
            },
            None => Err(Error::NotFound),
        }
    }
}

} // verus!


