use vstd::prelude::*;

use crate::catalog::{
    has_playlist, has_sc_user, has_track, playlist_with_id, sc_user_with_id, track_with_id,
};
use crate::database::{has_username, is_fresh_user, user_named, Store};
use crate::errors::Error;
use crate::messages::{
    AuthCredentials, LoginInfo, PlaylistInfoBrief, PlaylistInfoLong, RegisterInfo, TrackInfoBrief,
    TrackInfoLong, UserInfo,
};
use crate::numtext::{dec_str, u64_to_string};
use crate::progress::ProgressChannel;
use crate::rows::{Playlist, SoundCloudUser, Track, User};
use crate::session::{NotLoggedIn, Session};

verus! {

/// Creates a new user from the given registration info and the
/// caller-computed password hash, and logs the new user in.
///
/// Fails with [`Error::UserAlreadyExists`], changing nothing, exactly when
/// the username is taken. On success the new row gets the next sequential
/// id, the session is bound to it, and the caller gets the new user's id and
/// username back.
pub fn register(store: &mut Store, session: Session, reg_info: &RegisterInfo, hash: &str) -> (r: (
    Session,
    Result<UserInfo, Error>,
))
    requires
        old(store).wf(),
        old(store).users().len() < i32::MAX as int,
    ensures
        final(store).wf(),
        has_username(old(store).users(), reg_info.username@) ==> {
            &&& r.0 == session
            &&& r.1 == Err::<UserInfo, Error>(Error::UserAlreadyExists)
            &&& *final(store) == *old(store)
        },
        !has_username(old(store).users(), reg_info.username@) ==> {
            &&& final(store).users().len() == old(store).users().len() + 1
            &&& final(store).users().take(old(store).users().len() as int) == old(store).users()
            &&& is_fresh_user(
                final(store).users().last(),
                old(store).users().len() as int + 1,
                reg_info.username@,
                hash@,
            )
            &&& final(store).sc_users() == old(store).sc_users()
            &&& final(store).tracks() == old(store).tracks()
            &&& final(store).playlists() == old(store).playlists()
            &&& r.0 == Session::LoggedIn((old(store).users().len() + 1) as i32)
            &&& (r.1 matches Ok(ui) && ui.user_id == old(store).users().len() + 1
                && ui.username == reg_info.username)
        },
{
    match User::create_new(store, reg_info, hash) {
        Ok(user_id) => {
            let user_info = UserInfo { user_id, username: reg_info.username.clone() };
            (Session::LoggedIn(user_id), Ok(user_info))
        },
        Err(e) => (session, Err(e)),
    }
}

/// Logs a user in: the stored row is looked up by username, and the password
/// the user entered was verified against that row's hash by the hash
/// collaborator, whose verdict comes in as `password_verified`.
///
/// Fails uniformly with [`Error::LoginFailed`] — whether the username does
/// not exist or the password did not verify — so a caller cannot tell the
/// two apart. On success the session is bound to the user's id.
pub fn login(store: &Store, session: Session, login_info: &LoginInfo, password_verified: bool)
    -> (r: (Session, Result<UserInfo, Error>))
    requires
        store.wf(),
    ensures
        !(has_username(store.users(), login_info.username@) && password_verified) ==> r == (
            session,
            Err::<UserInfo, Error>(Error::LoginFailed),
        ),
        has_username(store.users(), login_info.username@) && password_verified ==> {
            &&& r.0 == Session::LoggedIn(user_named(store.users(), login_info.username@).user_id)
            &&& (r.1 matches Ok(ui) && ui.user_id == user_named(
                store.users(),
                login_info.username@,
            ).user_id && ui.username == user_named(store.users(), login_info.username@).username)
        },
{
    match User::load_username(store, login_info.username.as_str()) {
        Ok(user) => {
            if user.auth(login_info, password_verified) {
                let session = Session::LoggedIn(user.user_id);
                (session, Ok(UserInfo::from(user)))
            } else {
                (session, Err(Error::LoginFailed))
            }
        },
        Err(e) => (session, Err(e)),
    }
}

/// Logs out: the session cookie is dropped client-side, so the next request
/// carries none. There is no server-side revocation list.
pub fn logout(_session: Session) -> (r: (Session, u16))
    ensures
        r.0 is Anonymous,
        r.1 == 200,
{
    (Session::Anonymous, 200)
}

/// Reports the logged-in user's own id and username.
pub fn me_authed(user: User) -> (ui: UserInfo)
    ensures
        ui.user_id == user.user_id,
        ui.username == user.username,
{
    UserInfo::from(user)
}

/// The response for `/me` without a logged-in user: unauthorized.
pub fn me(_nli: NotLoggedIn) -> (r: (u16, Error))
    ensures
        r == (401u16, Error::NotLoggedIn),
{
    (401, Error::NotLoggedIn)
}

/// The catch-all for any route reached without a logged-in user:
/// unauthorized.
pub fn not_logged_in_get(_nli: NotLoggedIn, _whatever: &str) -> (r: (u16, Error))
    ensures
        r == (401u16, Error::NotLoggedIn),
{
    (401, Error::NotLoggedIn)
}

/// The catch-all for any posted route reached without a logged-in user:
/// unauthorized.
pub fn not_logged_in_post(_nli: NotLoggedIn, _whatever: &str) -> (r: (u16, Error))
    ensures
        r == (401u16, Error::NotLoggedIn),
{
    (401, Error::NotLoggedIn)
}

/// The catch-all for an unknown route under an authenticated session: a
/// client error naming the unknown-route kind, whose JSON body is exactly
/// the quoted tag of [`Error::NonExistentApiRoute`].
pub fn non_existent_api_get(_user: &User, _whatever: &str) -> (r: (u16, Error))
    ensures
        r == (400u16, Error::NonExistentApiRoute),
{
    (400, Error::NonExistentApiRoute)
}

/// The posted counterpart of [`non_existent_api_get`].
pub fn non_existent_api_post(_user: &User, _whatever: &str) -> (r: (u16, Error))
    ensures
        r == (400u16, Error::NonExistentApiRoute),
{
    (400, Error::NonExistentApiRoute)
}

/// The fallback for path requests outside the API: the single-page app's
/// index file, which the server then serves.
pub fn not_found() -> (r: String)
    ensures
        r@ == "frontend/public/index.html"@,
{
    "frontend/public/index.html".to_owned()
}

/// Stores auth credentials for the external music service (OAuth token and
/// client id) on the logged-in user's row, overwriting any prior pair.
pub fn set_auth_creds(user: &User, store: &mut Store, auth_creds: &AuthCredentials) -> (r: Result<
    (),
    Error,
>)
    requires
        old(store).wf(),
    ensures
        final(store).wf(),
        r == Ok::<(), Error>(()),
        final(store).sc_users() == old(store).sc_users(),
        final(store).tracks() == old(store).tracks(),
        final(store).playlists() == old(store).playlists(),
        !(1 <= user.user_id <= old(store).users().len()) ==> final(store).users() == old(store).users(),
        1 <= user.user_id <= old(store).users().len() ==> {
            &&& final(store).users().len() == old(store).users().len()
            &&& forall|j: int|
                0 <= j < old(store).users().len() && j != user.user_id - 1 ==> final(store).users()[j] == old(store).users()[j]
            &&& crate::database::creds_set(
                final(store).users()[user.user_id - 1],
                old(store).users()[user.user_id - 1],
                *auth_creds,
            )
        },
{
    user.store_sc_credentials(store, auth_creds);
    Ok(())
}

/// Mints an auth token with which the logged-in user can open a push
/// subscription for progress events, rendered in decimal.
pub fn sse_auth_token(user: &User, sse: &mut ProgressChannel) -> (r: Result<String, Error>)
    requires
        old(sse).wf(),
    ensures
        final(sse).wf(),
        final(sse).issued() == old(sse).issued().push(user.user_id),
        final(sse).subs() == old(sse).subs(),
        final(sse).token_valid(user.user_id, old(sse).issued().len() as u64),
        (r matches Ok(tok) && tok@ == dec_str(old(sse).issued().len() as nat)),
{
    let token = sse.generate_auth_token(user.user_id);
    Ok(u64_to_string(token))
}

/// Empties the logged-in user's liked-track id list. The track rows
/// themselves are not deleted: they are shared, possibly referenced by other
/// users, and a detail lookup for a previously-liked track still succeeds.
pub fn clear_liked_tracks(user: &User, store: &mut Store) -> (r: Result<(), Error>)
    requires
        old(store).wf(),
    ensures
        final(store).wf(),
        r == Ok::<(), Error>(()),
        final(store).sc_users() == old(store).sc_users(),
        final(store).tracks() == old(store).tracks(),
        final(store).playlists() == old(store).playlists(),
        !(1 <= user.user_id <= old(store).users().len()) ==> final(store).users() == old(store).users(),
        1 <= user.user_id <= old(store).users().len() ==> {
            &&& final(store).users().len() == old(store).users().len()
            &&& forall|j: int|
                0 <= j < old(store).users().len() && j != user.user_id - 1 ==> final(store).users()[j] == old(store).users()[j]
            &&& crate::database::liked_ids_replaced(
                final(store).users()[user.user_id - 1],
                old(store).users()[user.user_id - 1],
                Seq::<i64>::empty(),
            )
            &&& final(store).users()[user.user_id - 1].liked_track_ids@ == Seq::<i64>::empty()
        },
{
    let empty: Vec<i64> = Vec::new();
    user.update_liked_track_ids(store, &empty);
    proof {
        if 1 <= user.user_id <= old(store).users().len() {
            assert(Seq::<i64>::empty().no_duplicates());
        }
    }
    Ok(())
}

/// Empties the logged-in user's playlist id list; symmetric to
/// [`clear_liked_tracks`].
pub fn clear_playlists(user: &User, store: &mut Store) -> (r: Result<(), Error>)
    requires
        old(store).wf(),
    ensures
        final(store).wf(),
        r == Ok::<(), Error>(()),
        final(store).sc_users() == old(store).sc_users(),
        final(store).tracks() == old(store).tracks(),
        final(store).playlists() == old(store).playlists(),
        !(1 <= user.user_id <= old(store).users().len()) ==> final(store).users() == old(store).users(),
        1 <= user.user_id <= old(store).users().len() ==> {
            &&& final(store).users().len() == old(store).users().len()
            &&& forall|j: int|
                0 <= j < old(store).users().len() && j != user.user_id - 1 ==> final(store).users()[j] == old(store).users()[j]
            &&& crate::database::playlist_ids_replaced(
                final(store).users()[user.user_id - 1],
                old(store).users()[user.user_id - 1],
                Seq::<i64>::empty(),
            )
            &&& final(store).users()[user.user_id - 1].playlist_ids@ == Seq::<i64>::empty()
        },
{
    let empty: Vec<i64> = Vec::new();
    user.update_playlist_ids(store, &empty);
    Ok(())
}


// ---------------------------------------------------------------------------
// Read paths: joining id lists with the catalog tables
// ---------------------------------------------------------------------------

/// A liked track id resolves when the track row exists and so does the
/// account row of the user that uploaded it.
pub open spec fn track_resolvable(s: Store, id: i64) -> bool {
    has_track(s.tracks(), id) && has_sc_user(
        s.sc_users(),
        track_with_id(s.tracks(), id).sc_user_id,
    )
}

/// The rows a list of liked ids resolves to, each track joined with its
/// owner, in the order of the ids; ids that do not resolve are skipped.
pub open spec fn resolved_tracks(s: Store, ids: Seq<i64>) -> Seq<(Track, SoundCloudUser)>
    decreases ids.len(),
{
    if ids.len() == 0 {
        Seq::empty()
    } else {
        let rest = resolved_tracks(s, ids.drop_last());
        let id = ids.last();
        if track_resolvable(s, id) {
            rest.push(
                (
                    track_with_id(s.tracks(), id),
                    sc_user_with_id(s.sc_users(), track_with_id(s.tracks(), id).sc_user_id),
                ),
            )
        } else {
            rest
        }
    }
}

/// The brief track summary faithfully reports the joined rows.
pub open spec fn brief_of(b: TrackInfoBrief, t: Track, u: SoundCloudUser) -> bool {
    &&& b.track_id == t.track_id
    &&& b.length_ms == t.length_ms
    &&& b.created_at == t.created_at
    &&& b.title == t.title
    &&& b.playback_count == t.playback_count
    &&& b.sc_user_id == u.sc_user_id
    &&& b.username == u.username
}

/// The produced list holds one faithful summary for each resolving liked id,
/// in order.
pub open spec fn briefs_resolved(s: Store, ids: Seq<i64>, out: Seq<TrackInfoBrief>) -> bool {
    &&& out.len() == resolved_tracks(s, ids).len()
    &&& forall|j: int|
        0 <= j < out.len() ==> brief_of(
            #[trigger] out[j],
            resolved_tracks(s, ids)[j].0,
            resolved_tracks(s, ids)[j].1,
        )
}

/// Taking one more id either appends its join result or changes nothing,
/// depending on whether it resolves.
proof fn lemma_resolved_tracks_step(s: Store, ids: Seq<i64>, i: int)
    requires
        0 <= i < ids.len(),
    ensures
        track_resolvable(s, ids[i]) ==> resolved_tracks(s, ids.take(i + 1)) == resolved_tracks(
            s,
            ids.take(i),
        ).push(
            (
                track_with_id(s.tracks(), ids[i]),
                sc_user_with_id(s.sc_users(), track_with_id(s.tracks(), ids[i]).sc_user_id),
            ),
        ),
        !track_resolvable(s, ids[i]) ==> resolved_tracks(s, ids.take(i + 1)) == resolved_tracks(
            s,
            ids.take(i),
        ),
{
    let t1 = ids.take(i + 1);
    assert(t1.drop_last() =~= ids.take(i));
    assert(t1.last() == ids[i]);
    assert(t1.len() == i + 1);
}

/// Lists the logged-in user's liked tracks: for each liked id, in order, the
/// track row joined with its owner's account row; an id whose rows are
/// missing contributes nothing, and an empty list yields an empty result,
/// never an error.
pub fn liked_tracks(user: &User, store: &Store) -> (r: Result<Vec<TrackInfoBrief>, Error>)
    requires
        store.wf(),
    ensures
        (r matches Ok(v) && briefs_resolved(*store, user.liked_track_ids@, v@)),
{
    let mut out: Vec<TrackInfoBrief> = Vec::new();
    let n = user.liked_track_ids.len();
    let ghost ids = user.liked_track_ids@;
    let mut i: usize = 0;
    while i < n
        invariant
            i <= n,
            n == ids.len(),
            ids == user.liked_track_ids@,
            store.wf(),
            briefs_resolved(*store, ids.take(i as int), out@),
        decreases n - i,
    {
        let id = user.liked_track_ids[i];
        let ghost prev_out = out@;
        proof {
            lemma_resolved_tracks_step(*store, ids, i as int);
            assert(briefs_resolved(*store, ids.take(i as int), prev_out));
        }
        match Track::load_id(store, id) {
            Ok(track) => {
                match SoundCloudUser::load_id(store, track.sc_user_id) {
                    Ok(owner) => {
                        out.push(
                            TrackInfoBrief {
                                track_id: track.track_id,
                                length_ms: track.length_ms,
                                created_at: track.created_at,
                                title: track.title,
                                playback_count: track.playback_count,
                                sc_user_id: owner.sc_user_id,
                                username: owner.username,
                            },
                        );
                        proof {
                            let pairs1 = resolved_tracks(*store, ids.take(i + 1 as int));
                            let pairs0 = resolved_tracks(*store, ids.take(i as int));
                            assert(track_resolvable(*store, id));
                            assert(pairs1 == pairs0.push(
                                (
                                    track_with_id(store.tracks(), id),
                                    sc_user_with_id(
                                        store.sc_users(),
                                        track_with_id(store.tracks(), id).sc_user_id,
                                    ),
                                ),
                            ));
                            assert forall|j: int|
                                0 <= j < out@.len() implies brief_of(
                                #[trigger] out@[j],
                                pairs1[j].0,
                                pairs1[j].1,
                            ) by {
                                if j < prev_out.len() {
                                    assert(brief_of(prev_out[j], pairs0[j].0, pairs0[j].1));
                                    assert(out@[j] == prev_out[j]);
                                    assert(pairs1[j] == pairs0[j]);
                                } else {
                                    assert(out@[j] == out@.last());
                                    assert(pairs1[j] == pairs1.last());
                                }
                            }
                            assert(briefs_resolved(*store, ids.take(i + 1 as int), out@));
                        }
                    },
                    Err(_) => {
                        proof {
                            assert(!track_resolvable(*store, id));
                            assert forall|j: int|
                                0 <= j < out@.len() implies brief_of(
                                #[trigger] out@[j],
                                resolved_tracks(*store, ids.take(i + 1 as int))[j].0,
                                resolved_tracks(*store, ids.take(i + 1 as int))[j].1,
                            ) by {
                                assert(brief_of(
                                    out@[j],
                                    resolved_tracks(*store, ids.take(i as int))[j].0,
                                    resolved_tracks(*store, ids.take(i as int))[j].1,
                                ));
                            }
                            assert(briefs_resolved(*store, ids.take(i + 1 as int), out@));
                        }
                    },
                }
            },
            Err(_) => {
                proof {
                    assert(!track_resolvable(*store, id));
                    assert forall|j: int|
                        0 <= j < out@.len() implies brief_of(
                        #[trigger] out@[j],
                        resolved_tracks(*store, ids.take(i + 1 as int))[j].0,
                        resolved_tracks(*store, ids.take(i + 1 as int))[j].1,
                    ) by {
                        assert(brief_of(
                            out@[j],
                            resolved_tracks(*store, ids.take(i as int))[j].0,
                            resolved_tracks(*store, ids.take(i as int))[j].1,
                        ));
                    }
                    assert(briefs_resolved(*store, ids.take(i + 1 as int), out@));
                }
            },
        }
        i = i + 1;
    }
    proof {
        assert(ids.take(n as int) =~= ids);
        assert(briefs_resolved(*store, ids, out@));
    }
    Ok(out)
}

/// The detailed track report faithfully reports the joined rows.
pub open spec fn track_long_of(info: TrackInfoLong, t: Track, u: SoundCloudUser) -> bool {
    &&& brief_of(info.brief_info, t, u)
    &&& info.description == t.description
    &&& info.likes_count == t.likes_count
    &&& info.artwork_url == t.artwork_url
    &&& info.track_permalink_url == t.permalink_url
    &&& info.avatar_url == u.avatar_url
    &&& info.full_name == u.full_name
    &&& info.user_permalink_url == u.permalink_url
}

/// Detailed information for one track: the track row joined with its owner's
/// account row; fails with [`Error::NotFound`] exactly when either row is
/// missing.
pub fn track_info(_user: &User, store: &Store, id: i64) -> (r: Result<TrackInfoLong, Error>)
    requires
        store.wf(),
    ensures
        track_resolvable(*store, id) ==> (r matches Ok(info) && track_long_of(
            info,
            track_with_id(store.tracks(), id),
            sc_user_with_id(store.sc_users(), track_with_id(store.tracks(), id).sc_user_id),
        )),
        !track_resolvable(*store, id) ==> r == Err::<TrackInfoLong, Error>(Error::NotFound),
{
    let track = match Track::load_id(store, id) {
        Ok(t) => t,
        Err(_) => {
            return Err(Error::NotFound);
        },
    };
    let owner = match SoundCloudUser::load_id(store, track.sc_user_id) {
        Ok(u) => u,
        Err(_) => {
            return Err(Error::NotFound);
        },
    };
    Ok(
        TrackInfoLong {
            brief_info: TrackInfoBrief {
                track_id: track.track_id,
                length_ms: track.length_ms,
                created_at: track.created_at,
                title: track.title,
                playback_count: track.playback_count,
                sc_user_id: owner.sc_user_id,
                username: owner.username,
            },
            description: track.description,
            likes_count: track.likes_count,
            artwork_url: track.artwork_url,
            track_permalink_url: track.permalink_url,
            avatar_url: owner.avatar_url,
            full_name: owner.full_name,
            user_permalink_url: owner.permalink_url,
        },
    )
}

/// A playlist id resolves when the playlist row exists and so does the
/// account row of the user that created it.
pub open spec fn playlist_resolvable(s: Store, id: i64) -> bool {
    has_playlist(s.playlists(), id) && has_sc_user(
        s.sc_users(),
        playlist_with_id(s.playlists(), id).sc_user_id,
    )
}

/// The rows a list of playlist ids resolves to, each playlist joined with
/// its owner, in the order of the ids; ids that do not resolve are skipped.
pub open spec fn resolved_playlists(s: Store, ids: Seq<i64>) -> Seq<(Playlist, SoundCloudUser)>
    decreases ids.len(),
{
    if ids.len() == 0 {
        Seq::empty()
    } else {
        let rest = resolved_playlists(s, ids.drop_last());
        let id = ids.last();
        if playlist_resolvable(s, id) {
            rest.push(
                (
                    playlist_with_id(s.playlists(), id),
                    sc_user_with_id(s.sc_users(), playlist_with_id(s.playlists(), id).sc_user_id),
                ),
            )
        } else {
            rest
        }
    }
}

/// The brief playlist summary faithfully reports the joined rows.
pub open spec fn playlist_brief_of(b: PlaylistInfoBrief, p: Playlist, u: SoundCloudUser) -> bool {
    &&& b.playlist_id == p.playlist_id
    &&& b.length_ms == p.length_ms
    &&& b.created_at == p.created_at
    &&& b.title == p.title
    &&& b.is_album == p.is_album
    &&& b.num_tracks == p.num_tracks
    &&& b.sc_user_id == u.sc_user_id
    &&& b.username == u.username
}

/// The produced list holds one faithful summary for each resolving playlist
/// id, in order.
pub open spec fn playlist_briefs_resolved(
    s: Store,
    ids: Seq<i64>,
    out: Seq<PlaylistInfoBrief>,
) -> bool {
    &&& out.len() == resolved_playlists(s, ids).len()
    &&& forall|j: int|
        0 <= j < out.len() ==> playlist_brief_of(
            #[trigger] out[j],
            resolved_playlists(s, ids)[j].0,
            resolved_playlists(s, ids)[j].1,
        )
}

/// Taking one more id either appends its join result or changes nothing,
/// depending on whether it resolves.
proof fn lemma_resolved_playlists_step(s: Store, ids: Seq<i64>, i: int)
    requires
        0 <= i < ids.len(),
    ensures
        playlist_resolvable(s, ids[i]) ==> resolved_playlists(s, ids.take(i + 1))
            == resolved_playlists(s, ids.take(i)).push(
            (
                playlist_with_id(s.playlists(), ids[i]),
                sc_user_with_id(s.sc_users(), playlist_with_id(s.playlists(), ids[i]).sc_user_id),
            ),
        ),
        !playlist_resolvable(s, ids[i]) ==> resolved_playlists(s, ids.take(i + 1))
            == resolved_playlists(s, ids.take(i)),
{
    let t1 = ids.take(i + 1);
    assert(t1.drop_last() =~= ids.take(i));
    assert(t1.last() == ids[i]);
    assert(t1.len() == i + 1);
}

/// Lists the logged-in user's liked and owned playlists: for each playlist
/// id, in order, the playlist row joined with its owner's account row; an id
/// whose rows are missing contributes nothing, and an empty list yields an
/// empty result, never an error.
pub fn liked_and_owned_playlists(user: &User, store: &Store) -> (r: Result<
    Vec<PlaylistInfoBrief>,
    Error,
>)
    requires
        store.wf(),
    ensures
        (r matches Ok(v) && playlist_briefs_resolved(*store, user.playlist_ids@, v@)),
{
    let mut out: Vec<PlaylistInfoBrief> = Vec::new();
    let n = user.playlist_ids.len();
    let ghost ids = user.playlist_ids@;
    let mut i: usize = 0;
    while i < n
        invariant
            i <= n,
            n == ids.len(),
            ids == user.playlist_ids@,
            store.wf(),
            playlist_briefs_resolved(*store, ids.take(i as int), out@),
        decreases n - i,
    {
        let id = user.playlist_ids[i];
        let ghost prev_out = out@;
        proof {
            lemma_resolved_playlists_step(*store, ids, i as int);
            assert(playlist_briefs_resolved(*store, ids.take(i as int), prev_out));
        }
        match Playlist::load_id(store, id) {
            Ok(playlist) => {
                match SoundCloudUser::load_id(store, playlist.sc_user_id) {
                    Ok(owner) => {
                        out.push(
                            PlaylistInfoBrief {
                                playlist_id: playlist.playlist_id,
                                length_ms: playlist.length_ms,
                                created_at: playlist.created_at,
                                title: playlist.title,
                                is_album: playlist.is_album,
                                num_tracks: playlist.num_tracks,
                                sc_user_id: owner.sc_user_id,
                                username: owner.username,
                            },
                        );
                        proof {
                            let pairs1 = resolved_playlists(*store, ids.take(i + 1 as int));
                            let pairs0 = resolved_playlists(*store, ids.take(i as int));
                            assert(playlist_resolvable(*store, id));
                            assert(pairs1 == pairs0.push(
                                (
                                    playlist_with_id(store.playlists(), id),
                                    sc_user_with_id(
                                        store.sc_users(),
                                        playlist_with_id(store.playlists(), id).sc_user_id,
                                    ),
                                ),
                            ));
                            assert forall|j: int|
                                0 <= j < out@.len() implies playlist_brief_of(
                                #[trigger] out@[j],
                                pairs1[j].0,
                                pairs1[j].1,
                            ) by {
                                if j < prev_out.len() {
                                    assert(playlist_brief_of(
                                        prev_out[j],
                                        pairs0[j].0,
                                        pairs0[j].1,
                                    ));
                                    assert(out@[j] == prev_out[j]);
                                    assert(pairs1[j] == pairs0[j]);
                                } else {
                                    assert(out@[j] == out@.last());
                                    assert(pairs1[j] == pairs1.last());
                                }
                            }
                            assert(playlist_briefs_resolved(*store, ids.take(i + 1 as int), out@));
                        }
                    },
                    Err(_) => {
                        proof {
                            assert(!playlist_resolvable(*store, id));
                            assert forall|j: int|
                                0 <= j < out@.len() implies playlist_brief_of(
                                #[trigger] out@[j],
                                resolved_playlists(*store, ids.take(i + 1 as int))[j].0,
                                resolved_playlists(*store, ids.take(i + 1 as int))[j].1,
                            ) by {
                                assert(playlist_brief_of(
                                    out@[j],
                                    resolved_playlists(*store, ids.take(i as int))[j].0,
                                    resolved_playlists(*store, ids.take(i as int))[j].1,
                                ));
                            }
                            assert(playlist_briefs_resolved(*store, ids.take(i + 1 as int), out@));
                        }
                    },
                }
            },
            Err(_) => {
                proof {
                    assert(!playlist_resolvable(*store, id));
                    assert forall|j: int|
                        0 <= j < out@.len() implies playlist_brief_of(
                        #[trigger] out@[j],
                        resolved_playlists(*store, ids.take(i + 1 as int))[j].0,
                        resolved_playlists(*store, ids.take(i + 1 as int))[j].1,
                    ) by {
                        assert(playlist_brief_of(
                            out@[j],
                            resolved_playlists(*store, ids.take(i as int))[j].0,
                            resolved_playlists(*store, ids.take(i as int))[j].1,
                        ));
                    }
                    assert(playlist_briefs_resolved(*store, ids.take(i + 1 as int), out@));
                }
            },
        }
        i = i + 1;
    }
    proof {
        assert(ids.take(n as int) =~= ids);
        assert(playlist_briefs_resolved(*store, ids, out@));
    }
    Ok(out)
}

/// The detailed playlist report faithfully reports the joined rows.
pub open spec fn playlist_long_of(info: PlaylistInfoLong, p: Playlist, u: SoundCloudUser) -> bool {
    &&& playlist_brief_of(info.brief_info, p, u)
    &&& info.track_ids@ == p.track_ids@
    &&& info.playlist_permalink_url == p.permalink_url
    &&& info.description == p.description
    &&& info.likes_count == p.likes_count
    &&& info.avatar_url == u.avatar_url
    &&& info.full_name == u.full_name
    &&& info.user_permalink_url == u.permalink_url
}

/// Detailed information for one playlist: the playlist row joined with its
/// owner's account row; fails with [`Error::NotFound`] exactly when either
/// row is missing.
pub fn playlist_info(_user: &User, store: &Store, id: i64) -> (r: Result<PlaylistInfoLong, Error>)
    requires
        store.wf(),
    ensures
        playlist_resolvable(*store, id) ==> (r matches Ok(info) && playlist_long_of(
            info,
            playlist_with_id(store.playlists(), id),
            sc_user_with_id(store.sc_users(), playlist_with_id(store.playlists(), id).sc_user_id),
        )),
        !playlist_resolvable(*store, id) ==> r == Err::<PlaylistInfoLong, Error>(Error::NotFound),
{
    let playlist = match Playlist::load_id(store, id) {
        Ok(p) => p,
        Err(_) => {
            return Err(Error::NotFound);
        },
    };
    let owner = match SoundCloudUser::load_id(store, playlist.sc_user_id) {
        Ok(u) => u,
        Err(_) => {
            return Err(Error::NotFound);
        },
    };
    Ok(
        PlaylistInfoLong {
            brief_info: PlaylistInfoBrief {
                playlist_id: playlist.playlist_id,
                length_ms: playlist.length_ms,
                created_at: playlist.created_at,
                title: playlist.title,
                is_album: playlist.is_album,
                num_tracks: playlist.num_tracks,
                sc_user_id: owner.sc_user_id,
                username: owner.username,
            },
            track_ids: playlist.track_ids,
            playlist_permalink_url: playlist.permalink_url,
            description: playlist.description,
            likes_count: playlist.likes_count,
            avatar_url: owner.avatar_url,
            full_name: owner.full_name,
            user_permalink_url: owner.permalink_url,
        },
    )
}

} // verus!

