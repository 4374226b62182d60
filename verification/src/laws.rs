use vstd::prelude::*;

use crate::catalog::{
    has_playlist, has_sc_user, has_track, playlist_ids_unique, sc_user_ids_unique, sc_user_index,
    sc_user_with_id, track_ids_unique, track_index, track_with_id,
};
use crate::database::{
    has_username, is_fresh_user, liked_ids_replaced, user_named, username_index, Store,
};
use crate::rows::{playlist_eqv, Playlist, SoundCloudUser, Track, User};

verus! {

// ---------------------------------------------------------------------------
// Registration and login
// ---------------------------------------------------------------------------

/// Registering a free username and then logging in with the same credentials
/// succeeds and yields the same user id.
///
/// The hypotheses are what `register`'s postcondition says of a store into
/// which a fresh username was registered. The conclusions feed `login`'s
/// postcondition: the lookup by that username finds exactly the new row, so
/// a login whose password verified against the stored hash returns `Ok` with
/// the registered id — and, by `login`'s own postcondition, a login whose
/// password did not verify fails with `Error::LoginFailed`.
pub proof fn lemma_register_then_login(
    pre: Store,
    post: Store,
    username: Seq<char>,
    hash: Seq<char>,
)
    requires
        pre.wf(),
        post.wf(),
        !has_username(pre.users(), username),
        post.users().len() == pre.users().len() + 1,
        post.users().take(pre.users().len() as int) == pre.users(),
        is_fresh_user(post.users().last(), pre.users().len() as int + 1, username, hash),
    ensures
        has_username(post.users(), username),
        user_named(post.users(), username).user_id == pre.users().len() + 1,
        user_named(post.users(), username).hash@ == hash,
{
    let users = post.users();
    let n = pre.users().len() as int;
    assert(users[n] == users.last());
    assert(users[n].username@ == username);
    assert(has_username(users, username));
    let k = username_index(users, username);
    assert(0 <= k < users.len() && users[k].username@ == username);
    if k != n {
        assert(crate::database::usernames_unique(users));
        assert(false);
    }
}

/// Registering a second account under an already-taken username leaves the
/// username taken, so the second `register` fails with
/// `Error::UserAlreadyExists` by its own postcondition; and a username that
/// was free and differs from the one just registered stays free, so a second
/// account whose username differs succeeds whatever its password is — in
/// particular one that reuses the first account's password.
pub proof fn lemma_second_registration(
    pre: Store,
    post: Store,
    username: Seq<char>,
    hash: Seq<char>,
    other: Seq<char>,
)
    requires
        pre.wf(),
        post.wf(),
        !has_username(pre.users(), username),
        post.users().len() == pre.users().len() + 1,
        post.users().take(pre.users().len() as int) == pre.users(),
        is_fresh_user(post.users().last(), pre.users().len() as int + 1, username, hash),
        other != username,
        !has_username(pre.users(), other),
    ensures
        has_username(post.users(), username),
        !has_username(post.users(), other),
{
    lemma_register_then_login(pre, post, username, hash);
    if has_username(post.users(), other) {
        let k = choose|k: int|
            0 <= k < post.users().len() && (#[trigger] post.users()[k]).username@ == other;
        if k < pre.users().len() {
            assert(post.users().take(pre.users().len() as int)[k] == post.users()[k]);
            assert(pre.users()[k].username@ == other);
            assert(has_username(pre.users(), other));
            assert(false);
        } else {
            assert(post.users()[k] == post.users().last());
            assert(false);
        }
    }
}

// ---------------------------------------------------------------------------
// Upsert idempotence
// ---------------------------------------------------------------------------

/// A track table that grew only by appending, without adding any new id,
/// did not grow at all.
proof fn lemma_tracks_no_growth(mid: Seq<Track>, post: Seq<Track>)
    requires
        track_ids_unique(post),
        post.len() >= mid.len(),
        post.take(mid.len() as int) == mid,
        forall|id: i64| has_track(post, id) ==> has_track(mid, id),
    ensures
        post == mid,
{
    if post.len() > mid.len() {
        let j = mid.len() as int;
        let id = post[j].track_id;
        assert(has_track(post, id));
        assert(has_track(mid, id));
        let k = choose|k: int| 0 <= k < mid.len() && (#[trigger] mid[k]).track_id == id;
        assert(post.take(mid.len() as int)[k] == mid[k]);
        assert(post[k].track_id == id);
        assert(false);
    }
    assert(post =~= mid);
}

/// Upserting the same external account twice is a no-op on the second call:
/// after the first call the id is present, so the second call's own
/// postcondition leaves the table untouched — and the row the id resolves to
/// keeps the fields of the first insert.
pub proof fn lemma_sc_user_upsert_idempotent(pre: Store, mid: Store, u: SoundCloudUser)
    requires
        pre.wf(),
        mid.wf(),
        has_sc_user(pre.sc_users(), u.sc_user_id) ==> mid.sc_users() == pre.sc_users(),
        !has_sc_user(pre.sc_users(), u.sc_user_id) ==> mid.sc_users() == pre.sc_users().push(u),
    ensures
        has_sc_user(mid.sc_users(), u.sc_user_id),
        has_sc_user(pre.sc_users(), u.sc_user_id) ==> sc_user_with_id(
            mid.sc_users(),
            u.sc_user_id,
        ) == sc_user_with_id(pre.sc_users(), u.sc_user_id),
        !has_sc_user(pre.sc_users(), u.sc_user_id) ==> sc_user_with_id(
            mid.sc_users(),
            u.sc_user_id,
        ) == u,
{
    if has_sc_user(pre.sc_users(), u.sc_user_id) {
        assert(has_sc_user(mid.sc_users(), u.sc_user_id));
    } else {
        let s = mid.sc_users();
        let n = pre.sc_users().len() as int;
        assert(s[n] == u);
        assert(has_sc_user(s, u.sc_user_id));
        let k = sc_user_index(s, u.sc_user_id);
        assert(0 <= k < s.len() && s[k].sc_user_id == u.sc_user_id);
        if k != n {
            assert(sc_user_ids_unique(s));
            assert(false);
        }
    }
}

/// Upserting the same track twice (same primary key) is a no-op on the
/// second call: after the first call the id is present, so the second call's
/// own postcondition leaves the track table untouched — and the row the id
/// resolves to keeps the non-key fields of the first insert.
pub proof fn lemma_track_upsert_idempotent(pre: Store, mid: Store, t: Track)
    requires
        pre.wf(),
        mid.wf(),
        has_track(pre.tracks(), t.track_id) ==> mid.tracks() == pre.tracks(),
        !has_track(pre.tracks(), t.track_id) ==> mid.tracks() == pre.tracks().push(t),
    ensures
        has_track(mid.tracks(), t.track_id),
        has_track(pre.tracks(), t.track_id) ==> track_with_id(mid.tracks(), t.track_id)
            == track_with_id(pre.tracks(), t.track_id),
        !has_track(pre.tracks(), t.track_id) ==> track_with_id(mid.tracks(), t.track_id) == t,
{
    if has_track(pre.tracks(), t.track_id) {
        assert(has_track(mid.tracks(), t.track_id));
    } else {
        let s = mid.tracks();
        let n = pre.tracks().len() as int;
        assert(s[n] == t);
        assert(has_track(s, t.track_id));
        let k = track_index(s, t.track_id);
        assert(0 <= k < s.len() && s[k].track_id == t.track_id);
        if k != n {
            assert(track_ids_unique(s));
            assert(false);
        }
    }
}

/// Upserting the same playlist twice (same playlist, owner and member
/// tracks) is a no-op on the second call: the second call's postcondition,
/// combined with the presence the first call established, forces every table
/// it touches to come out unchanged.
pub proof fn lemma_playlist_upsert_idempotent(
    pre: Store,
    mid: Store,
    post: Store,
    p: Playlist,
    u: SoundCloudUser,
    members: Seq<Track>,
)
    requires
        pre.wf(),
        mid.wf(),
        post.wf(),
        // what the first call's postcondition says
        has_sc_user(pre.sc_users(), u.sc_user_id) ==> mid.sc_users() == pre.sc_users(),
        !has_sc_user(pre.sc_users(), u.sc_user_id) ==> mid.sc_users() == pre.sc_users().push(u),
        mid.tracks().len() >= pre.tracks().len(),
        mid.tracks().take(pre.tracks().len() as int) == pre.tracks(),
        forall|id: i64|
            has_track(mid.tracks(), id) == (has_track(pre.tracks(), id) || has_track(members, id)),
        has_playlist(pre.playlists(), p.playlist_id) ==> mid.playlists() == pre.playlists(),
        !has_playlist(pre.playlists(), p.playlist_id) ==> {
            &&& mid.playlists().len() == pre.playlists().len() + 1
            &&& mid.playlists().take(pre.playlists().len() as int) == pre.playlists()
            &&& playlist_eqv(mid.playlists().last(), p)
        },
        // what the second call's postcondition says
        has_sc_user(mid.sc_users(), u.sc_user_id) ==> post.sc_users() == mid.sc_users(),
        !has_sc_user(mid.sc_users(), u.sc_user_id) ==> post.sc_users() == mid.sc_users().push(u),
        post.tracks().len() >= mid.tracks().len(),
        post.tracks().take(mid.tracks().len() as int) == mid.tracks(),
        forall|id: i64|
            has_track(post.tracks(), id) == (has_track(mid.tracks(), id) || has_track(
                members,
                id,
            )),
        has_playlist(mid.playlists(), p.playlist_id) ==> post.playlists() == mid.playlists(),
    ensures
        post.sc_users() == mid.sc_users(),
        post.tracks() == mid.tracks(),
        post.playlists() == mid.playlists(),
{
    lemma_sc_user_upsert_idempotent(pre, mid, u);
    assert forall|id: i64| has_track(post.tracks(), id) implies has_track(mid.tracks(), id) by {
        assert(has_track(mid.tracks(), id) == (has_track(pre.tracks(), id) || has_track(
            members,
            id,
        )));
    }
    lemma_tracks_no_growth(mid.tracks(), post.tracks());
    if has_playlist(pre.playlists(), p.playlist_id) {
        assert(has_playlist(mid.playlists(), p.playlist_id));
    } else {
        let s = mid.playlists();
        let n = pre.playlists().len() as int;
        assert(s[n] == s.last());
        assert(s[n].playlist_id == p.playlist_id);
        assert(has_playlist(s, p.playlist_id));
    }
}

// ---------------------------------------------------------------------------
// Clearing liked ids keeps the rows
// ---------------------------------------------------------------------------

/// Emptying a user's liked-track id list deletes no track: a detail lookup
/// for a previously-liked track id still resolves to the very same rows.
///
/// The hypotheses are what `clear_liked_tracks`'s postcondition says; the
/// conclusions feed `track_info`'s postcondition on the cleared store.
pub proof fn lemma_clear_keeps_track_detail(pre: Store, post: Store, u: User, id: i64)
    requires
        pre.wf(),
        post.wf(),
        post.sc_users() == pre.sc_users(),
        post.tracks() == pre.tracks(),
        post.playlists() == pre.playlists(),
        1 <= u.user_id <= pre.users().len(),
        post.users().len() == pre.users().len(),
        liked_ids_replaced(
            post.users()[u.user_id - 1],
            pre.users()[u.user_id - 1],
            Seq::<i64>::empty(),
        ),
    ensures
        post.users()[u.user_id - 1].liked_track_ids@ == Seq::<i64>::empty(),
        crate::api::track_resolvable(post, id) == crate::api::track_resolvable(pre, id),
        crate::api::track_resolvable(pre, id) ==> track_with_id(post.tracks(), id) == track_with_id(
            pre.tracks(),
            id,
        ),
{
    assert(Seq::<i64>::empty().no_duplicates());
    assert(post.users()[u.user_id - 1].liked_track_ids@ == Seq::<i64>::empty());
}

} // verus!
