use vstd::prelude::*;

use crate::catalog::{has_playlist, has_sc_user, has_track};
use crate::database::{contains_id, dedup_ids, liked_ids_replaced, playlist_ids_replaced, Store};
use crate::errors::Error;
use crate::rows::{clone_opt_string, Playlist, SoundCloudUser, Track, User};

verus! {

/// A liked track as the fetcher hands it over: the track and the external
/// account that uploaded it.
pub struct FetchedLike {
    pub track: Track,
    pub owner: SoundCloudUser,
}

/// A playlist as the fetcher hands it over: the playlist, the external
/// account that created it, and its member tracks.
pub struct FetchedPlaylist {
    pub playlist: Playlist,
    pub owner: SoundCloudUser,
    pub tracks: Vec<Track>,
}

/// Everything the background ingestion task needs from the trigger request:
/// whose library to ingest, the credentials the fetcher runs with, and how
/// many recent likes and playlists to pull (`u64::MAX` means everything
/// available).
#[derive(Debug)]
pub struct ScrapeJob {
    pub user_id: i32,
    pub oauth_token: String,
    pub client_id: String,
    pub num_recent_likes: u64,
    pub num_recent_playlists: u64,
}

/// One of the fetched likes is the track with the given id.
pub open spec fn like_has_track(likes: Seq<FetchedLike>, id: i64) -> bool {
    exists|k: int| 0 <= k < likes.len() && (#[trigger] likes[k]).track.track_id == id
}

/// One of the fetched playlists has the track with the given id among its
/// members.
pub open spec fn playlists_have_track(pls: Seq<FetchedPlaylist>, id: i64) -> bool {
    exists|k: int| 0 <= k < pls.len() && has_track((#[trigger] pls[k]).tracks@, id)
}

/// One of the fetched playlists is the playlist with the given id.
pub open spec fn playlists_have_playlist(pls: Seq<FetchedPlaylist>, id: i64) -> bool {
    exists|k: int| 0 <= k < pls.len() && (#[trigger] pls[k]).playlist.playlist_id == id
}

/// The ids present in the track table grew from `base` to `cur` by exactly
/// the fetched like ids and member track ids.
pub open spec fn tracks_merged(
    base: Seq<Track>,
    cur: Seq<Track>,
    likes: Seq<FetchedLike>,
    pls: Seq<FetchedPlaylist>,
) -> bool {
    forall|id: i64|
        has_track(cur, id) == (has_track(base, id) || like_has_track(likes, id)
            || playlists_have_track(pls, id))
}

/// The ids present in the playlist table grew from `base` to `cur` by exactly
/// the fetched playlist ids.
pub open spec fn playlists_merged(
    base: Seq<Playlist>,
    cur: Seq<Playlist>,
    pls: Seq<FetchedPlaylist>,
) -> bool {
    forall|id: i64|
        has_playlist(cur, id) == (has_playlist(base, id) || playlists_have_playlist(pls, id))
}

/// The accumulator holds exactly its seed plus the fetched like ids.
pub open spec fn likes_accumulated(seed: Seq<i64>, acc: Seq<i64>, likes: Seq<FetchedLike>) -> bool {
    forall|y: i64| acc.contains(y) == (seed.contains(y) || like_has_track(likes, y))
}

/// The accumulator holds exactly its seed plus the fetched playlist ids.
pub open spec fn playlists_accumulated(
    seed: Seq<i64>,
    acc: Seq<i64>,
    pls: Seq<FetchedPlaylist>,
) -> bool {
    forall|y: i64| acc.contains(y) == (seed.contains(y) || playlists_have_playlist(pls, y))
}

proof fn lemma_like_push(likes: Seq<FetchedLike>, l: FetchedLike, id: i64)
    ensures
        like_has_track(likes.push(l), id) == (like_has_track(likes, id) || l.track.track_id == id),
{
    let grown = likes.push(l);
    if like_has_track(grown, id) {
        let k = choose|k: int| 0 <= k < grown.len() && (#[trigger] grown[k]).track.track_id == id;
        if k < likes.len() {
            assert(likes[k].track.track_id == id);
            assert(like_has_track(likes, id));
        } else {
            assert(grown[k] == l);
        }
    }
    if like_has_track(likes, id) {
        let k = choose|k: int| 0 <= k < likes.len() && (#[trigger] likes[k]).track.track_id == id;
        assert(grown[k].track.track_id == id);
        assert(like_has_track(grown, id));
    }
    if l.track.track_id == id {
        assert(grown[likes.len() as int].track.track_id == id);
        assert(like_has_track(grown, id));
    }
}

proof fn lemma_playlist_push(pls: Seq<FetchedPlaylist>, p: FetchedPlaylist, id: i64)
    ensures
        playlists_have_track(pls.push(p), id) == (playlists_have_track(pls, id) || has_track(
            p.tracks@,
            id,
        )),
        playlists_have_playlist(pls.push(p), id) == (playlists_have_playlist(pls, id)
            || p.playlist.playlist_id == id),
{
    let grown = pls.push(p);
    if playlists_have_track(grown, id) {
        let k = choose|k: int| 0 <= k < grown.len() && has_track((#[trigger] grown[k]).tracks@, id);
        if k < pls.len() {
            assert(has_track(pls[k].tracks@, id));
            assert(playlists_have_track(pls, id));
        } else {
            assert(grown[k] == p);
        }
    }
    if playlists_have_track(pls, id) {
        let k = choose|k: int| 0 <= k < pls.len() && has_track((#[trigger] pls[k]).tracks@, id);
        assert(has_track(grown[k].tracks@, id));
        assert(playlists_have_track(grown, id));
    }
    if has_track(p.tracks@, id) {
        assert(has_track(grown[pls.len() as int].tracks@, id));
        assert(playlists_have_track(grown, id));
    }
    if playlists_have_playlist(grown, id) {
        let k = choose|k: int|
            0 <= k < grown.len() && (#[trigger] grown[k]).playlist.playlist_id == id;
        if k < pls.len() {
            assert(pls[k].playlist.playlist_id == id);
            assert(playlists_have_playlist(pls, id));
        } else {
            assert(grown[k] == p);
        }
    }
    if playlists_have_playlist(pls, id) {
        let k = choose|k: int| 0 <= k < pls.len() && (#[trigger] pls[k]).playlist.playlist_id == id;
        assert(grown[k].playlist.playlist_id == id);
        assert(playlists_have_playlist(grown, id));
    }
    if p.playlist.playlist_id == id {
        assert(grown[pls.len() as int].playlist.playlist_id == id);
        assert(playlists_have_playlist(grown, id));
    }
}

/// A prefix of a prefix is a prefix.
proof fn lemma_take_trans<A>(a: Seq<A>, b: Seq<A>, c: Seq<A>)
    requires
        a.len() <= b.len() <= c.len(),
        b.take(a.len() as int) == a,
        c.take(b.len() as int) == b,
    ensures
        c.take(a.len() as int) == a,
{
    assert forall|k: int| 0 <= k < a.len() implies c.take(a.len() as int)[k] == a[k] by {
        assert(c.take(b.len() as int)[k] == b[k]);
        assert(b.take(a.len() as int)[k] == a[k]);
    }
    assert(c.take(a.len() as int) =~= a);
}

/// Appends an id to a duplicate-free accumulator unless it is already there.
fn insert_id(v: &mut Vec<i64>, x: i64)
    requires
        old(v)@.no_duplicates(),
    ensures
        final(v)@.no_duplicates(),
        forall|y: i64| final(v)@.contains(y) == (old(v)@.contains(y) || y == x),
{
    if !contains_id(v, x) {
        let ghost prev = v@;
        v.push(x);
        proof {
            assert forall|y: i64| v@.contains(y) == (prev.contains(y) || y == x) by {
                if v@.contains(y) {
                    let k = choose|k: int| 0 <= k < v@.len() && v@[k] == y;
                    if k < prev.len() {
                        assert(prev[k] == y);
                        assert(prev.contains(y));
                    } else {
                        assert(y == x);
                    }
                }
                if prev.contains(y) {
                    let k = choose|k: int| 0 <= k < prev.len() && prev[k] == y;
                    assert(v@[k] == y);
                    assert(v@.contains(y));
                }
                if y == x {
                    assert(v@[prev.len() as int] == y);
                    assert(v@.contains(y));
                }
            }
            assert forall|p: int, q: int| 0 <= p < q < v@.len() implies v@[p] != v@[q] by {
                if q < prev.len() {
                    assert(prev[p] != prev[q]);
                } else {
                    assert(v@[q] == x);
                    assert(v@[p] == prev[p]);
                    if prev[p] == x {
                        assert(prev.contains(x));
                        assert(false);
                    }
                }
            }
        }
    }
}

/// Validates a trigger request and packages the background ingestion task.
///
/// Fails synchronously with [`Error::ScAuthTokensNotPresent`] exactly when
/// the user has not stored both external-service credentials; no task is to
/// be spawned then, so no progress event is ever published for the trigger.
/// On success the job carries the user's credentials and the requested caps,
/// an absent cap meaning "everything available".
pub fn do_scraping(user: &User, num_recent_likes: Option<u64>, num_recent_playlists: Option<u64>)
    -> (r: Result<ScrapeJob, Error>)
    ensures
        match r {
            Ok(job) => {
                &&& user.sc_oauth_token is Some
                &&& user.sc_client_id is Some
                &&& job.user_id == user.user_id
                &&& job.oauth_token == user.sc_oauth_token->0
                &&& job.client_id == user.sc_client_id->0
                &&& job.num_recent_likes == (match num_recent_likes {
                    Some(n) => n,
                    None => u64::MAX,
                })
                &&& job.num_recent_playlists == (match num_recent_playlists {
                    Some(n) => n,
                    None => u64::MAX,
                })
            },
            Err(e) => {
                &&& e == Error::ScAuthTokensNotPresent
                &&& (user.sc_oauth_token is None || user.sc_client_id is None)
            },
        },
{
    let num_recent_likes: u64 = match num_recent_likes {
        Some(n) => n,
        None => u64::MAX,
    };
    let num_recent_playlists: u64 = match num_recent_playlists {
        Some(n) => n,
        None => u64::MAX,
    };
    let oauth_token = clone_opt_string(&user.sc_oauth_token);
    let client_id = clone_opt_string(&user.sc_client_id);
    match (oauth_token, client_id) {
        (Some(oauth_token), Some(client_id)) => Ok(
            ScrapeJob {
                user_id: user.user_id,
                oauth_token,
                client_id,
                num_recent_likes,
                num_recent_playlists,
            },
        ),
        _ => Err(Error::ScAuthTokensNotPresent),
    }
}

/// Upserts every fetched like (owner first, then track) and adds its id to
/// the accumulator. Pre-existing rows are left unmodified, and the track
/// table's ids grow by exactly the fetched like ids.
fn apply_likes(store: &mut Store, likes: &Vec<FetchedLike>, acc: &mut Vec<i64>)
    requires
        old(store).wf(),
        old(acc)@.no_duplicates(),
    ensures
        final(store).wf(),
        final(store).users() == old(store).users(),
        final(store).playlists() == old(store).playlists(),
        final(store).sc_users().len() >= old(store).sc_users().len(),
        final(store).sc_users().take(old(store).sc_users().len() as int) == old(store).sc_users(),
        final(store).tracks().len() >= old(store).tracks().len(),
        final(store).tracks().take(old(store).tracks().len() as int) == old(store).tracks(),
        tracks_merged(old(store).tracks(), final(store).tracks(), likes@, Seq::empty()),
        final(acc)@.no_duplicates(),
        likes_accumulated(old(acc)@, final(acc)@, likes@),
{
    let ghost users0 = store.users@;
    let ghost sc0 = store.sc_users@;
    let ghost pls0 = store.playlists@;
    let ghost tracks0 = store.tracks@;
    let ghost acc0 = acc@;
    let n = likes.len();
    let mut i: usize = 0;
    while i < n
        invariant
            i <= n,
            n == likes@.len(),
            store.wf(),
            store.users@ == users0,
            store.playlists@ == pls0,
            store.sc_users@.len() >= sc0.len(),
            store.sc_users@.take(sc0.len() as int) == sc0,
            store.tracks@.len() >= tracks0.len(),
            store.tracks@.take(tracks0.len() as int) == tracks0,
            tracks_merged(tracks0, store.tracks@, likes@.take(i as int), Seq::empty()),
            acc@.no_duplicates(),
            likes_accumulated(acc0, acc@, likes@.take(i as int)),
        decreases n - i,
    {
        let like = &likes[i];
        let ghost prevt = store.tracks@;
        let ghost prevsc = store.sc_users@;
        let ghost preva = acc@;
        like.track.create_new(store, &like.owner);
        insert_id(acc, like.track.track_id);
        proof {
            let l_now = likes@[i as int];
            let seen = likes@.take(i as int);
            let grown = likes@.take(i + 1 as int);
            assert(grown =~= seen.push(l_now));
            if !has_sc_user(prevsc, like.owner.sc_user_id) {
                assert(store.sc_users@.take(sc0.len() as int) =~= prevsc.take(sc0.len() as int));
            }
            if !has_track(prevt, like.track.track_id) {
                assert(store.tracks@.take(tracks0.len() as int) =~= prevt.take(
                    tracks0.len() as int,
                ));
            }
            assert(tracks_merged(tracks0, prevt, seen, Seq::empty()));
            assert forall|id: i64|
                has_track(store.tracks@, id) == (has_track(tracks0, id) || like_has_track(
                    grown,
                    id,
                ) || playlists_have_track(Seq::empty(), id)) by {
                lemma_like_push(seen, l_now, id);
                assert(like_has_track(grown, id) == like_has_track(seen.push(l_now), id));
                if !has_track(prevt, l_now.track.track_id) {
                    crate::catalog::lemma_has_track_push(prevt, l_now.track, id);
                    assert(has_track(store.tracks@, id) == has_track(prevt.push(l_now.track), id));
                } else {
                    if l_now.track.track_id == id {
                        assert(has_track(store.tracks@, id));
                    }
                }
                assert(has_track(prevt, id) == (has_track(tracks0, id) || like_has_track(seen, id)
                    || playlists_have_track(Seq::empty(), id)));
            }
            assert(tracks_merged(tracks0, store.tracks@, grown, Seq::empty()));
            assert(likes_accumulated(acc0, preva, seen));
            assert forall|y: i64|
                acc@.contains(y) == (acc0.contains(y) || like_has_track(grown, y)) by {
                lemma_like_push(seen, l_now, y);
                assert(like_has_track(grown, y) == like_has_track(seen.push(l_now), y));
                assert(preva.contains(y) == (acc0.contains(y) || like_has_track(seen, y)));
            }
            assert(likes_accumulated(acc0, acc@, grown));
        }
        i = i + 1;
    }
    proof {
        assert(likes@.take(n as int) =~= likes@);
        assert(likes@.take(i as int) == likes@);
        assert(tracks_merged(tracks0, store.tracks@, likes@, Seq::empty()));
        assert(likes_accumulated(acc0, acc@, likes@));
    }
}

/// Upserts every fetched playlist (owner, member tracks, then the playlist)
/// and adds its id to the accumulator. Pre-existing rows are left
/// unmodified; the track table's ids grow by exactly the fetched member
/// track ids and the playlist table's by exactly the fetched playlist ids.
fn apply_playlists(store: &mut Store, playlists: &Vec<FetchedPlaylist>, acc: &mut Vec<i64>)
    requires
        old(store).wf(),
        old(acc)@.no_duplicates(),
    ensures
        final(store).wf(),
        final(store).users() == old(store).users(),
        final(store).sc_users().len() >= old(store).sc_users().len(),
        final(store).sc_users().take(old(store).sc_users().len() as int) == old(store).sc_users(),
        final(store).tracks().len() >= old(store).tracks().len(),
        final(store).tracks().take(old(store).tracks().len() as int) == old(store).tracks(),
        tracks_merged(old(store).tracks(), final(store).tracks(), Seq::empty(), playlists@),
        final(store).playlists().len() >= old(store).playlists().len(),
        final(store).playlists().take(old(store).playlists().len() as int) == old(store).playlists(),
        playlists_merged(old(store).playlists(), final(store).playlists(), playlists@),
        final(acc)@.no_duplicates(),
        playlists_accumulated(old(acc)@, final(acc)@, playlists@),
{
    let ghost users0 = store.users@;
    let ghost sc0 = store.sc_users@;
    let ghost pls0 = store.playlists@;
    let ghost tracks0 = store.tracks@;
    let ghost acc0 = acc@;
    let n = playlists.len();
    let mut i: usize = 0;
    while i < n
        invariant
            i <= n,
            n == playlists@.len(),
            store.wf(),
            store.users@ == users0,
            store.sc_users@.len() >= sc0.len(),
            store.sc_users@.take(sc0.len() as int) == sc0,
            store.tracks@.len() >= tracks0.len(),
            store.tracks@.take(tracks0.len() as int) == tracks0,
            tracks_merged(tracks0, store.tracks@, Seq::empty(), playlists@.take(i as int)),
            store.playlists@.len() >= pls0.len(),
            store.playlists@.take(pls0.len() as int) == pls0,
            playlists_merged(pls0, store.playlists@, playlists@.take(i as int)),
            acc@.no_duplicates(),
            playlists_accumulated(acc0, acc@, playlists@.take(i as int)),
        decreases n - i,
    {
        let entry = &playlists[i];
        let ghost prevt = store.tracks@;
        let ghost prevsc = store.sc_users@;
        let ghost prevp = store.playlists@;
        let ghost preva = acc@;
        entry.playlist.create_new(store, &entry.owner, &entry.tracks);
        insert_id(acc, entry.playlist.playlist_id);
        proof {
            let p_now = playlists@[i as int];
            let seen = playlists@.take(i as int);
            let grown = playlists@.take(i + 1 as int);
            assert(grown =~= seen.push(p_now));
            if !has_sc_user(prevsc, entry.owner.sc_user_id) {
                assert(store.sc_users@.take(sc0.len() as int) =~= prevsc.take(sc0.len() as int));
            }
            lemma_take_trans(tracks0, prevt, store.tracks@);
            if !has_playlist(prevp, entry.playlist.playlist_id) {
                assert(store.playlists@.take(pls0.len() as int) =~= prevp.take(pls0.len() as int));
                assert(store.playlists@ =~= prevp.push(store.playlists@.last()));
            }
            assert(tracks_merged(tracks0, prevt, Seq::empty(), seen));
            assert forall|id: i64|
                has_track(store.tracks@, id) == (has_track(tracks0, id) || like_has_track(
                    Seq::empty(),
                    id,
                ) || playlists_have_track(grown, id)) by {
                lemma_playlist_push(seen, p_now, id);
                assert(playlists_have_track(grown, id) == playlists_have_track(
                    seen.push(p_now),
                    id,
                ));
                assert(has_track(store.tracks@, id) == (has_track(prevt, id) || has_track(
                    p_now.tracks@,
                    id,
                )));
                assert(has_track(prevt, id) == (has_track(tracks0, id) || like_has_track(
                    Seq::empty(),
                    id,
                ) || playlists_have_track(seen, id)));
            }
            assert(tracks_merged(tracks0, store.tracks@, Seq::empty(), grown));
            assert(playlists_merged(pls0, prevp, seen));
            assert forall|id: i64|
                has_playlist(store.playlists@, id) == (has_playlist(pls0, id)
                    || playlists_have_playlist(grown, id)) by {
                lemma_playlist_push(seen, p_now, id);
                assert(playlists_have_playlist(grown, id) == playlists_have_playlist(
                    seen.push(p_now),
                    id,
                ));
                if !has_playlist(prevp, p_now.playlist.playlist_id) {
                    crate::catalog::lemma_has_playlist_push(prevp, store.playlists@.last(), id);
                    assert(has_playlist(store.playlists@, id) == has_playlist(
                        prevp.push(store.playlists@.last()),
                        id,
                    ));
                    assert(store.playlists@.last().playlist_id == p_now.playlist.playlist_id);
                } else {
                    if p_now.playlist.playlist_id == id {
                        assert(has_playlist(store.playlists@, id));
                    }
                }
                assert(has_playlist(prevp, id) == (has_playlist(pls0, id)
                    || playlists_have_playlist(seen, id)));
            }
            assert(playlists_merged(pls0, store.playlists@, grown));
            assert(playlists_accumulated(acc0, preva, seen));
            assert forall|y: i64|
                acc@.contains(y) == (acc0.contains(y) || playlists_have_playlist(grown, y)) by {
                lemma_playlist_push(seen, p_now, y);
                assert(playlists_have_playlist(grown, y) == playlists_have_playlist(
                    seen.push(p_now),
                    y,
                ));
                assert(preva.contains(y) == (acc0.contains(y) || playlists_have_playlist(
                    seen,
                    y,
                )));
            }
            assert(playlists_accumulated(acc0, acc@, grown));
        }
        i = i + 1;
    }
    proof {
        assert(playlists@.take(n as int) =~= playlists@);
        assert(playlists@.take(i as int) == playlists@);
        assert(tracks_merged(tracks0, store.tracks@, Seq::empty(), playlists@));
        assert(playlists_merged(pls0, store.playlists@, playlists@));
        assert(playlists_accumulated(acc0, acc@, playlists@));
    }
}

/// How the triggering user's row looks after the task's write-back: the two
/// id lists hold exactly the snapshot's ids plus the fetched ids, without
/// duplicates, and every other field is unchanged.
pub open spec fn ingested_row(
    new: User,
    prev: User,
    snapshot: User,
    likes: Seq<FetchedLike>,
    playlists: Seq<FetchedPlaylist>,
) -> bool {
    &&& new.user_id == prev.user_id
    &&& new.hash == prev.hash
    &&& new.username == prev.username
    &&& new.sc_oauth_token == prev.sc_oauth_token
    &&& new.sc_client_id == prev.sc_client_id
    &&& new.liked_track_ids@.no_duplicates()
    &&& likes_accumulated(snapshot.liked_track_ids@, new.liked_track_ids@, likes)
    &&& new.playlist_ids@.no_duplicates()
    &&& playlists_accumulated(snapshot.playlist_ids@, new.playlist_ids@, playlists)
}

/// The body of the background ingestion task, run in one exclusive critical
/// section over the store.
///
/// For every fetched like it upserts the owning external account and the
/// track; for every fetched playlist the owning account, every member track
/// and the playlist; pre-existing rows are never modified. It then replaces
/// the user's two id lists wholesale with accumulators seeded from the
/// `user` snapshot taken at trigger time — so a list never loses the ids the
/// snapshot had, and re-running the task adds nothing new. (Two concurrent
/// tasks for one user both seed from their own snapshots and the last
/// write-back wins; mutual exclusion of triggers is deliberately not
/// provided.)
pub fn run_ingestion(
    store: &mut Store,
    user: &User,
    likes: &Vec<FetchedLike>,
    playlists: &Vec<FetchedPlaylist>,
)
    requires
        old(store).wf(),
    ensures
        final(store).wf(),
        final(store).sc_users().len() >= old(store).sc_users().len(),
        final(store).sc_users().take(old(store).sc_users().len() as int) == old(store).sc_users(),
        final(store).tracks().len() >= old(store).tracks().len(),
        final(store).tracks().take(old(store).tracks().len() as int) == old(store).tracks(),
        tracks_merged(old(store).tracks(), final(store).tracks(), likes@, playlists@),
        final(store).playlists().len() >= old(store).playlists().len(),
        final(store).playlists().take(old(store).playlists().len() as int) == old(store).playlists(),
        playlists_merged(old(store).playlists(), final(store).playlists(), playlists@),
        final(store).users().len() == old(store).users().len(),
        !(1 <= user.user_id <= old(store).users().len()) ==> final(store).users() == old(store).users(),
        1 <= user.user_id <= old(store).users().len() ==> {
            &&& forall|j: int|
                0 <= j < old(store).users().len() && j != user.user_id - 1 ==> final(store).users()[j] == old(store).users()[j]
            &&& ingested_row(
                final(store).users()[user.user_id - 1],
                old(store).users()[user.user_id - 1],
                *user,
                likes@,
                playlists@,
            )
        },
{
    // Seed the accumulators with the snapshot's ids, so the wholesale
    // write-back below never loses previously-ingested ids.
    let mut liked_ids = dedup_ids(&user.liked_track_ids);
    let mut playlist_ids = dedup_ids(&user.playlist_ids);
    let ghost liked_seed = liked_ids@;
    let ghost playlist_seed = playlist_ids@;

    let ghost s0 = *store;
    apply_likes(store, likes, &mut liked_ids);
    let ghost s1 = *store;
    user.update_liked_track_ids(store, &liked_ids);
    let ghost s2 = *store;
    apply_playlists(store, playlists, &mut playlist_ids);
    let ghost s3 = *store;
    user.update_playlist_ids(store, &playlist_ids);

    proof {
        // the steps that touch the other tables leave `users` alone and the
        // row updates leave the other tables alone, so the prefixes compose
        assert(s2.tracks@ == s1.tracks@);
        assert(store.tracks@ == s3.tracks@);
        lemma_take_trans(s0.tracks@, s1.tracks@, s3.tracks@);
        assert(s2.sc_users@ == s1.sc_users@);
        assert(store.sc_users@ == s3.sc_users@);
        lemma_take_trans(s0.sc_users@, s1.sc_users@, s3.sc_users@);
        assert(s1.playlists@ == s0.playlists@);
        assert(s2.playlists@ == s1.playlists@);
        assert(store.playlists@ == s3.playlists@);

        // presence composition for the track table
        assert(tracks_merged(s0.tracks@, s1.tracks@, likes@, Seq::empty()));
        assert(tracks_merged(s2.tracks@, s3.tracks@, Seq::empty(), playlists@));
        assert forall|id: i64|
            has_track(store.tracks@, id) == (has_track(s0.tracks@, id) || like_has_track(
                likes@,
                id,
            ) || playlists_have_track(playlists@, id)) by {
            assert(has_track(s1.tracks@, id) == (has_track(s0.tracks@, id) || like_has_track(
                likes@,
                id,
            ) || playlists_have_track(Seq::empty(), id)));
            assert(has_track(s3.tracks@, id) == (has_track(s2.tracks@, id) || like_has_track(
                Seq::empty(),
                id,
            ) || playlists_have_track(playlists@, id)));
        }
        assert(tracks_merged(s0.tracks@, store.tracks@, likes@, playlists@));

        // presence composition for the playlist table
        assert(playlists_merged(s2.playlists@, s3.playlists@, playlists@));
        assert forall|id: i64|
            has_playlist(store.playlists@, id) == (has_playlist(s0.playlists@, id)
                || playlists_have_playlist(playlists@, id)) by {
            assert(has_playlist(s3.playlists@, id) == (has_playlist(s2.playlists@, id)
                || playlists_have_playlist(playlists@, id)));
        }
        assert(playlists_merged(s0.playlists@, store.playlists@, playlists@));

        // the user rows: only the triggering user's row changes, and its two
        // id lists end up holding snapshot plus fetched ids
        assert(s1.users@ == s0.users@);
        assert(s3.users@ == s2.users@);
        if 1 <= user.user_id <= s0.users@.len() {
            let idx = user.user_id - 1;
            assert forall|j: int|
                0 <= j < s0.users@.len() && j != idx implies store.users@[j] == s0.users@[j] by {
                assert(s2.users@[j] == s1.users@[j]);
                assert(store.users@[j] == s3.users@[j]);
            }
            let row0 = s0.users@[idx];
            let row2 = s2.users@[idx];
            let row4 = store.users@[idx];
            assert(liked_ids_replaced(row2, row0, liked_ids@));
            assert(playlist_ids_replaced(row4, row2, playlist_ids@));

            assert(likes_accumulated(liked_seed, liked_ids@, likes@));
            assert forall|x: i64|
                row4.liked_track_ids@.contains(x) == (user.liked_track_ids@.contains(x)
                    || like_has_track(likes@, x)) by {
                assert(row4.liked_track_ids@ == row2.liked_track_ids@);
                assert(row2.liked_track_ids@.contains(x) == liked_ids@.contains(x));
                assert(liked_ids@.contains(x) == (liked_seed.contains(x) || like_has_track(
                    likes@,
                    x,
                )));
                assert(liked_seed.contains(x) == user.liked_track_ids@.contains(x));
            }
            assert(likes_accumulated(user.liked_track_ids@, row4.liked_track_ids@, likes@));

            assert(playlists_accumulated(playlist_seed, playlist_ids@, playlists@));
            assert forall|x: i64|
                row4.playlist_ids@.contains(x) == (user.playlist_ids@.contains(x)
                    || playlists_have_playlist(playlists@, x)) by {
                assert(row4.playlist_ids@.contains(x) == playlist_ids@.contains(x));
                assert(playlist_ids@.contains(x) == (playlist_seed.contains(x)
                    || playlists_have_playlist(playlists@, x)));
                assert(playlist_seed.contains(x) == user.playlist_ids@.contains(x));
            }
            assert(playlists_accumulated(user.playlist_ids@, row4.playlist_ids@, playlists@));
        }
    }
}

} // verus!
