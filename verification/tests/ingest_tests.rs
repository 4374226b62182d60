use zest_backend::api;
use zest_backend::ingest;
use zest_backend::progress::ProgressChannel;
use zest_backend::{
    AuthCredentials, Error, FetchedLike, RegisterInfo, Session, SoundCloudUser, Store, Track, User,
};

fn hash_password(password: &str) -> String {
    format!("test-hash$fixed-salt${}", password)
}

fn sample_owner(sc_user_id: i64) -> SoundCloudUser {
    SoundCloudUser {
        sc_user_id,
        avatar_url: None,
        full_name: "Sample Owner".into(),
        username: "sampleowner".into(),
        permalink_url: "https://example.invalid/owner".into(),
    }
}

fn sample_track(track_id: i64, sc_user_id: i64) -> Track {
    Track {
        track_id,
        sc_user_id,
        length_ms: 60000,
        created_at: "2020-05-01T12:00:00Z".into(),
        title: format!("Track {}", track_id),
        description: "a sample track".into(),
        likes_count: 3,
        playback_count: 14,
        artwork_url: None,
        permalink_url: format!("https://example.invalid/track/{}", track_id),
        download_url: None,
    }
}

/// The scenario: a user registers, sets credentials, triggers ingestion for
/// two likes and no playlists; the fetcher returns tracks 10 and 11 owned by
/// external account 5; after the task completes, the liked-track listing
/// holds exactly those two tracks and a detail lookup for track 10 succeeds.
#[test]
fn ingestion_scenario_two_likes() {
    let mut store = Store::new();

    let rinfo = RegisterInfo { username: "alice".into(), password: "pw1".into() };
    let (_session, response) =
        api::register(&mut store, Session::Anonymous, &rinfo, &hash_password(&rinfo.password));
    assert!(response.is_ok());

    let user = User::load_username(&store, "alice").unwrap();
    let creds = AuthCredentials { oauth_token: "token".into(), client_id: "client".into() };
    api::set_auth_creds(&user, &mut store, &creds).unwrap();

    // Trigger: the synchronous part validates and packages the job.
    let user = User::load_username(&store, "alice").unwrap();
    let job = ingest::do_scraping(&user, Some(2), Some(0)).unwrap();
    assert_eq!(job.user_id, user.user_id);
    assert_eq!(job.num_recent_likes, 2);
    assert_eq!(job.num_recent_playlists, 0);
    assert_eq!(job.oauth_token, "token");
    assert_eq!(job.client_id, "client");

    // The task body: what the fetcher returned gets merged into the store.
    let likes = vec![
        FetchedLike { track: sample_track(10, 5), owner: sample_owner(5) },
        FetchedLike { track: sample_track(11, 5), owner: sample_owner(5) },
    ];
    ingest::run_ingestion(&mut store, &user, &likes, &vec![]);

    let user = User::load_username(&store, "alice").unwrap();
    let mut liked = user.liked_track_ids.clone();
    liked.sort();
    assert_eq!(liked, vec![10, 11]);

    let briefs = api::liked_tracks(&user, &store).unwrap();
    let mut listed: Vec<i64> = briefs.iter().map(|b| b.track_id).collect();
    listed.sort();
    assert_eq!(listed, vec![10, 11]);

    let detail = api::track_info(&user, &store, 10).unwrap();
    assert_eq!(detail.brief_info.track_id, 10);
    assert_eq!(detail.brief_info.sc_user_id, 5);
    assert_eq!(detail.brief_info.title, "Track 10");
}

/// The scenario: triggering ingestion without stored credentials fails
/// synchronously, no task is spawned, and no progress event is ever
/// published for the trigger.
#[test]
fn ingestion_without_credentials() {
    let mut store = Store::new();
    let mut sse = ProgressChannel::new();

    let rinfo = RegisterInfo { username: "bob".into(), password: "pw".into() };
    let (_session, response) =
        api::register(&mut store, Session::Anonymous, &rinfo, &hash_password(&rinfo.password));
    assert!(response.is_ok());

    // The user opens a push subscription, waiting for events.
    let user = User::load_username(&store, "bob").unwrap();
    let token = api::sse_auth_token(&user, &mut sse).unwrap();
    let token_value: u64 = token.parse().unwrap();
    sse.subscribe(user.user_id, token_value).unwrap();

    // The trigger fails synchronously: no credentials were stored.
    let err = ingest::do_scraping(&user, Some(1), Some(1)).unwrap_err();
    assert_eq!(err, Error::ScAuthTokensNotPresent);
    assert_eq!(err.status(), 500);

    // No task ran, so nothing was ever published for this user.
    let events = sse.take_events(user.user_id);
    assert!(events.is_empty());
}

/// Ingestion seeds from the user's current ids, so previously-ingested ids
/// survive a later run, and re-running with the same fetch adds nothing.
#[test]
fn ingestion_keeps_previous_ids() {
    let mut store = Store::new();

    let rinfo = RegisterInfo { username: "carol".into(), password: "pw".into() };
    let (_session, response) =
        api::register(&mut store, Session::Anonymous, &rinfo, &hash_password(&rinfo.password));
    assert!(response.is_ok());

    let first = vec![FetchedLike { track: sample_track(21, 5), owner: sample_owner(5) }];
    let user = User::load_username(&store, "carol").unwrap();
    ingest::run_ingestion(&mut store, &user, &first, &vec![]);

    // A later run with a fresh snapshot sees the earlier id in its seed.
    let second = vec![FetchedLike { track: sample_track(22, 5), owner: sample_owner(5) }];
    let user = User::load_username(&store, "carol").unwrap();
    ingest::run_ingestion(&mut store, &user, &second, &vec![]);

    let user = User::load_username(&store, "carol").unwrap();
    let mut liked = user.liked_track_ids.clone();
    liked.sort();
    assert_eq!(liked, vec![21, 22]);

    // Re-running with the same fetch is idempotent on the id set.
    ingest::run_ingestion(&mut store, &user, &second, &vec![]);
    let user = User::load_username(&store, "carol").unwrap();
    let mut liked = user.liked_track_ids.clone();
    liked.sort();
    assert_eq!(liked, vec![21, 22]);
}

/// Ingesting a playlist upserts the owner, the member tracks and the
/// playlist row, and records the playlist id on the user.
#[test]
fn ingestion_with_playlist() {
    let mut store = Store::new();

    let rinfo = RegisterInfo { username: "dave".into(), password: "pw".into() };
    let (_session, response) =
        api::register(&mut store, Session::Anonymous, &rinfo, &hash_password(&rinfo.password));
    assert!(response.is_ok());

    let members = vec![sample_track(31, 5), sample_track(32, 5)];
    let playlist = zest_backend::Playlist {
        playlist_id: 300,
        sc_user_id: 5,
        track_ids: vec![31, 32],
        num_tracks: 2,
        length_ms: 120000,
        created_at: "2020-06-01T00:00:00Z".into(),
        title: "Mix".into(),
        permalink_url: "https://example.invalid/playlist/300".into(),
        description: "a mix".into(),
        likes_count: 0,
        is_album: false,
    };
    let fetched = vec![zest_backend::FetchedPlaylist {
        playlist,
        owner: sample_owner(5),
        tracks: members,
    }];

    let user = User::load_username(&store, "dave").unwrap();
    ingest::run_ingestion(&mut store, &user, &vec![], &fetched);

    let user = User::load_username(&store, "dave").unwrap();
    assert_eq!(user.playlist_ids, vec![300]);
    assert!(user.liked_track_ids.is_empty());

    // The member tracks and the playlist are in the catalog now.
    assert!(Track::load_id(&store, 31).is_ok());
    assert!(Track::load_id(&store, 32).is_ok());
    let listing = api::liked_and_owned_playlists(&user, &store).unwrap();
    assert_eq!(listing.len(), 1);
    assert_eq!(listing[0].playlist_id, 300);
    assert_eq!(listing[0].username, "sampleowner");

    let detail = api::playlist_info(&user, &store, 300).unwrap();
    assert_eq!(detail.brief_info.playlist_id, 300);
    assert_eq!(detail.track_ids, vec![31, 32]);
}

/// An absent cap means "everything available".
#[test]
fn do_scraping_defaults_to_unlimited() {
    let user = User {
        user_id: 1,
        hash: "h".into(),
        username: "eve".into(),
        sc_oauth_token: Some("t".into()),
        sc_client_id: Some("c".into()),
        liked_track_ids: vec![],
        playlist_ids: vec![],
    };
    let job = ingest::do_scraping(&user, None, None).unwrap();
    assert_eq!(job.num_recent_likes, u64::MAX);
    assert_eq!(job.num_recent_playlists, u64::MAX);
}
