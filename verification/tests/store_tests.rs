use zest_backend::api;
use zest_backend::{
    AuthCredentials, Playlist, RegisterInfo, Session, SoundCloudUser, Store, Track, User,
};

fn hash_password(password: &str) -> String {
    format!("test-hash$fixed-salt${}", password)
}

fn setup_test_user(store: &mut Store) -> (Session, RegisterInfo) {
    let rinfo = RegisterInfo { username: "testusername".into(), password: "testpass".into() };
    let (session, response) =
        api::register(store, Session::Anonymous, &rinfo, &hash_password(&rinfo.password));
    assert!(response.is_ok());
    (session, rinfo)
}

#[test]
fn clear_liked_tracks() {
    let mut store = Store::new();
    let (_session, rinfo) = setup_test_user(&mut store);

    {
        let mut user = User::load_username(&store, &rinfo.username).unwrap();

        let ids: Vec<i64> = vec![1, 2, 3];
        user.update_liked_track_ids(&mut store, &ids);
        user = User::load_username(&store, &rinfo.username).unwrap();
        assert_eq!(user.liked_track_ids, ids);
    }

    let user = User::load_username(&store, &rinfo.username).unwrap();
    let response = api::clear_liked_tracks(&user, &mut store);
    assert!(response.is_ok());

    {
        let user = User::load_username(&store, &rinfo.username).unwrap();

        let empty_vec: Vec<i64> = vec![];
        assert_eq!(user.liked_track_ids, empty_vec);
    }
}

#[test]
fn clear_playlists() {
    let mut store = Store::new();
    let (_session, rinfo) = setup_test_user(&mut store);

    {
        let mut user = User::load_username(&store, &rinfo.username).unwrap();

        let ids: Vec<i64> = vec![1, 2, 3];
        user.update_playlist_ids(&mut store, &ids);
        user = User::load_username(&store, &rinfo.username).unwrap();
        assert_eq!(user.playlist_ids, ids);
    }

    let user = User::load_username(&store, &rinfo.username).unwrap();
    let response = api::clear_playlists(&user, &mut store);
    assert!(response.is_ok());

    {
        let user = User::load_username(&store, &rinfo.username).unwrap();

        let empty_vec: Vec<i64> = vec![];
        assert_eq!(user.playlist_ids, empty_vec);
    }
}

#[test]
fn database_tables() {
    let mut store = Store::new();

    let track1 = Track {
        track_id: 847238,
        sc_user_id: 102832,
        length_ms: 4039482,
        created_at: "2019-09-10T16:07:05Z".into(),
        title: "Database Testing Track".into(),
        description: "This is a track for testing the database".into(),
        likes_count: 4838,
        playback_count: 30248,
        artwork_url: Some("https://thislinkisinvalid.com".into()),
        permalink_url: "https://thislinkisalsoinvalid.com".into(),
        download_url: Some("https://thetrack/download.mp3".into()),
    };

    let track2 = Track {
        track_id: 1028438,
        sc_user_id: 102832,
        length_ms: 2294884,
        created_at: "2019-09-17T06:29:59Z".into(),
        title: "Sick Banger".into(),
        description: "Does it need explanation??".into(),
        likes_count: 53828,
        playback_count: 9928732,
        artwork_url: Some("https://amazingbanger.dev".into()),
        permalink_url: "https://bangbang.com".into(),
        download_url: None,
    };

    let sc_user = SoundCloudUser {
        sc_user_id: 102832,
        avatar_url: Some("https://anotherbadurl.net".into()),
        full_name: "John Bayer".into(),
        username: "superdude".into(),
        permalink_url: "https://ohnoalinkthatdoesntwork.com".into(),
    };

    let playlist = Playlist {
        playlist_id: 82334,
        sc_user_id: 102832,
        track_ids: vec![track1.track_id, track2.track_id],
        num_tracks: 2,
        length_ms: 6334366,
        created_at: "2019-09-17T06:29:59Z".into(),
        title: "My Killer Tunes".into(),
        permalink_url: "https://sadfacefakelink.cupcake".into(),
        description: "This playlist slays dude. Play it in the car".into(),
        likes_count: 9238,
        is_album: false,
    };

    sc_user.create_new(&mut store);
    track1.create_new(&mut store, &sc_user);
    track2.create_new(&mut store, &sc_user);
    playlist.create_new(&mut store, &sc_user, &vec![track1.clone(), track2.clone()]);

    let loaded_sc_user = SoundCloudUser::load_id(&store, sc_user.sc_user_id).unwrap();
    let loaded_track1 = Track::load_id(&store, track1.track_id).unwrap();
    let loaded_track2 = Track::load_id(&store, track2.track_id).unwrap();
    let loaded_playlist = Playlist::load_id(&store, playlist.playlist_id).unwrap();

    assert_eq!(sc_user, loaded_sc_user);
    assert_eq!(track1, loaded_track1);
    assert_eq!(track2, loaded_track2);
    assert_eq!(playlist, loaded_playlist);
}

#[test]
fn auth_creds() {
    let mut store = Store::new();

    // Setting credentials without being logged in falls through to the
    // unauthenticated handler: a client-error response.
    let anonymous = Session::Anonymous;
    let nli = zest_backend::NotLoggedIn::from_session(&anonymous).unwrap();
    let (status, _) = api::not_logged_in_post(nli, "/api/set-auth-creds");
    assert_eq!(status, 401);

    let rinfo = RegisterInfo { username: "testusername".into(), password: "testpass".into() };
    let (_session, response) =
        api::register(&mut store, Session::Anonymous, &rinfo, &hash_password(&rinfo.password));
    assert!(response.is_ok());

    let auth_creds = AuthCredentials { oauth_token: "bla".into(), client_id: "bla2".into() };

    let user = User::load_username(&store, &rinfo.username).unwrap();
    let response = api::set_auth_creds(&user, &mut store, &auth_creds);
    assert!(response.is_ok());

    {
        let user = User::load_id(&store, 1).unwrap();

        assert_eq!(user.sc_oauth_token.unwrap(), auth_creds.oauth_token);
        assert_eq!(user.sc_client_id.unwrap(), auth_creds.client_id);
    }
}

#[test]
fn upsert_twice_keeps_first_row() {
    let mut store = Store::new();

    let owner = SoundCloudUser {
        sc_user_id: 5,
        avatar_url: None,
        full_name: "Owner".into(),
        username: "owner".into(),
        permalink_url: "https://example.invalid/owner".into(),
    };
    let first = Track {
        track_id: 10,
        sc_user_id: 5,
        length_ms: 1000,
        created_at: "2020-01-01T00:00:00Z".into(),
        title: "first title".into(),
        description: "first description".into(),
        likes_count: 1,
        playback_count: 2,
        artwork_url: None,
        permalink_url: "https://example.invalid/first".into(),
        download_url: None,
    };
    // Same primary key, different non-key fields.
    let second = Track { title: "second title".into(), likes_count: 99, ..first.clone() };

    first.create_new(&mut store, &owner);
    second.create_new(&mut store, &owner);

    // The second upsert was a no-op: the row keeps the first insert's fields.
    let loaded = Track::load_id(&store, 10).unwrap();
    assert_eq!(loaded, first);

    // Same for the owning account.
    let owner_again = SoundCloudUser { full_name: "Somebody Else".into(), ..owner.clone() };
    owner_again.create_new(&mut store);
    assert_eq!(SoundCloudUser::load_id(&store, 5).unwrap(), owner);
}

#[test]
fn update_liked_track_ids_drops_duplicates() {
    let mut store = Store::new();
    let (_session, rinfo) = setup_test_user(&mut store);

    let user = User::load_username(&store, &rinfo.username).unwrap();
    let ids: Vec<i64> = vec![7, 7, 8, 7, 9, 8];
    user.update_liked_track_ids(&mut store, &ids);

    let user = User::load_username(&store, &rinfo.username).unwrap();
    assert_eq!(user.liked_track_ids, vec![7, 8, 9]);
}

#[test]
fn load_missing_rows_fails() {
    let store = Store::new();
    assert!(Track::load_id(&store, 1).is_err());
    assert!(SoundCloudUser::load_id(&store, 1).is_err());
    assert!(Playlist::load_id(&store, 1).is_err());
    assert!(User::load_id(&store, 1).is_err());
}

#[test]
fn clear_liked_tracks_keeps_track_rows() {
    let mut store = Store::new();
    let (_session, rinfo) = setup_test_user(&mut store);

    // Ingest one liked track for the user.
    let owner = SoundCloudUser {
        sc_user_id: 5,
        avatar_url: None,
        full_name: "Owner".into(),
        username: "owner".into(),
        permalink_url: "https://example.invalid/owner".into(),
    };
    let track = Track {
        track_id: 10,
        sc_user_id: 5,
        length_ms: 1000,
        created_at: "2020-01-01T00:00:00Z".into(),
        title: "kept".into(),
        description: "kept".into(),
        likes_count: 0,
        playback_count: 0,
        artwork_url: None,
        permalink_url: "https://example.invalid/kept".into(),
        download_url: None,
    };
    track.create_new(&mut store, &owner);
    let user = User::load_username(&store, &rinfo.username).unwrap();
    user.update_liked_track_ids(&mut store, &vec![10]);

    // Clearing empties the user's liked-id set...
    let user = User::load_username(&store, &rinfo.username).unwrap();
    api::clear_liked_tracks(&user, &mut store).unwrap();
    let user = User::load_username(&store, &rinfo.username).unwrap();
    assert!(user.liked_track_ids.is_empty());

    // ...but the track row was not deleted: the detail lookup still works.
    let detail = api::track_info(&user, &store, 10).unwrap();
    assert_eq!(detail.brief_info.track_id, 10);
    assert_eq!(detail.brief_info.title, "kept");
}
