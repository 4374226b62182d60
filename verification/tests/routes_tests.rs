use zest_backend::api;
use zest_backend::progress::ProgressChannel;
use zest_backend::{Error, RegisterInfo, Session, Store, User};

fn hash_password(password: &str) -> String {
    format!("test-hash$fixed-salt${}", password)
}

fn setup_test_user(store: &mut Store) -> User {
    let rinfo = RegisterInfo { username: "testusername".into(), password: "testpass".into() };
    let (_, response) =
        api::register(store, Session::Anonymous, &rinfo, &hash_password(&rinfo.password));
    assert!(response.is_ok());
    User::load_username(store, &rinfo.username).unwrap()
}

#[test]
fn non_existent_api_route() {
    let mut store = Store::new();
    let user = setup_test_user(&mut store);

    // Make request to API get route that doesn't exist
    let (status, err) = api::non_existent_api_get(&user, "/api/something-that-doesnt-exist");
    assert_eq!(status, 400);
    assert_eq!(err.tag(), "NonExistentApiRoute");

    // Make request to API post route that doesn't exist
    let (status, err) = api::non_existent_api_post(&user, "/api/something-that-doesnt-exist");
    assert_eq!(status, 400);
    assert_eq!(err.tag(), "NonExistentApiRoute");

    // The JSON body is exactly the quoted tag.
    assert_eq!(err.to_json(), "\"NonExistentApiRoute\"");
}

#[test]
fn error_tags_and_statuses() {
    let cases = [
        (Error::UserAlreadyExists, "UserAlreadyExists", 500),
        (Error::ScAuthTokensNotPresent, "ScAuthTokensNotPresent", 500),
        (Error::LoginFailed, "LoginFailed", 500),
        (Error::NotLoggedIn, "NotLoggedIn", 401),
        (Error::NonExistentApiRoute, "NonExistentApiRoute", 400),
        (Error::OrangeZestErr, "OrangeZestErr", 500),
        (Error::NotFound, "NotFound", 404),
        (Error::InvalidToken, "InvalidToken", 401),
    ];
    for (err, tag, status) in cases {
        assert_eq!(err.tag(), tag);
        assert_eq!(err.to_json(), format!("\"{}\"", tag));
        assert_eq!(err.status(), status);
    }
}

#[test]
fn unauthenticated_routes_are_unauthorized() {
    let session = Session::Anonymous;
    let nli = zest_backend::NotLoggedIn::from_session(&session).unwrap();
    let (status, err) = api::not_logged_in_get(nli, "/api/liked-tracks");
    assert_eq!((status, err), (401, Error::NotLoggedIn));

    let nli = zest_backend::NotLoggedIn::from_session(&session).unwrap();
    let (status, err) = api::not_logged_in_post(nli, "/api/clear-playlists");
    assert_eq!((status, err), (401, Error::NotLoggedIn));

    // A logged-in session never produces the anonymous guard.
    assert!(zest_backend::NotLoggedIn::from_session(&Session::LoggedIn(1)).is_none());
}

#[test]
fn not_found_serves_the_index() {
    assert_eq!(api::not_found(), "frontend/public/index.html");
}

#[test]
fn stale_session_fails_to_resolve() {
    let store = Store::new();
    match User::from_session(&store, &Session::LoggedIn(7)) {
        zest_backend::Auth::Failure(e) => assert_eq!(e, Error::NotFound),
        _ => panic!("a stale cookie must fail to resolve"),
    }
}

#[test]
fn sse_auth_token_binds_the_user() {
    let mut store = Store::new();
    let mut sse = ProgressChannel::new();
    let user = setup_test_user(&mut store);

    let token = api::sse_auth_token(&user, &mut sse).unwrap();
    let token_value: u64 = token.parse().unwrap();

    // The minted token opens a subscription for its user...
    assert!(sse.subscribe(user.user_id, token_value).is_ok());
    // ...but not for anybody else.
    let err = sse.subscribe(user.user_id + 1, token_value).unwrap_err();
    assert_eq!(err, Error::InvalidToken);
    assert_eq!(err.status(), 401);
}
