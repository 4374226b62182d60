use zest_backend::api;
use zest_backend::{Error, LoginInfo, RegisterInfo, Session, Store, User, UserInfo};

/// Stand-in for the password-hash collaborator: a self-describing salted
/// encoding, deterministic so that tests can verify round trips.
fn hash_password(password: &str) -> String {
    format!("test-hash$fixed-salt${}", password)
}

/// Stand-in verifier: a password matches a hash exactly when hashing it the
/// same way reproduces the hash.
fn verify_password(hash: &str, password: &str) -> bool {
    hash == hash_password(password)
}

#[test]
fn login_flow() {
    let mut store = Store::new();

    let rinfo = RegisterInfo { username: "testusername".into(), password: "testpass".into() };

    // First, we register a user
    let (session, response) = api::register(
        &mut store,
        Session::Anonymous,
        &rinfo,
        &hash_password(&rinfo.password),
    );
    let user_info = response.unwrap();
    assert_eq!(&user_info.username, &rinfo.username);

    // We observe that requests to authorized routes work
    let me_user = match User::from_session(&store, &session) {
        zest_backend::Auth::Authenticated(u) => u,
        _ => panic!("expected an authenticated session"),
    };
    let user_info_from_me = api::me_authed(me_user);
    assert_eq!(&user_info_from_me, &user_info);

    // We log out
    let (session, status) = api::logout(session);
    assert_eq!(status, 200);

    // We observe that requests to authorized routes fail
    match User::from_session(&store, &session) {
        zest_backend::Auth::Anonymous => {}
        _ => panic!("expected an anonymous session"),
    }
    let nli = zest_backend::NotLoggedIn::from_session(&session).unwrap();
    let (status, err) = api::me(nli);
    assert_eq!(status, 401);
    assert_eq!(err, Error::NotLoggedIn);
}

#[test]
fn login_nonexistent_username() {
    let store = Store::new();

    let login_info = LoginInfo { username: "test".into(), password: "whatever".into() };
    // No row to verify against, so the collaborator's verdict is false.
    let (_, response): (Session, Result<UserInfo, Error>) =
        api::login(&store, Session::Anonymous, &login_info, false);

    let err = response.unwrap_err();
    assert_eq!(err.status(), 500);
    assert_eq!(err.tag(), "LoginFailed");
}

#[test]
fn cannot_create_with_same_username() {
    let mut store = Store::new();

    let rinfo = RegisterInfo { username: "testusername".into(), password: "testpass".into() };
    let rinfo2 = RegisterInfo { username: "testusername".into(), password: "testpass2".into() };

    // Register first user
    let (_, response) =
        api::register(&mut store, Session::Anonymous, &rinfo, &hash_password(&rinfo.password));
    assert!(response.is_ok());

    // Attempt to register second
    let (_, response) =
        api::register(&mut store, Session::Anonymous, &rinfo2, &hash_password(&rinfo2.password));
    let err = response.unwrap_err();
    assert_eq!(err, Error::UserAlreadyExists);
    assert_eq!(err.status(), 500);
}

#[test]
fn can_create_with_same_password() {
    let mut store = Store::new();

    let common_password = "testpass";
    let rinfo = RegisterInfo { username: "someusername".into(), password: common_password.into() };
    let rinfo2 =
        RegisterInfo { username: "someotherusername".into(), password: common_password.into() };

    // Register first user
    let (_, response) =
        api::register(&mut store, Session::Anonymous, &rinfo, &hash_password(&rinfo.password));
    assert!(response.is_ok());

    // Register second
    let (_, response) =
        api::register(&mut store, Session::Anonymous, &rinfo2, &hash_password(&rinfo2.password));
    assert!(response.is_ok());
}

#[test]
fn register_then_login_same_credentials() {
    let mut store = Store::new();

    let rinfo = RegisterInfo { username: "alice".into(), password: "pw1".into() };
    let (_, response) =
        api::register(&mut store, Session::Anonymous, &rinfo, &hash_password(&rinfo.password));
    let registered = response.unwrap();

    // Log in with the same credentials: look the hash up the way the HTTP
    // layer would, hand it to the verifier, and pass its verdict in.
    let login_info = LoginInfo { username: "alice".into(), password: "pw1".into() };
    let stored = User::load_username(&store, &login_info.username).unwrap();
    let verified = verify_password(&stored.hash, &login_info.password);
    let (session, response) = api::login(&store, Session::Anonymous, &login_info, verified);

    let logged_in = response.unwrap();
    assert_eq!(logged_in.user_id, registered.user_id);
    assert_eq!(session, Session::LoggedIn(registered.user_id));

    // A wrong password does not verify, and the login fails uniformly.
    let bad_login = LoginInfo { username: "alice".into(), password: "pw2".into() };
    let verified = verify_password(&stored.hash, &bad_login.password);
    assert!(!verified);
    let (_, response) = api::login(&store, Session::Anonymous, &bad_login, verified);
    assert_eq!(response.unwrap_err(), Error::LoginFailed);
}

#[test]
fn user_ids_start_at_one_and_increment() {
    let mut store = Store::new();
    for (i, name) in ["first", "second", "third"].iter().enumerate() {
        let rinfo = RegisterInfo { username: (*name).into(), password: "pw".into() };
        let (_, response) =
            api::register(&mut store, Session::Anonymous, &rinfo, &hash_password("pw"));
        assert_eq!(response.unwrap().user_id, i as i32 + 1);
    }
}
