use vstd::prelude::*;

verus! {

/// The error kinds the backend's operations can produce.
///
/// A response that carries one of these as its body serializes it as a JSON
/// string holding the variant's name; see [`Error::to_json`]. The HTTP status
/// class that goes with each kind is given by [`Error::status`].
#[derive(Clone, Copy, Debug, PartialEq, Eq, Structural)]
pub enum Error {
    /// An attempt was made to create a user given details that already exist
    UserAlreadyExists,
    /// The backend did not have the auth tokens to do scraping for the
    /// requested user with
    ScAuthTokensNotPresent,
    /// Could not log in with the given `LoginInfo`; deliberately uniform, so a
    /// caller cannot tell a missing username from a wrong password
    LoginFailed,
    /// Tried to access a route that requires you to be authenticated
    NotLoggedIn,
    /// Tried to make a request to a route that doesn't exist
    NonExistentApiRoute,
    /// The fetcher's call against the external music service failed,
    /// including an auth rejection by the service; the shell that runs the
    /// fetch wraps the upstream failure's details around this kind
    OrangeZestErr,
    /// An entity lookup found no row under the requested id
    NotFound,
    /// A push-subscription attempt carried a token that was not issued for
    /// that user
    InvalidToken,
}

impl Error {
    /// The tag that names this error kind in a response payload.
    pub open spec fn spec_tag(self) -> Seq<char> {
        match self {
            Error::UserAlreadyExists => "UserAlreadyExists"@,
            Error::ScAuthTokensNotPresent => "ScAuthTokensNotPresent"@,
            Error::LoginFailed => "LoginFailed"@,
            Error::NotLoggedIn => "NotLoggedIn"@,
            Error::NonExistentApiRoute => "NonExistentApiRoute"@,
            Error::OrangeZestErr => "OrangeZestErr"@,
            Error::NotFound => "NotFound"@,
            Error::InvalidToken => "InvalidToken"@,
        }
    }

    /// The JSON body for this error kind: its tag as a JSON string.
    pub open spec fn spec_json(self) -> Seq<char> {
        "\""@ + self.spec_tag() + "\""@
    }

    /// The HTTP status code a response carrying this error kind gets: 4xx
    /// where the client caused the failure, 500 otherwise.
    pub open spec fn spec_status(self) -> u16 {
        match self {
            Error::NotLoggedIn => 401,
            Error::InvalidToken => 401,
            Error::NonExistentApiRoute => 400,
            Error::NotFound => 404,
            _ => 500,
        }
    }

    /// The tag naming this error kind.
    pub fn tag(&self) -> (r: String)
        ensures
            r@ == self.spec_tag(),
    {
        match self {
            Error::UserAlreadyExists => "UserAlreadyExists".to_owned(),
            Error::ScAuthTokensNotPresent => "ScAuthTokensNotPresent".to_owned(),
            Error::LoginFailed => "LoginFailed".to_owned(),
            Error::NotLoggedIn => "NotLoggedIn".to_owned(),
            Error::NonExistentApiRoute => "NonExistentApiRoute".to_owned(),
            Error::OrangeZestErr => "OrangeZestErr".to_owned(),
            Error::NotFound => "NotFound".to_owned(),
            Error::InvalidToken => "InvalidToken".to_owned(),
        }
    }

    /// The JSON body for this error kind.
    pub fn to_json(&self) -> (r: String)
        ensures
            r@ == self.spec_json(),
    {
        let quoted = String::from_str("\"").concat(self.tag().as_str());
        quoted.concat("\"")
    }

    /// The HTTP status code for a response carrying this error kind.
    pub fn status(&self) -> (s: u16)
        ensures
            s == self.spec_status(),
    {
        match self {
            Error::NotLoggedIn => 401,
            Error::InvalidToken => 401,
            Error::NonExistentApiRoute => 400,
            Error::NotFound => 404,
            _ => 500,
        }
    }
}

} // verus!
