use vstd::prelude::*;

use crate::rows::User;

verus! {

/// Credentials the web client provides so that data can be fetched from the
/// external music service on behalf of a specific user.
#[derive(Debug, Clone, PartialEq)]
pub struct AuthCredentials {
    pub oauth_token: String,
    pub client_id: String,
}

/// What the web client posts to create a new user.
#[derive(Debug, Clone, PartialEq)]
pub struct RegisterInfo {
    pub password: String,
    pub username: String,
}

/// What the web client posts to log in.
#[derive(Debug, Clone, PartialEq)]
pub struct LoginInfo {
    pub username: String,
    pub password: String,
}

/// Information about the requested user, sent back to the web client.
#[derive(Debug, Clone, PartialEq)]
pub struct UserInfo {
    pub user_id: i32,
    pub username: String,
}

impl From<User> for UserInfo {
    /// What `/me` and a fresh registration or login report about a user: the
    /// id and username of the row, nothing secret.
    fn from(u: User) -> (r: Self) {
        UserInfo { user_id: u.user_id, username: u.username }
    }
}

impl vstd::std_specs::convert::FromSpecImpl<User> for UserInfo {
    open spec fn obeys_from_spec() -> bool {
        true
    }

    open spec fn from_spec(u: User) -> Self {
        UserInfo { user_id: u.user_id, username: u.username }
    }
}

/// Summarized information about a track, for displaying a long list of
/// tracks.
#[derive(Debug, Clone, PartialEq)]
pub struct TrackInfoBrief {
    /// A unique numeric id for the track
    pub track_id: i64,
    /// The length of the track in milliseconds
    pub length_ms: i64,
    /// When the track was uploaded, as an opaque date-time string
    pub created_at: String,
    /// The name of the track
    pub title: String,
    /// The number of times the track was played
    pub playback_count: i64,
    /// The id of the external-service user that uploaded this track
    pub sc_user_id: i64,
    /// That user's display name
    pub username: String,
}

/// Detailed information about a single track.
#[derive(Debug, Clone, PartialEq)]
pub struct TrackInfoLong {
    /// Everything that was in the brief version of the struct
    pub brief_info: TrackInfoBrief,
    /// A description of the track written by the user who posted it
    pub description: String,
    /// The number of times the track was liked
    pub likes_count: i64,
    /// A URL to the track's album art
    pub artwork_url: Option<String>,
    /// A URL to the track on the external service
    pub track_permalink_url: String,
    /// A URL to the profile image of the user that uploaded this track
    pub avatar_url: Option<String>,
    /// That user's full name
    pub full_name: String,
    /// A URL to that user on the external service
    pub user_permalink_url: String,
}

/// Summarized information about a playlist, for displaying a long list of
/// playlists.
#[derive(Debug, Clone, PartialEq)]
pub struct PlaylistInfoBrief {
    /// A unique numeric id for the playlist
    pub playlist_id: i64,
    /// The total length of all tracks in the playlist combined in
    /// milliseconds
    pub length_ms: i64,
    /// When the playlist was created, as an opaque date-time string
    pub created_at: String,
    /// The name of the playlist
    pub title: String,
    /// Whether or not this playlist is an album
    pub is_album: bool,
    /// The number of tracks in this playlist
    pub num_tracks: i64,
    /// The id of the external-service user that created this playlist
    pub sc_user_id: i64,
    /// That user's display name
    pub username: String,
}

/// Detailed information about a single playlist.
#[derive(Debug, Clone, PartialEq)]
pub struct PlaylistInfoLong {
    /// Everything that was in the brief version of the struct
    pub brief_info: PlaylistInfoBrief,
    /// Ids of tracks that are a part of this playlist
    pub track_ids: Vec<i64>,
    /// A URL to the playlist on the external service
    pub playlist_permalink_url: String,
    /// The playlist's description
    pub description: String,
    /// The number of times the playlist was liked
    pub likes_count: i64,
    /// A URL to the profile image of the user that created this playlist
    pub avatar_url: Option<String>,
    /// That user's full name
    pub full_name: String,
    /// A URL to that user on the external service
    pub user_permalink_url: String,
}

} // verus!
