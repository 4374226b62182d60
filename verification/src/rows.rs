use vstd::prelude::*;

verus! {

/// Representation of a user in the store.
///
/// Users have both an id (numeric) and a username (alphanumeric). The username
/// is for the user to log in with and view, and the id is for the backend to
/// use.
#[derive(Debug, PartialEq)]
pub struct User {
    /// The user's unique, numeric ID.
    ///
    /// This number starts at 1 (the first user) and is incremented for each
    /// user that signs up.
    pub user_id: i32,
    /// The hash of the user's password.
    ///
    /// The hash is self-describing: it carries the algorithm, the salt and the
    /// digest, so it can be verified without any state beside it.
    pub hash: String,
    /// The user's name.
    ///
    /// This is both their login and their display name.
    pub username: String,
    /// The OAuth token that this user has provided for us to use to access
    /// their account on the external music service.
    pub sc_oauth_token: Option<String>,
    /// The client id that corresponds to this user's account on the external
    /// music service.
    pub sc_client_id: Option<String>,
    /// Ids of tracks that this user has liked, without duplicates.
    pub liked_track_ids: Vec<i64>,
    /// Ids of playlists that this user has made or liked, without duplicates.
    pub playlist_ids: Vec<i64>,
}

/// Representation of a track in the store.
#[derive(Debug, PartialEq)]
pub struct Track {
    /// A unique numeric id for the track
    pub track_id: i64,
    /// The id of the external-service user that uploaded this track
    pub sc_user_id: i64,
    /// The length of the track in milliseconds
    pub length_ms: i64,
    /// When the track was uploaded, as an opaque date-time string
    pub created_at: String,
    /// The name of the track
    pub title: String,
    /// A description of the track written by the user who posted it
    pub description: String,
    /// The number of times the track was liked
    pub likes_count: i64,
    /// The number of times the track was played
    pub playback_count: i64,
    /// A URL to the track's album art
    pub artwork_url: Option<String>,
    /// A URL to the track on the external service
    pub permalink_url: String,
    /// A URL via which the audio data for this track can be downloaded.
    ///
    /// This may not exist for every track, and ingestion never populates it.
    pub download_url: Option<String>,
}

/// Representation of an external-service user (an external account) in the
/// store.
#[derive(Debug, PartialEq)]
pub struct SoundCloudUser {
    /// The id of the user on the external service
    pub sc_user_id: i64,
    /// A URL to the user's profile image
    pub avatar_url: Option<String>,
    /// The user's full name
    pub full_name: String,
    /// The user's display name
    pub username: String,
    /// A URL to the user on the external service
    pub permalink_url: String,
}

/// Representation of a playlist in the store.
#[derive(Debug, PartialEq)]
pub struct Playlist {
    /// A unique numeric id for the playlist
    pub playlist_id: i64,
    /// The id of the external-service user that created this playlist
    pub sc_user_id: i64,
    /// Ids of tracks that are a part of this playlist, in playlist order
    pub track_ids: Vec<i64>,
    /// The number of tracks in the playlist
    pub num_tracks: i64,
    /// The total length of all tracks in the playlist combined in milliseconds
    pub length_ms: i64,
    /// When the playlist was created, as an opaque date-time string
    pub created_at: String,
    /// The name of the playlist
    pub title: String,
    /// A URL to the playlist on the external service
    pub permalink_url: String,
    /// The playlist's description
    pub description: String,
    /// The number of times the playlist was liked
    pub likes_count: i64,
    /// Whether or not this playlist is an album
    pub is_album: bool,
}

/// Value equality for user rows: every field agrees, with the id lists
/// compared by contents.
pub open spec fn user_eqv(a: User, b: User) -> bool {
    &&& a.user_id == b.user_id
    &&& a.hash == b.hash
    &&& a.username == b.username
    &&& a.sc_oauth_token == b.sc_oauth_token
    &&& a.sc_client_id == b.sc_client_id
    &&& a.liked_track_ids@ == b.liked_track_ids@
    &&& a.playlist_ids@ == b.playlist_ids@
}

/// Value equality for playlist rows: every field agrees, with the member
/// track ids compared by contents.
pub open spec fn playlist_eqv(a: Playlist, b: Playlist) -> bool {
    &&& a.playlist_id == b.playlist_id
    &&& a.sc_user_id == b.sc_user_id
    &&& a.track_ids@ == b.track_ids@
    &&& a.num_tracks == b.num_tracks
    &&& a.length_ms == b.length_ms
    &&& a.created_at == b.created_at
    &&& a.title == b.title
    &&& a.permalink_url == b.permalink_url
    &&& a.description == b.description
    &&& a.likes_count == b.likes_count
    &&& a.is_album == b.is_album
}

/// Copies an optional string, keeping its value.
pub(crate) fn clone_opt_string(o: &Option<String>) -> (r: Option<String>)
    ensures
        r == *o,
{
    match o {
        Some(s) => Some(s.clone()),
        None => None,
    }
}

/// Copies a vector of ids, keeping its contents.
pub(crate) fn clone_i64_vec(v: &Vec<i64>) -> (r: Vec<i64>)
    ensures
        r@ == v@,
{
    let mut r: Vec<i64> = Vec::new();
    let mut i: usize = 0;
    while i < v.len()
        invariant
            i <= v.len(),
            r@ == v@.take(i as int),
        decreases v.len() - i,
    {
        r.push(v[i]);
        assert(v@.take(i as int).push(v@[i as int]) =~= v@.take(i + 1 as int));
        i = i + 1;
    }
    assert(v@.take(v.len() as int) =~= v@);
    r
}

/// Copies a vector of strings, keeping its contents.
pub(crate) fn clone_string_vec(v: &Vec<String>) -> (r: Vec<String>)
    ensures
        r@ == v@,
{
    let mut r: Vec<String> = Vec::new();
    let mut i: usize = 0;
    while i < v.len()
        invariant
            i <= v.len(),
            r@ == v@.take(i as int),
        decreases v.len() - i,
    {
        r.push(v[i].clone());
        assert(v@.take(i as int).push(v@[i as int]) =~= v@.take(i + 1 as int));
        i = i + 1;
    }
    assert(v@.take(v.len() as int) =~= v@);
    r
}

impl Clone for User {
    fn clone(&self) -> (r: Self)
        ensures
            user_eqv(r, *self),
    {
        User {
            user_id: self.user_id,
            hash: self.hash.clone(),
            username: self.username.clone(),
            sc_oauth_token: clone_opt_string(&self.sc_oauth_token),
            sc_client_id: clone_opt_string(&self.sc_client_id),
            liked_track_ids: clone_i64_vec(&self.liked_track_ids),
            playlist_ids: clone_i64_vec(&self.playlist_ids),
        }
    }
}

impl Clone for Track {
    fn clone(&self) -> (r: Self)
        ensures
            r == *self,
    {
        Track {
            track_id: self.track_id,
            sc_user_id: self.sc_user_id,
            length_ms: self.length_ms,
            created_at: self.created_at.clone(),
            title: self.title.clone(),
            description: self.description.clone(),
            likes_count: self.likes_count,
            playback_count: self.playback_count,
            artwork_url: clone_opt_string(&self.artwork_url),
            permalink_url: self.permalink_url.clone(),
            download_url: clone_opt_string(&self.download_url),
        }
    }
}

impl Clone for SoundCloudUser {
    fn clone(&self) -> (r: Self)
        ensures
            r == *self,
    {
        SoundCloudUser {
            sc_user_id: self.sc_user_id,
            avatar_url: clone_opt_string(&self.avatar_url),
            full_name: self.full_name.clone(),
            username: self.username.clone(),
            permalink_url: self.permalink_url.clone(),
        }
    }
}

impl Clone for Playlist {
    fn clone(&self) -> (r: Self)
        ensures
            playlist_eqv(r, *self),
    {
        Playlist {
            playlist_id: self.playlist_id,
            sc_user_id: self.sc_user_id,
            track_ids: clone_i64_vec(&self.track_ids),
            num_tracks: self.num_tracks,
            length_ms: self.length_ms,
            created_at: self.created_at.clone(),
            title: self.title.clone(),
            permalink_url: self.permalink_url.clone(),
            description: self.description.clone(),
            likes_count: self.likes_count,
            is_album: self.is_album,
        }
    }
}

} // verus!
