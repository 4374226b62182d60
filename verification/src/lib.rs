//! A verified core for a music-library backup backend.
//!
//! A registered end user links an account on an external music service and
//! pulls ("ingests") their liked tracks and playlists into a local store,
//! watching progress live over a push channel. This crate holds the parts
//! with real state and consistency concerns: the relational store with its
//! idempotent upserts, session-gated registration and login, the ingestion
//! orchestration, and the token-gated progress channel. The HTTP binding,
//! the network fetch against the music service and the password-hash
//! computation are collaborators that live outside the crate and exchange
//! plain values with it.

pub mod api;
pub mod catalog;
pub mod database;
pub mod errors;
pub mod ingest;
pub mod laws;
pub mod messages;
pub mod numtext;
pub mod progress;
pub mod rows;
pub mod session;

pub use database::Store;
pub use errors::Error;
pub use ingest::{FetchedLike, FetchedPlaylist, ScrapeJob};
pub use messages::{
    AuthCredentials, LoginInfo, PlaylistInfoBrief, PlaylistInfoLong, RegisterInfo, TrackInfoBrief,
    TrackInfoLong, UserInfo,
};
pub use rows::{Playlist, SoundCloudUser, Track, User};
pub use session::{Auth, NotLoggedIn, Session};
