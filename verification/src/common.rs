//! Identifiers and small value types shared by the parsers.
use vstd::prelude::*;

pub use crate::json::Thumbnail;

verus! {

/// Identifier of a channel (an artist or a user).
#[derive(Clone, Debug, PartialEq, Eq)]
pub struct ChannelID(pub String);

/// Identifier of a video or song.
#[derive(Clone, Debug, PartialEq, Eq)]
pub struct VideoID(pub String);

/// Identifier of a playlist.
#[derive(Clone, Debug, PartialEq, Eq)]
pub struct PlaylistID(pub String);

/// Identifier of a podcast.
#[derive(Clone, Debug, PartialEq, Eq)]
pub struct PodcastID(pub String);

/// Identifier of a user profile.
#[derive(Clone, Debug, PartialEq, Eq)]
pub struct ProfileID(pub String);

/// Identifier of the lyrics of a song.
#[derive(Clone, Debug, PartialEq, Eq)]
pub struct LyricsID(pub String);

/// Whether a result is marked explicit.
#[derive(Clone, Copy, Debug, PartialEq, Eq, Structural)]
pub enum Explicit {
    IsExplicit,
    NotExplicit,
}

/// The kind of an album.
#[derive(Clone, Copy, Debug, PartialEq, Eq, Structural)]
pub enum AlbumType {
    Single,
    Album,
    EP,
}


/// The lyrics of a song and where they come from.
#[derive(Clone, Debug, PartialEq, Eq)]
pub struct Lyrics {
    pub lyrics: String,
    pub source: String,
}

impl Lyrics {
    pub fn new(lyrics: String, source: String) -> (r: Lyrics)
        ensures
            r.lyrics == lyrics,
            r.source == source,
    {
        Lyrics { lyrics, source }
    }
}

/// What plays after a video: the playlist it belongs to, and its lyrics.
#[derive(Clone, Debug, PartialEq, Eq)]
pub struct WatchPlaylist {
    pub playlist_id: Option<PlaylistID>,
    pub lyrics_id: LyricsID,
}

impl WatchPlaylist {
    pub fn new(playlist_id: Option<PlaylistID>, lyrics_id: LyricsID) -> (r: WatchPlaylist)
        ensures
            r.playlist_id == playlist_id,
            r.lyrics_id == lyrics_id,
    {
        WatchPlaylist { playlist_id, lyrics_id }
    }
}

}
