//! The queries whose responses the parsers read.
use vstd::prelude::*;
use crate::common::{LyricsID, VideoID};

verus! {

/// A query to the Innertube API.
pub trait Query {}

/// The artists of the user's library.
#[derive(Clone, Debug, PartialEq, Eq)]
pub struct GetLibraryArtistsQuery {}

impl Default for GetLibraryArtistsQuery {
    fn default() -> (r: GetLibraryArtistsQuery) {
        GetLibraryArtistsQuery {}
    }
}

/// The playlists of the user's library.
#[derive(Clone, Debug, PartialEq, Eq)]
pub struct GetLibraryPlaylistQuery {}

/// A search by text.
#[derive(Clone, Debug, PartialEq, Eq)]
pub struct SearchQuery {
    pub query: String,
}

impl SearchQuery {
    pub fn new(query: &str) -> (r: SearchQuery)
        ensures
            r.query@ == query@,
    {
        SearchQuery { query: String::from_str(query) }
    }
}

/// The lyrics of a song.
#[derive(Clone, Debug, PartialEq, Eq)]
pub struct GetLyricsQuery {
    pub id: LyricsID,
}

impl GetLyricsQuery {
    pub fn new(id: LyricsID) -> (r: GetLyricsQuery)
        ensures
            r.id == id,
    {
        GetLyricsQuery { id }
    }
}

/// The queue that plays after a video.
#[derive(Clone, Debug, PartialEq, Eq)]
pub struct GetWatchPlaylistQuery {
    pub video_id: VideoID,
}

impl GetWatchPlaylistQuery {
    pub fn new(video_id: VideoID) -> (r: GetWatchPlaylistQuery)
        ensures
            r.video_id == video_id,
    {
        GetWatchPlaylistQuery { video_id }
    }
}

impl Query for GetLibraryArtistsQuery {}

impl Query for GetLibraryPlaylistQuery {}

impl Query for SearchQuery {}

impl Query for GetLyricsQuery {}

impl Query for GetWatchPlaylistQuery {}

}
