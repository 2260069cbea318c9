//! Results parsed from Innertube responses.
use vstd::prelude::*;
use crate::common::{
    AlbumType, ChannelID, Explicit, Lyrics, LyricsID, PlaylistID, PodcastID, ProfileID, Thumbnail,
    VideoID, WatchPlaylist,
};
use crate::json::{
    array_at, err_view, lookup, navigate, read_array, read_str, read_string, result_view, Json,
    JsonCrawler, JsonError, JsonErrorKind, JsonErrorV,
};
use crate::json_text::{json_text, json_to_string};
use crate::nav::{
    CARD_SHELF_TITLE, DESCRIPTION, FOOTER_RUN_TEXT, LYRICS_SHELF, NAVIGATION_BROWSE_ID,
    QUEUE_ITEM_PLAYLIST_ID, RUN0_BROWSE_ID, SUBTITLE, SUBTITLE2, THUMBNAILS, WATCH_NEXT_RENDERER,
    WATCH_QUEUE_CONTENTS,
};
use crate::query::{GetLyricsQuery, GetWatchPlaylistQuery, Query};
use crate::text::{chars_of, decimal, decimal_string, occurs_in, opt_str, seq_contains};

verus! {

/// A song of an album, as the album parser yields it.
#[derive(Clone, Debug, PartialEq, Eq)]
pub struct SongResult {
    pub title: String,
    pub duration: Option<String>,
    pub track_no: usize,
}

impl SongResult {
    pub fn get_track_no(&self) -> (r: usize)
        ensures
            r == self.track_no,
    {
        self.track_no
    }

    pub fn get_title(&self) -> (r: &String)
        ensures
            *r == self.title,
    {
        &self.title
    }

    pub fn get_duration(&self) -> (r: &Option<String>)
        ensures
            *r == self.duration,
    {
        &self.duration
    }
}


/// The document of a response, with the query it answers.
#[derive(Debug)]
pub struct ProcessedResult<T> where T: Query {
    pub query: T,
    pub json_crawler: JsonCrawler,
}

impl<T: Query> ProcessedResult<T> {
    pub fn from_raw(json_crawler: JsonCrawler, query: T) -> (r: Self)
        ensures
            r.query == query,
            r.json_crawler == json_crawler,
    {
        ProcessedResult { query, json_crawler }
    }

    pub fn get_query(&self) -> (r: &T)
        ensures
            *r == self.query,
    {
        &self.query
    }

    pub fn get_crawler(&self) -> (r: &JsonCrawler)
        ensures
            *r == self.json_crawler,
    {
        &self.json_crawler
    }
}

/// A type that can be parsed from a response.
pub trait Parse {
    type Output;

    fn parse(self) -> Self::Output;
}


/// The pointer to column `col` of a list item.
pub open spec fn flex_column_path(col: nat) -> Seq<char> {
    "/flexColumns/"@ + decimal(col) + "/musicResponsiveListItemFlexColumnRenderer"@
}

/// The pointer to the text of run `run`.
pub open spec fn run_text_path(run: nat) -> Seq<char> {
    "/text/runs/"@ + decimal(run) + "/text"@
}

/// The text of run `run` of column `col` of a list item.
pub open spec fn item_text(data: Json, col: nat, run: nat) -> Result<Seq<char>, JsonErrorV> {
    match lookup(data, flex_column_path(col)) {
        None => Err((JsonErrorKind::PathNotFound, flex_column_path(col))),
        Some(column) => read_str(column, run_text_path(run)),
    }
}

/// The renderer of column `col` of a list item.
pub fn process_flex_column_item<'a>(data: &'a Json, col_idx: usize) -> (r: Result<&'a Json, JsonError>)
    ensures
        match r {
            Ok(x) => lookup(*data, flex_column_path(col_idx as nat)) == Some(*x),
            Err(e) => lookup(*data, flex_column_path(col_idx as nat)) is None
                && err_view(e) == (JsonErrorKind::PathNotFound, flex_column_path(col_idx as nat)),
        },
{
    let mut p = String::from_str("/flexColumns/");
    let d = decimal_string(col_idx as u128);
    p.append(d.as_str());
    p.append("/musicResponsiveListItemFlexColumnRenderer");
    navigate(data, p.as_str())
}

/// The text of run `run_idx` of column `col_idx` of a list item.
pub(crate) fn parse_item_text(item: &Json, col_idx: usize, run_idx: usize) -> (r: Result<String, JsonError>)
    ensures
        result_view(r, |s: String| s@) == item_text(*item, col_idx as nat, run_idx as nat),
{
    let column = process_flex_column_item(item, col_idx)?;
    let mut p = String::from_str("/text/runs/");
    let d = decimal_string(run_idx as u128);
    p.append(d.as_str());
    p.append("/text");
    read_string(column, p.as_str())
}


/// A search result on its own: every kind of result the search returns.
#[derive(Clone, Debug, PartialEq, Eq)]
pub struct SearchResults {
    pub top_results: Vec<TopResult>,
    pub artists: Vec<SearchResultArtist>,
    pub albums: Vec<SearchResultAlbum>,
    pub featured_playlists: Vec<SearchResultFeaturedPlaylist>,
    pub community_playlists: Vec<SearchResultCommunityPlaylist>,
    pub songs: Vec<SearchResultSong>,
    pub videos: Vec<SearchResultVideo>,
    pub podcasts: Vec<SearchResultPodcast>,
    pub episodes: Vec<SearchResultEpisode>,
    pub profiles: Vec<SearchResultProfile>,
}

/// One result of a search.
#[derive(Clone, Debug)]
pub enum SearchResult {
    TopResult,
    Song(SearchResultSong),
    Album(SearchResultAlbum),
    Playlist(SearchResultPlaylist),
    Video,
    Artist(SearchResultArtist),
}

/// The kind of a search result, as its subtitle names it.
#[derive(Clone, Copy, Debug, PartialEq, Eq, Structural)]
pub enum SearchResultType {
    Artist,
    Album,
    Playlist,
    Song,
    Video,
    Station,
    Profile,
    Podcast,
    Episode,
}

/// The kind a subtitle names.
pub open spec fn result_type_of(s: Seq<char>) -> Option<SearchResultType> {
    if s == "Artist"@ {
        Some(SearchResultType::Artist)
    } else if s == "Album"@ {
        Some(SearchResultType::Album)
    } else if s == "Playlist"@ {
        Some(SearchResultType::Playlist)
    } else if s == "Song"@ {
        Some(SearchResultType::Song)
    } else if s == "Video"@ {
        Some(SearchResultType::Video)
    } else if s == "Station"@ {
        Some(SearchResultType::Station)
    } else if s == "Profile"@ {
        Some(SearchResultType::Profile)
    } else if s == "Podcast"@ {
        Some(SearchResultType::Podcast)
    } else if s == "Episode"@ {
        Some(SearchResultType::Episode)
    } else {
        None
    }
}

/// The name of each kind of result: the name of its variant.
pub open spec fn kind_name(t: SearchResultType) -> Seq<char> {
    match t {
        SearchResultType::Artist => "Artist"@,
        SearchResultType::Album => "Album"@,
        SearchResultType::Playlist => "Playlist"@,
        SearchResultType::Song => "Song"@,
        SearchResultType::Video => "Video"@,
        SearchResultType::Station => "Station"@,
        SearchResultType::Profile => "Profile"@,
        SearchResultType::Podcast => "Podcast"@,
        SearchResultType::Episode => "Episode"@,
    }
}

/// Every kind is recognised by its own name, and a subtitle that is
/// recognised is the name of the kind it gives: no two subtitles give
/// the same kind.
pub proof fn law_subtitle_names_its_kind(t: SearchResultType, s: Seq<char>)
    ensures
        result_type_of(kind_name(t)) == Some(t),
        result_type_of(s) == Some(t) ==> s == kind_name(t),
{
    reveal_strlit("Artist");
    reveal_strlit("Album");
    reveal_strlit("Playlist");
    reveal_strlit("Song");
    reveal_strlit("Video");
    reveal_strlit("Station");
    reveal_strlit("Profile");
    reveal_strlit("Podcast");
    reveal_strlit("Episode");
    assert("Artist"@.len() == 6 && "Artist"@[0] == 'A' && "Artist"@[1] == 'r');
    assert("Album"@.len() == 5 && "Album"@[0] == 'A' && "Album"@[1] == 'l');
    assert("Playlist"@.len() == 8 && "Playlist"@[0] == 'P' && "Playlist"@[1] == 'l');
    assert("Song"@.len() == 4 && "Song"@[0] == 'S' && "Song"@[1] == 'o');
    assert("Video"@.len() == 5 && "Video"@[0] == 'V' && "Video"@[1] == 'i');
    assert("Station"@.len() == 7 && "Station"@[0] == 'S' && "Station"@[1] == 't');
    assert("Profile"@.len() == 7 && "Profile"@[0] == 'P' && "Profile"@[1] == 'r');
    assert("Podcast"@.len() == 7 && "Podcast"@[0] == 'P' && "Podcast"@[1] == 'o');
    assert("Episode"@.len() == 7 && "Episode"@[0] == 'E' && "Episode"@[1] == 'p');
}

fn str_is(s: &String, lit: &str) -> (r: bool)
    ensures
        r == (s@ == lit@),
{
    let l = String::from_str(lit);
    *s == l
}

impl SearchResultType {
    /// The kind a subtitle names; `None` when it names no kind.
    pub fn from_subtitle(s: &String) -> (r: Option<SearchResultType>)
        ensures
            r == result_type_of(s@),
    {
        if str_is(s, "Artist") {
            Some(SearchResultType::Artist)
        } else if str_is(s, "Album") {
            Some(SearchResultType::Album)
        } else if str_is(s, "Playlist") {
            Some(SearchResultType::Playlist)
        } else if str_is(s, "Song") {
            Some(SearchResultType::Song)
        } else if str_is(s, "Video") {
            Some(SearchResultType::Video)
        } else if str_is(s, "Station") {
            Some(SearchResultType::Station)
        } else if str_is(s, "Profile") {
            Some(SearchResultType::Profile)
        } else if str_is(s, "Podcast") {
            Some(SearchResultType::Podcast)
        } else if str_is(s, "Episode") {
            Some(SearchResultType::Episode)
        } else {
            None
        }
    }
}

#[derive(Clone, Debug, PartialEq, Eq)]
pub struct ParsedSongArtist {
    pub name: String,
    pub id: Option<String>,
}

#[derive(Clone, Debug, PartialEq, Eq)]
pub struct ParsedSongAlbum {
    pub name: Option<String>,
    pub id: Option<String>,
}

#[derive(Clone, Debug, PartialEq, Eq)]
pub struct TopResult {
    pub result_type: SearchResultType,
    pub subscribers: Option<String>,
    pub thumbnails: Option<String>,
    pub artist_info: Option<ParsedSongList>,
}

#[derive(Clone, Debug, PartialEq, Eq)]
pub struct ParsedSongList {
    pub artists: Vec<ParsedSongArtist>,
    pub album: Option<ParsedSongAlbum>,
    pub views: Option<String>,
    pub duration: Option<String>,
    pub year: Option<String>,
}

/// An artist search result.
#[derive(Clone, Debug, PartialEq, Eq)]
pub struct SearchResultArtist {
    pub artist: String,
    pub subscribers: String,
    pub browse_id: Option<ChannelID>,
    pub thumbnails: Vec<Thumbnail>,
}

/// A podcast search result.
#[derive(Clone, Debug, PartialEq, Eq)]
pub struct SearchResultPodcast {
    pub title: String,
    pub publisher: String,
    pub podcast_id: Option<PodcastID>,
}

/// A podcast episode search result.
#[derive(Clone, Debug, PartialEq, Eq)]
pub struct SearchResultEpisode {
    pub title: String,
}

/// A video search result.
#[derive(Clone, Debug, PartialEq, Eq)]
pub struct SearchResultVideo {
    pub title: String,
    /// Either the channel's name or the artist's.
    pub channel_name: String,
    pub views: String,
    pub length: String,
    pub thumbnails: Vec<Thumbnail>,
}

/// A profile search result.
#[derive(Clone, Debug, PartialEq, Eq)]
pub struct SearchResultProfile {
    pub title: String,
    pub username: String,
    pub profile_id: ProfileID,
    pub thumbnails: Vec<Thumbnail>,
}

/// An album search result.
#[derive(Clone, Debug, PartialEq, Eq)]
pub struct SearchResultAlbum {
    pub title: String,
    pub artist: String,
    pub year: String,
    pub explicit: Explicit,
    pub browse_id: Option<ChannelID>,
    pub album_type: AlbumType,
    pub thumbnails: Vec<Thumbnail>,
}

#[derive(Clone, Debug, PartialEq, Eq)]
pub struct SearchResultSong {
    pub title: String,
    pub artist: String,
    pub album: String,
    pub duration: String,
    pub plays: String,
    pub explicit: Explicit,
    pub video_id: Option<VideoID>,
    pub thumbnails: Vec<Thumbnail>,
}

/// A playlist search result: featured or community.
#[derive(Clone, Debug, PartialEq, Eq)]
pub enum SearchResultPlaylist {
    Featured(SearchResultFeaturedPlaylist),
    Community(SearchResultCommunityPlaylist),
}

/// A community playlist search result.
#[derive(Clone, Debug, PartialEq, Eq)]
pub struct SearchResultCommunityPlaylist {
    pub title: String,
    pub author: String,
    pub views: String,
    pub playlist_id: Option<PlaylistID>,
}

/// A featured playlist search result.
#[derive(Clone, Debug, PartialEq, Eq)]
pub struct SearchResultFeaturedPlaylist {
    pub title: String,
    pub author: String,
    pub songs: String,
    pub playlist_id: Option<PlaylistID>,
}


/// The success value of a read, if it succeeded.
pub open spec fn ok_of<T>(r: Result<T, JsonErrorV>) -> Option<T> {
    match r {
        Ok(v) => Some(v),
        Err(_) => None,
    }
}

fn ok_string(r: Result<String, JsonError>) -> (o: Option<String>)
    ensures
        opt_str(o) == ok_of(result_view(r, |s: String| s@)),
{
    match r {
        Ok(s) => Some(s),
        Err(_) => None,
    }
}

/// The elements at even positions: the runs between the separators.
pub open spec fn evens(s: Seq<Json>) -> Seq<Json> {
    Seq::new(((s.len() + 1) / 2) as nat, |i: int| s[2 * i])
}

/// An artist as contracts speak of it: name and channel id.
pub type SongArtistView = (Seq<char>, Option<Seq<char>>);

pub open spec fn song_artist_view(a: ParsedSongArtist) -> SongArtistView {
    (a.name@, opt_str(a.id))
}

/// An album as contracts speak of it: name and browse id.
pub type SongAlbumView = (Option<Seq<char>>, Option<Seq<char>>);

pub open spec fn song_album_view(a: ParsedSongAlbum) -> SongAlbumView {
    (opt_str(a.name), opt_str(a.id))
}

/// The artist a run names: its text and, when it has one, its browse id.
pub open spec fn run_artist(run: Json) -> Result<SongArtistView, JsonErrorV> {
    match read_str(run, "/text"@) {
        Err(e) => Err(e),
        Ok(name) => Ok((name, ok_of(read_str(run, NAVIGATION_BROWSE_ID@)))),
    }
}

pub open spec fn run_artists(runs: Seq<Json>) -> Result<Seq<SongArtistView>, JsonErrorV>
    decreases runs.len(),
{
    if runs.len() == 0 {
        Ok(Seq::empty())
    } else {
        match run_artists(runs.drop_last()) {
            Err(e) => Err(e),
            Ok(v) => match run_artist(runs.last()) {
                Err(e) => Err(e),
                Ok(a) => Ok(v.push(a)),
            },
        }
    }
}

/// The artists of column `col` of a list item: one per run at an even
/// position; none when the column or its runs are missing.
pub open spec fn song_artists(data: Json, col: nat) -> Result<Seq<SongArtistView>, JsonErrorV> {
    match lookup(data, flex_column_path(col)) {
        None => Ok(Seq::empty()),
        Some(c) => match lookup(c, "/text/runs"@) {
            Some(Json::Array(runs)) => run_artists(evens(runs@)),
            _ => Ok(Seq::empty()),
        },
    }
}

proof fn lemma_run_artists_prefix_err(items: Seq<Json>, k: int)
    requires
        0 <= k <= items.len(),
        run_artists(items.subrange(0, k)) is Err,
    ensures
        run_artists(items) == run_artists(items.subrange(0, k)),
    decreases items.len(),
{
    if k < items.len() {
        assert(items.drop_last().subrange(0, k) =~= items.subrange(0, k));
        lemma_run_artists_prefix_err(items.drop_last(), k);
    } else {
        assert(items.subrange(0, k) =~= items);
    }
}

pub(crate) fn parse_song_artists(data: &Json, col_idx: usize) -> (r: Result<Vec<ParsedSongArtist>, JsonError>)
    ensures
        result_view(r, |v: Vec<ParsedSongArtist>| v@.map_values(|a: ParsedSongArtist| song_artist_view(a)))
            == song_artists(*data, col_idx as nat),
{
    let mut artists: Vec<ParsedSongArtist> = Vec::new();
    assert(artists@.map_values(|a: ParsedSongArtist| song_artist_view(a)) =~= Seq::empty());
    let flex_items = match process_flex_column_item(data, col_idx) {
        Ok(f) => f,
        Err(_) => {
            return Ok(artists);
        },
    };
    let runs = match flex_items.pointer("/text/runs") {
        Some(Json::Array(runs)) => runs,
        _ => {
            return Ok(artists);
        },
    };
    let ghost ev = evens(runs@);
    let count = runs.len() / 2 + runs.len() % 2;
    assert(count == ev.len());
    let mut k: usize = 0;
    assert(ev.subrange(0, 0) =~= Seq::<Json>::empty());
    while k < count
        invariant
            k <= count,
            count == ev.len(),
            count * 2 <= runs.len() + 1,
            ev == evens(runs@),
            lookup(*flex_items, "/text/runs"@) == Some(Json::Array(*runs)),
            lookup(*data, flex_column_path(col_idx as nat)) == Some(*flex_items),
            run_artists(ev.subrange(0, k as int)) == Ok::<Seq<SongArtistView>, JsonErrorV>(
                artists@.map_values(|a: ParsedSongArtist| song_artist_view(a)),
            ),
        decreases count - k,
    {
        let run = &runs[2 * k];
        proof {
            assert(ev[k as int] == runs@[2 * k]);
            assert(ev.subrange(0, k + 1).drop_last() =~= ev.subrange(0, k as int));
            assert(ev.subrange(0, k + 1).last() == ev[k as int]);
        }
        let name = match read_string(run, "/text") {
            Ok(n) => n,
            Err(e) => {
                proof {
                    lemma_run_artists_prefix_err(ev, k + 1);
                }
                return Err(e);
            },
        };
        let id = ok_string(read_string(run, NAVIGATION_BROWSE_ID));
        let ghost before = artists@;
        let a = ParsedSongArtist { name, id };
        artists.push(a);
        assert(artists@.map_values(|a: ParsedSongArtist| song_artist_view(a)) =~= before.map_values(
            |a: ParsedSongArtist| song_artist_view(a),
        ).push(song_artist_view(a)));
        k = k + 1;
    }
    assert(ev.subrange(0, count as int) =~= ev);
    Ok(artists)
}

/// The album of column `col` of a list item: the text of its first run
/// and that run's browse id, each when present; fails when the column is missing.
pub open spec fn song_album(data: Json, col: nat) -> Result<SongAlbumView, JsonErrorV> {
    match lookup(data, flex_column_path(col)) {
        None => Err((JsonErrorKind::PathNotFound, flex_column_path(col))),
        Some(c) => Ok((ok_of(item_text(data, col, 0)), ok_of(read_str(c, RUN0_BROWSE_ID@)))),
    }
}

pub(crate) fn parse_song_album(data: &Json, col_idx: usize) -> (r: Result<ParsedSongAlbum, JsonError>)
    ensures
        result_view(r, |a: ParsedSongAlbum| song_album_view(a)) == song_album(*data, col_idx as nat),
{
    let name = ok_string(parse_item_text(data, col_idx, 0));
    let column = process_flex_column_item(data, col_idx)?;
    let id = ok_string(read_string(column, RUN0_BROWSE_ID));
    Ok(ParsedSongAlbum { name, id })
}

/// A run of a title can be read: an object with a `text` member and a
/// `navigationEndpoint` member that is an object.
pub open spec fn song_run_ok(r: Json) -> bool {
    match r {
        Json::Object(fields) => member_is_some(fields@, "text"@) && match crate::json::member(
            fields@,
            "navigationEndpoint"@,
        ) {
            Some(Json::Object(_)) => true,
            _ => false,
        },
        _ => false,
    }
}

pub open spec fn member_is_some(fields: Seq<(String, Json)>, key: Seq<char>) -> bool {
    crate::json::member(fields, key) is Some
}

/// Each of the runs can be read.
pub open spec fn runs_readable(runs: Seq<Json>) -> bool {
    forall|k: int| 0 <= k < runs.len() ==> song_run_ok(#[trigger] runs[k])
}

/// The runs of a title can be read: an array whose runs at even positions can.
pub open spec fn song_runs_ok(runs: Json) -> bool {
    match runs {
        Json::Array(items) => runs_readable(evens(items@)),
        _ => false,
    }
}

/// The text of the `text` member of a run.
pub open spec fn run_text(r: Json) -> Seq<char> {
    match r {
        Json::Object(fields) => match crate::json::member(fields@, "text"@) {
            Some(t) => json_text(t),
            None => Seq::empty(),
        },
        _ => Seq::empty(),
    }
}

/// The text of the browse id of a run, when it has one.
pub open spec fn run_browse_id(r: Json) -> Option<Seq<char>> {
    match lookup(r, NAVIGATION_BROWSE_ID@) {
        Some(v) => Some(json_text(v)),
        None => None,
    }
}

/// A browse id of an album: it mentions `release_detail` or starts with `MPRE`.
pub open spec fn is_album_id(id: Option<Seq<char>>) -> bool {
    match id {
        Some(t) => occurs_in(t, "release_detail"@) || (t.len() >= 4 && t.subrange(0, 4) == "MPRE"@),
        None => false,
    }
}

/// Artists and album read from runs: a run whose id is an album's sets the
/// album (the last such run wins), every other run adds an artist.
pub open spec fn runs_state(runs: Seq<Json>) -> (Seq<SongArtistView>, Option<SongAlbumView>)
    decreases runs.len(),
{
    if runs.len() == 0 {
        (Seq::empty(), None)
    } else {
        let (artists, album) = runs_state(runs.drop_last());
        let r = runs.last();
        let name = run_text(r);
        let id = run_browse_id(r);
        if is_album_id(id) {
            (artists, Some((Some(name), id)))
        } else {
            (artists.push((name, id)), album)
        }
    }
}

/// The song list read from the runs of a title.
pub open spec fn song_list_of(runs: Json) -> (Seq<SongArtistView>, Option<SongAlbumView>) {
    match runs {
        Json::Array(items) => runs_state(evens(items@)),
        _ => (Seq::empty(), None),
    }
}

pub open spec fn song_list_matches(l: ParsedSongList, runs: Json) -> bool {
    &&& l.artists@.map_values(|a: ParsedSongArtist| song_artist_view(a)) == song_list_of(runs).0
    &&& match l.album {
        Some(a) => song_list_of(runs).1 == Some(song_album_view(a)),
        None => song_list_of(runs).1 is None,
    }
    &&& l.views is None
    &&& l.duration is None
    &&& l.year is None
}

fn starts_with_mpre(t: &String) -> (r: bool)
    ensures
        r == (t@.len() >= 4 && t@.subrange(0, 4) == "MPRE"@),
{
    let cs = chars_of(t.as_str());
    let p = chars_of("MPRE");
    proof {
        reveal_strlit("MPRE");
    }
    if cs.len() < p.len() {
        return false;
    }
    let mut i: usize = 0;
    while i < p.len()
        invariant
            i <= p.len(),
            p.len() <= cs.len(),
            cs@ == t@,
            p@ == "MPRE"@,
            p@.len() == 4,
            forall|k: int| 0 <= k < i ==> cs@[k] == p@[k],
        decreases p.len() - i,
    {
        if cs[i] != p[i] {
            assert(cs@.subrange(0, p.len() as int)[i as int] != p@[i as int]);
            return false;
        }
        i = i + 1;
    }
    assert(cs@.subrange(0, p.len() as int) =~= p@);
    true
}

fn album_id(id: &Option<String>) -> (r: bool)
    ensures
        r == is_album_id(opt_str(*id)),
{
    match id {
        Some(t) => {
            let cs = chars_of(t.as_str());
            let needle = chars_of("release_detail");
            seq_contains(&cs, &needle) || starts_with_mpre(t)
        },
        None => false,
    }
}

fn parse_song_runs(runs: &Json) -> (r: Result<ParsedSongList, JsonError>)
    requires
        song_runs_ok(*runs),
    ensures
        r matches Ok(l) && song_list_matches(l, *runs),
{
    let items = match runs {
        Json::Array(a) => a,
        _ => {
            return Ok(ParsedSongList { artists: Vec::new(), album: None, views: None, duration: None, year: None });
        },
    };
    let ghost ev = evens(items@);
    let count = items.len() / 2 + items.len() % 2;
    let mut artists: Vec<ParsedSongArtist> = Vec::new();
    let mut album: Option<ParsedSongAlbum> = None;
    let mut k: usize = 0;
    assert(ev.subrange(0, 0) =~= Seq::<Json>::empty());
    assert(artists@.map_values(|a: ParsedSongArtist| song_artist_view(a)) =~= Seq::empty());
    while k < count
        invariant
            k <= count,
            count == ev.len(),
            count * 2 <= items.len() + 1,
            ev == evens(items@),
            *runs == Json::Array(*items),
            runs_readable(ev),
            artists@.map_values(|a: ParsedSongArtist| song_artist_view(a)) == runs_state(ev.subrange(0, k as int)).0,
            match album {
                Some(a) => runs_state(ev.subrange(0, k as int)).1 == Some(song_album_view(a)),
                None => runs_state(ev.subrange(0, k as int)).1 is None,
            },
        decreases count - k,
    {
        let r = &items[2 * k];
        proof {
            assert(ev[k as int] == items@[2 * k]);
            assert(song_run_ok(ev[k as int]));
            assert(ev.subrange(0, k + 1).drop_last() =~= ev.subrange(0, k as int));
            assert(ev.subrange(0, k + 1).last() == ev[k as int]);
        }
        let fields = match r {
            Json::Object(f) => f,
            _ => {
                return Ok(ParsedSongList { artists, album, views: None, duration: None, year: None });
            },
        };
        let text_key = String::from_str("text");
        let name = match crate::json::member_of(fields, &text_key) {
            Some(t) => json_to_string(t),
            None => String::new(),
        };
        let id = match r.pointer(NAVIGATION_BROWSE_ID) {
            Some(v) => Some(json_to_string(v)),
            None => None,
        };
        let ghost before = artists@;
        if album_id(&id) {
            album = Some(ParsedSongAlbum { name: Some(name), id });
        } else {
            let a = ParsedSongArtist { id, name };
            artists.push(a);
            assert(artists@.map_values(|a: ParsedSongArtist| song_artist_view(a)) =~= before.map_values(
                |a: ParsedSongArtist| song_artist_view(a),
            ).push(song_artist_view(a)));
        }
        k = k + 1;
    }
    assert(ev.subrange(0, count as int) =~= ev);
    Ok(ParsedSongList { artists, year: None, album, views: None, duration: None })
}


/// What a top result reads before the runs of its title: its kind,
/// subscribers and thumbnails (each when present as a string), and the runs.
pub open spec fn top_result_parts(data: Json) -> Result<
    (SearchResultType, Option<Seq<char>>, Option<Seq<char>>, Json),
    JsonErrorV,
> {
    match read_str(data, SUBTITLE@) {
        Err(e) => Err(e),
        Ok(st) => match result_type_of(st) {
            None => Err((JsonErrorKind::UnrecognisedValue, SUBTITLE@)),
            Some(rt) => match lookup(data, CARD_SHELF_TITLE@) {
                None => Err((JsonErrorKind::PathNotFound, CARD_SHELF_TITLE@)),
                Some(_) => match lookup(data, "/title/runs"@) {
                    None => Err((JsonErrorKind::PathNotFound, "/title/runs"@)),
                    Some(runs) => Ok((
                        rt,
                        ok_of(read_str(data, SUBTITLE2@)),
                        ok_of(read_str(data, THUMBNAILS@)),
                        runs,
                    )),
                },
            },
        },
    }
}

/// The top results this parser handles: those of artists, with a title
/// whose runs can be read.
pub open spec fn top_result_handled(data: Json) -> bool {
    match read_str(data, SUBTITLE@) {
        Ok(st) => match result_type_of(st) {
            Some(rt) => lookup(data, CARD_SHELF_TITLE@) is Some ==> {
                &&& rt == SearchResultType::Artist
                &&& match lookup(data, "/title/runs"@) {
                    Some(runs) => song_runs_ok(runs),
                    None => true,
                }
            },
            None => true,
        },
        Err(_) => true,
    }
}

/// `t` is the top result that `data` describes.
pub open spec fn top_result_matches(t: TopResult, data: Json) -> bool {
    match top_result_parts(data) {
        Ok((rt, subs, thumbs, runs)) => {
            &&& t.result_type == rt
            &&& opt_str(t.subscribers) == subs
            &&& opt_str(t.thumbnails) == thumbs
            &&& match t.artist_info {
                Some(l) => song_list_matches(l, runs),
                None => false,
            }
        },
        Err(_) => false,
    }
}

/// The top result of a search.
pub fn parse_top_result(data: &Json) -> (r: Result<TopResult, JsonError>)
    requires
        top_result_handled(*data),
    ensures
        match r {
            Ok(t) => top_result_matches(t, *data),
            Err(e) => top_result_parts(*data) == Err::<
                (SearchResultType, Option<Seq<char>>, Option<Seq<char>>, Json),
                JsonErrorV,
            >(err_view(e)),
        },
{
    let st = read_string(data, SUBTITLE)?;
    let result_type = match SearchResultType::from_subtitle(&st) {
        Some(t) => t,
        None => {
            return Err(JsonError { kind: JsonErrorKind::UnrecognisedValue, path: String::from_str(SUBTITLE) });
        },
    };
    let _category = navigate(data, CARD_SHELF_TITLE)?;
    let thumbnails = ok_string(read_string(data, THUMBNAILS));
    let subscribers = ok_string(read_string(data, SUBTITLE2));
    let runs = navigate(data, "/title/runs")?;
    let artist_info = match parse_song_runs(runs) {
        Ok(l) => l,
        Err(e) => {
            return Err(e);
        },
    };
    Ok(TopResult { subscribers, result_type, thumbnails, artist_info: Some(artist_info) })
}

/// The lyrics of a lyrics page: the description of its shelf, and the
/// footer, which names the source.
pub open spec fn lyrics_of(root: Json) -> Result<(Seq<char>, Seq<char>), JsonErrorV> {
    match lookup(root, LYRICS_SHELF@) {
        None => Err((JsonErrorKind::PathNotFound, LYRICS_SHELF@)),
        Some(shelf) => match read_str(shelf, DESCRIPTION@) {
            Err(e) => Err(e),
            Ok(l) => match read_str(shelf, FOOTER_RUN_TEXT@) {
                Err(e) => Err(e),
                Ok(s) => Ok((l, s)),
            },
        },
    }
}

impl ProcessedResult<GetLyricsQuery> {
    /// The lyrics of the song.
    pub fn parse(self) -> (r: Result<Lyrics, JsonError>)
        ensures
            result_view(r, |l: Lyrics| (l.lyrics@, l.source@)) == lyrics_of(self.json_crawler.json),
    {
        let ProcessedResult { json_crawler, .. } = self;
        let description_shelf = navigate(json_crawler.get_json(), LYRICS_SHELF)?;
        let lyrics = read_string(description_shelf, DESCRIPTION)?;
        let source = read_string(description_shelf, FOOTER_RUN_TEXT)?;
        Ok(Lyrics::new(lyrics, source))
    }
}

/// The pointer to the browse id of tab `tab_id` of a watch page.
pub open spec fn tab_browse_id_path(tab_id: nat) -> Seq<char> {
    "/tabs/"@ + decimal(tab_id) + "/tabRenderer/endpoint/browseEndpoint/browseId"@
}

fn get_tab_browse_id<'a>(watch_next_renderer: &'a Json, tab_id: usize) -> (r: Result<&'a Json, JsonError>)
    ensures
        match r {
            Ok(x) => lookup(*watch_next_renderer, tab_browse_id_path(tab_id as nat)) == Some(*x),
            Err(e) => lookup(*watch_next_renderer, tab_browse_id_path(tab_id as nat)) is None
                && err_view(e) == (JsonErrorKind::PathNotFound, tab_browse_id_path(tab_id as nat)),
        },
{
    let p = tab_browse_id_pointer(tab_id);
    navigate(watch_next_renderer, p.as_str())
}

fn tab_browse_id_pointer(tab_id: usize) -> (r: String)
    ensures
        r@ == tab_browse_id_path(tab_id as nat),
{
    let mut p = String::from_str("/tabs/");
    let d = decimal_string(tab_id as u128);
    p.append(d.as_str());
    p.append("/tabRenderer/endpoint/browseEndpoint/browseId");
    p
}

/// The playlist id of the first queue entry that has one.
pub open spec fn first_playlist_id(items: Seq<Json>) -> Option<Seq<char>>
    decreases items.len(),
{
    if items.len() == 0 {
        None
    } else {
        match read_str(items[0], QUEUE_ITEM_PLAYLIST_ID@) {
            Ok(id) => Some(id),
            Err(_) => first_playlist_id(items.drop_first()),
        }
    }
}

/// The watch playlist of a watch page: the browse id of its lyrics tab,
/// and the playlist of the first queue entry that names one.
pub open spec fn watch_playlist_of(root: Json) -> Result<(Option<Seq<char>>, Seq<char>), JsonErrorV> {
    match lookup(root, WATCH_NEXT_RENDERER@) {
        None => Err((JsonErrorKind::PathNotFound, WATCH_NEXT_RENDERER@)),
        Some(renderer) => match lookup(renderer, tab_browse_id_path(1)) {
            None => Err((JsonErrorKind::PathNotFound, tab_browse_id_path(1))),
            Some(Json::Str(lyrics_id)) => match read_array(renderer, WATCH_QUEUE_CONTENTS@) {
                Err(e) => Err(e),
                Ok(items) => Ok((first_playlist_id(items), lyrics_id@)),
            },
            Some(_) => Err((JsonErrorKind::UnexpectedType, tab_browse_id_path(1))),
        },
    }
}

fn find_playlist_id(items: &Vec<Json>) -> (r: Option<String>)
    ensures
        opt_str(r) == first_playlist_id(items@),
{
    let mut i: usize = 0;
    assert(items@.skip(0) =~= items@);
    while i < items.len()
        invariant
            i <= items.len(),
            first_playlist_id(items@) == first_playlist_id(items@.skip(i as int)),
        decreases items.len() - i,
    {
        let ghost rest = items@.skip(i as int);
        assert(rest[0] == items@[i as int]);
        match read_string(&items[i], QUEUE_ITEM_PLAYLIST_ID) {
            Ok(id) => {
                return Some(id);
            },
            Err(_) => {},
        }
        assert(rest.drop_first() =~= items@.skip(i + 1));
        i = i + 1;
    }
    assert(items@.skip(i as int) =~= Seq::<Json>::empty());
    None
}

impl ProcessedResult<GetWatchPlaylistQuery> {
    /// The playlist and lyrics of what plays after the video.
    pub fn parse(self) -> (r: Result<WatchPlaylist, JsonError>)
        ensures
            result_view(r, |w: WatchPlaylist| (
                match w.playlist_id {
                    Some(p) => Some(p.0@),
                    None => None,
                },
                w.lyrics_id.0@,
            )) == watch_playlist_of(self.json_crawler.json),
    {
        let ProcessedResult { json_crawler, .. } = self;
        let watch_next_renderer = navigate(json_crawler.get_json(), WATCH_NEXT_RENDERER)?;
        let lyrics_id = match get_tab_browse_id(watch_next_renderer, 1)? {
            Json::Str(s) => LyricsID(s.clone()),
            _ => {
                return Err(JsonError {
                    kind: JsonErrorKind::UnexpectedType,
                    path: tab_browse_id_pointer(1),
                });
            },
        };
        let results = array_at(watch_next_renderer, WATCH_QUEUE_CONTENTS)?;
        let playlist_id = match find_playlist_id(results) {
            Some(p) => Some(PlaylistID(p)),
            None => None,
        };
        Ok(WatchPlaylist::new(playlist_id, lyrics_id))
    }
}

}
