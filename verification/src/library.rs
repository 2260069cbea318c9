//! Parsers of the user's library: artists and playlists.
use vstd::prelude::*;
use crate::common::{ChannelID, PlaylistID};
use crate::json::{
    array_at, err_view, lookup, navigate, path_exists, read_array, read_str, read_string,
    read_thumbnail_list, read_thumbnails, result_view, thumbnail_view, Json, JsonCrawler, JsonError,
    JsonErrorKind, JsonErrorV, Thumbnail,
};
use crate::nav::{
    ITEM_SECTION_GRID, LIBRARY_SECTION_GRID, LIBRARY_SECTION_LIST, MRLIR, MTRIR,
    NAVIGATION_BROWSE_ID, THUMBNAIL_RENDERER, TITLE_BROWSE_ID, TITLE_TEXT,
};
use crate::parse::{item_text, parse_item_text, ProcessedResult};
use crate::query::{GetLibraryArtistsQuery, GetLibraryPlaylistQuery};
use crate::text::opt_str;

verus! {

/// An artist of the user's library.
#[derive(Clone, Debug, PartialEq, Eq)]
pub struct LibraryArtist {
    pub channel_id: ChannelID,
    pub artist: String,
    pub byline: String,
}

/// A playlist of the user's library.
#[derive(Clone, Debug, PartialEq, Eq)]
pub struct Playlist {
    pub description: Option<String>,
    pub author: Option<String>,
    pub playlist_id: PlaylistID,
    pub title: String,
    pub thumbnails: Vec<Thumbnail>,
    pub count: Option<usize>,
}

/// A library artist as contracts speak of it: channel id, name, byline.
pub type ArtistView = (Seq<char>, Seq<char>, Seq<char>);

pub open spec fn artist_view(a: LibraryArtist) -> ArtistView {
    (a.channel_id.0@, a.artist@, a.byline@)
}

/// A library playlist as contracts speak of it.
pub struct PlaylistView {
    pub description: Option<Seq<char>>,
    pub author: Option<Seq<char>>,
    pub count: Option<usize>,
    pub playlist_id: Seq<char>,
    pub title: Seq<char>,
    pub thumbnails: Seq<(u64, u64, Seq<char>)>,
}


pub open spec fn playlist_view(p: Playlist) -> PlaylistView {
    PlaylistView {
        description: opt_str(p.description),
        author: opt_str(p.author),
        count: p.count,
        playlist_id: p.playlist_id.0@,
        title: p.title@,
        thumbnails: p.thumbnails@.map_values(|t: Thumbnail| thumbnail_view(t)),
    }
}



/// The grid of a library page: under the item section when the section
/// list holds one at the pointer `itemSectionRenderer`, else under the
/// first section. `None` when the page has no section list (an empty library).
pub open spec fn library_contents(root: Json) -> Option<Json> {
    match lookup(root, LIBRARY_SECTION_LIST@) {
        None => None,
        Some(section) => if lookup(section, "itemSectionRenderer"@) is Some {
            lookup(root, ITEM_SECTION_GRID@)
        } else {
            lookup(root, LIBRARY_SECTION_GRID@)
        },
    }
}

/// One artist of the grid.
pub open spec fn artist_item(item: Json) -> Result<ArtistView, JsonErrorV> {
    match lookup(item, MRLIR@) {
        None => Err((JsonErrorKind::PathNotFound, MRLIR@)),
        Some(data) => match read_str(data, NAVIGATION_BROWSE_ID@) {
            Err(e) => Err(e),
            Ok(channel) => match item_text(data, 0, 0) {
                Err(e) => Err(e),
                Ok(artist) => match item_text(data, 1, 0) {
                    Err(e) => Err(e),
                    Ok(byline) => Ok((channel, artist, byline)),
                },
            },
        },
    }
}

/// The artists of the items, in order; the first failure when one fails.
pub open spec fn artists_of(items: Seq<Json>) -> Result<Seq<ArtistView>, JsonErrorV>
    decreases items.len(),
{
    if items.len() == 0 {
        Ok(Seq::empty())
    } else {
        match artists_of(items.drop_last()) {
            Err(e) => Err(e),
            Ok(v) => match artist_item(items.last()) {
                Err(e) => Err(e),
                Ok(a) => Ok(v.push(a)),
            },
        }
    }
}

/// The artists of a grid that is an array of items.
pub open spec fn content_artists(contents: Json) -> Result<Seq<ArtistView>, JsonErrorV> {
    match contents {
        Json::Array(items) => artists_of(items@),
        _ => Err((JsonErrorKind::UnexpectedType, Seq::empty())),
    }
}

/// The artists of a library page; none when the library is empty.
pub open spec fn library_artists(root: Json) -> Result<Seq<ArtistView>, JsonErrorV> {
    match library_contents(root) {
        None => Ok(Seq::empty()),
        Some(c) => content_artists(c),
    }
}

/// The texts of a list of runs, in order.
pub open spec fn run_texts(runs: Seq<Json>) -> Result<Seq<char>, JsonErrorV>
    decreases runs.len(),
{
    if runs.len() == 0 {
        Ok(Seq::empty())
    } else {
        match run_texts(runs.drop_last()) {
            Err(e) => Err(e),
            Ok(t) => match read_str(runs.last(), "/text"@) {
                Err(e) => Err(e),
                Ok(x) => Ok(t + x),
            },
        }
    }
}

/// The description of a playlist: the joined texts of its subtitle runs,
/// when it has a subtitle.
pub open spec fn subtitle_text(r: Json) -> Result<Option<Seq<char>>, JsonErrorV> {
    match lookup(r, "/subtitle"@) {
        None => Ok(None),
        Some(sub) => match read_array(sub, "/runs"@) {
            Err(e) => Err(e),
            Ok(runs) => match run_texts(runs) {
                Err(e) => Err(e),
                Ok(t) => Ok(Some(t)),
            },
        },
    }
}

/// One playlist of the grid.
pub open spec fn playlist_item(item: Json) -> Result<PlaylistView, JsonErrorV> {
    match lookup(item, MTRIR@) {
        None => Err((JsonErrorKind::PathNotFound, MTRIR@)),
        Some(r) => match read_str(r, TITLE_TEXT@) {
            Err(e) => Err(e),
            Ok(title) => match read_str(r, TITLE_BROWSE_ID@) {
                Err(e) => Err(e),
                Ok(id) => match read_thumbnails(r, THUMBNAIL_RENDERER@) {
                    Err(e) => Err(e),
                    Ok(th) => match subtitle_text(r) {
                        Err(e) => Err(e),
                        Ok(d) => Ok(PlaylistView {
                            description: d,
                            author: None,
                            count: None,
                            playlist_id: id,
                            title,
                            thumbnails: th,
                        }),
                    },
                },
            },
        },
    }
}

/// The playlists of the items, in order; the first failure when one fails.
pub open spec fn playlists_of(items: Seq<Json>) -> Result<Seq<PlaylistView>, JsonErrorV>
    decreases items.len(),
{
    if items.len() == 0 {
        Ok(Seq::empty())
    } else {
        match playlists_of(items.drop_last()) {
            Err(e) => Err(e),
            Ok(v) => match playlist_item(items.last()) {
                Err(e) => Err(e),
                Ok(a) => Ok(v.push(a)),
            },
        }
    }
}

/// The playlists of a grid: its `items` but the first, which is the
/// link that creates a new playlist.
pub open spec fn content_playlists(contents: Json) -> Result<Seq<PlaylistView>, JsonErrorV> {
    match read_array(contents, "/items"@) {
        Err(e) => Err(e),
        Ok(items) => playlists_of(if items.len() == 0 { items } else { items.drop_first() }),
    }
}

/// The playlists of a library page; none when the library is empty.
pub open spec fn library_playlists(root: Json) -> Result<Seq<PlaylistView>, JsonErrorV> {
    match library_contents(root) {
        None => Ok(Seq::empty()),
        Some(c) => content_playlists(c),
    }
}

/// Each item of the grid gives one artist, in order.
pub proof fn law_one_artist_per_item(items: Seq<Json>)
    ensures
        artists_of(items) matches Ok(v) ==> v.len() == items.len()
            && forall|i: int| 0 <= i < items.len() ==> artist_item(#[trigger] items[i]) == Ok::<ArtistView, JsonErrorV>(v[i]),
    decreases items.len(),
{
    if items.len() > 0 {
        law_one_artist_per_item(items.drop_last());
        if artists_of(items) is Ok {
            assert forall|i: int| 0 <= i < items.len() - 1 implies #[trigger] items[i] == items.drop_last()[i] by {}
        }
    }
}

proof fn lemma_playlists_per_item(items: Seq<Json>)
    ensures
        playlists_of(items) matches Ok(v) ==> v.len() == items.len()
            && forall|i: int| 0 <= i < items.len() ==> playlist_item(#[trigger] items[i]) == Ok::<PlaylistView, JsonErrorV>(v[i]),
    decreases items.len(),
{
    if items.len() > 0 {
        lemma_playlists_per_item(items.drop_last());
        if playlists_of(items) is Ok {
            assert forall|i: int| 0 <= i < items.len() - 1 implies #[trigger] items[i] == items.drop_last()[i] by {}
        }
    }
}

/// Each item of a grid's `items` but the first, the link that creates a
/// new playlist, gives one playlist, in order.
pub proof fn law_playlists_skip_new_playlist_link(contents: Json)
    ensures
        content_playlists(contents) matches Ok(v) ==> read_array(contents, "/items"@) matches Ok(items)
            && v.len() == (if items.len() == 0 { 0 } else { items.len() - 1 })
            && forall|i: int| 0 <= i < v.len() ==> playlist_item(#[trigger] items[i + 1]) == Ok::<PlaylistView, JsonErrorV>(v[i]),
{
    match read_array(contents, "/items"@) {
        Ok(items) => {
            if items.len() > 0 {
                lemma_playlists_per_item(items.drop_first());
                assert forall|i: int| 0 <= i < items.len() - 1 implies #[trigger] items[i + 1] == items.drop_first()[i] by {}
            } else {
                lemma_playlists_per_item(items);
            }
        },
        Err(_) => {},
    }
}

proof fn lemma_artists_prefix_err(items: Seq<Json>, k: int)
    requires
        0 <= k <= items.len(),
        artists_of(items.subrange(0, k)) is Err,
    ensures
        artists_of(items) == artists_of(items.subrange(0, k)),
    decreases items.len(),
{
    if k < items.len() {
        assert(items.drop_last().subrange(0, k) =~= items.subrange(0, k));
        lemma_artists_prefix_err(items.drop_last(), k);
    } else {
        assert(items.subrange(0, k) =~= items);
    }
}

proof fn lemma_playlists_prefix_err(items: Seq<Json>, k: int)
    requires
        0 <= k <= items.len(),
        playlists_of(items.subrange(0, k)) is Err,
    ensures
        playlists_of(items) == playlists_of(items.subrange(0, k)),
    decreases items.len(),
{
    if k < items.len() {
        assert(items.drop_last().subrange(0, k) =~= items.subrange(0, k));
        lemma_playlists_prefix_err(items.drop_last(), k);
    } else {
        assert(items.subrange(0, k) =~= items);
    }
}

proof fn lemma_runs_prefix_err(items: Seq<Json>, k: int)
    requires
        0 <= k <= items.len(),
        run_texts(items.subrange(0, k)) is Err,
    ensures
        run_texts(items) == run_texts(items.subrange(0, k)),
    decreases items.len(),
{
    if k < items.len() {
        assert(items.drop_last().subrange(0, k) =~= items.subrange(0, k));
        lemma_runs_prefix_err(items.drop_last(), k);
    } else {
        assert(items.subrange(0, k) =~= items);
    }
}

/// The grid of a library page, as `library_contents` states it.
fn process_library_contents(json: &Json) -> (r: Option<&Json>)
    ensures
        match r {
            Some(x) => library_contents(*json) == Some(*x),
            None => library_contents(*json) is None,
        },
{
    match json.pointer(LIBRARY_SECTION_LIST) {
        Some(section) => {
            if path_exists(section, "itemSectionRenderer") {
                json.pointer(ITEM_SECTION_GRID)
            } else {
                json.pointer(LIBRARY_SECTION_GRID)
            }
        },
        None => None,
    }
}

fn parse_artist_item(item: &Json) -> (r: Result<LibraryArtist, JsonError>)
    ensures
        result_view(r, |a: LibraryArtist| artist_view(a)) == artist_item(*item),
{
    let data = navigate(item, MRLIR)?;
    let channel_id = read_string(data, NAVIGATION_BROWSE_ID)?;
    let artist = parse_item_text(data, 0, 0)?;
    let byline = parse_item_text(data, 1, 0)?;
    Ok(LibraryArtist { channel_id: ChannelID(channel_id), artist, byline })
}

fn parse_content_list_artists(contents: &Json) -> (r: Result<Vec<LibraryArtist>, JsonError>)
    ensures
        result_view(r, |v: Vec<LibraryArtist>| v@.map_values(|a: LibraryArtist| artist_view(a)))
            == content_artists(*contents),
{
    let items = match contents {
        Json::Array(items) => items,
        _ => {
            return Err(JsonError { kind: JsonErrorKind::UnexpectedType, path: String::new() });
        },
    };
    let mut results: Vec<LibraryArtist> = Vec::new();
    let mut i: usize = 0;
    assert(items@.subrange(0, 0) =~= Seq::<Json>::empty());
    assert(results@.map_values(|a: LibraryArtist| artist_view(a)) =~= Seq::empty());
    while i < items.len()
        invariant
            i <= items.len(),
            *contents == Json::Array(*items),
            artists_of(items@.subrange(0, i as int)) == Ok::<Seq<ArtistView>, JsonErrorV>(
                results@.map_values(|a: LibraryArtist| artist_view(a)),
            ),
        decreases items.len() - i,
    {
        proof {
            assert(items@.subrange(0, i + 1).drop_last() =~= items@.subrange(0, i as int));
            assert(items@.subrange(0, i + 1).last() == items@[i as int]);
        }
        let ghost before = results@;
        match parse_artist_item(&items[i]) {
            Ok(a) => {
                results.push(a);
                assert(results@.map_values(|a: LibraryArtist| artist_view(a)) =~= before.map_values(
                    |a: LibraryArtist| artist_view(a),
                ).push(artist_view(a)));
            },
            Err(e) => {
                proof {
                    lemma_artists_prefix_err(items@, i + 1);
                }
                return Err(e);
            },
        }
        i = i + 1;
    }
    assert(items@.subrange(0, items.len() as int) =~= items@);
    Ok(results)
}

fn parse_library_artists(json_crawler: JsonCrawler) -> (r: Result<Vec<LibraryArtist>, JsonError>)
    ensures
        result_view(r, |v: Vec<LibraryArtist>| v@.map_values(|a: LibraryArtist| artist_view(a)))
            == library_artists(json_crawler.json),
{
    match process_library_contents(json_crawler.get_json()) {
        Some(contents) => parse_content_list_artists(contents),
        None => {
            let v: Vec<LibraryArtist> = Vec::new();
            assert(v@.map_values(|a: LibraryArtist| artist_view(a)) =~= Seq::empty());
            Ok(v)
        },
    }
}

fn parse_run_texts(runs: &Vec<Json>) -> (r: Result<String, JsonError>)
    ensures
        result_view(r, |s: String| s@) == run_texts(runs@),
{
    let mut out = String::new();
    let mut i: usize = 0;
    assert(runs@.subrange(0, 0) =~= Seq::<Json>::empty());
    while i < runs.len()
        invariant
            i <= runs.len(),
            run_texts(runs@.subrange(0, i as int)) == Ok::<Seq<char>, JsonErrorV>(out@),
        decreases runs.len() - i,
    {
        proof {
            assert(runs@.subrange(0, i + 1).drop_last() =~= runs@.subrange(0, i as int));
            assert(runs@.subrange(0, i + 1).last() == runs@[i as int]);
        }
        match read_string(&runs[i], "/text") {
            Ok(t) => {
                out.append(t.as_str());
            },
            Err(e) => {
                proof {
                    lemma_runs_prefix_err(runs@, i + 1);
                }
                return Err(e);
            },
        }
        i = i + 1;
    }
    assert(runs@.subrange(0, runs.len() as int) =~= runs@);
    Ok(out)
}

fn parse_playlist_item(item: &Json) -> (r: Result<Playlist, JsonError>)
    ensures
        result_view(r, |p: Playlist| playlist_view(p)) == playlist_item(*item),
{
    let result = navigate(item, MTRIR)?;
    let title = read_string(result, TITLE_TEXT)?;
    let playlist_id = read_string(result, TITLE_BROWSE_ID)?;
    let thumbnails = read_thumbnail_list(result, THUMBNAIL_RENDERER)?;
    let mut description: Option<String> = None;
    let count: Option<usize> = None;
    let author: Option<String> = None;
    match result.pointer("/subtitle") {
        Some(subtitle) => {
            let runs = array_at(subtitle, "/runs")?;
            description = Some(parse_run_texts(runs)?);
        },
        None => {},
    }
    let playlist = Playlist {
        description,
        author,
        playlist_id: PlaylistID(playlist_id),
        title,
        thumbnails,
        count,
    };
    assert(playlist_item(*item) == Ok::<PlaylistView, JsonErrorV>(playlist_view(playlist)));
    Ok(playlist)
}

fn parse_content_list_playlist(contents: &Json) -> (r: Result<Vec<Playlist>, JsonError>)
    ensures
        result_view(r, |v: Vec<Playlist>| v@.map_values(|p: Playlist| playlist_view(p)))
            == content_playlists(*contents),
{
    let items = array_at(contents, "/items")?;
    let ghost rest = if items@.len() == 0 { items@ } else { items@.drop_first() };
    let mut results: Vec<Playlist> = Vec::new();
    if items.len() == 0 {
        assert(results@.map_values(|p: Playlist| playlist_view(p)) =~= Seq::empty());
        return Ok(results);
    }
    // The first item is the link that creates a new playlist.
    let mut i: usize = 1;
    assert(rest.subrange(0, 0) =~= Seq::<Json>::empty());
    assert(results@.map_values(|p: Playlist| playlist_view(p)) =~= Seq::empty());
    while i < items.len()
        invariant
            1 <= i <= items.len(),
            rest == items@.drop_first(),
            read_array(*contents, "/items"@) == Ok::<Seq<Json>, JsonErrorV>(items@),
            playlists_of(rest.subrange(0, i - 1)) == Ok::<Seq<PlaylistView>, JsonErrorV>(
                results@.map_values(|p: Playlist| playlist_view(p)),
            ),
        decreases items.len() - i,
    {
        proof {
            assert(rest.subrange(0, i as int).drop_last() =~= rest.subrange(0, i - 1));
            assert(rest.subrange(0, i as int).last() == items@[i as int]);
        }
        let ghost before = results@;
        match parse_playlist_item(&items[i]) {
            Ok(p) => {
                results.push(p);
                assert(results@.map_values(|p: Playlist| playlist_view(p)) =~= before.map_values(
                    |p: Playlist| playlist_view(p),
                ).push(playlist_view(p)));
            },
            Err(e) => {
                proof {
                    lemma_playlists_prefix_err(rest, i as int);
                }
                return Err(e);
            },
        }
        i = i + 1;
    }
    assert(rest.subrange(0, i - 1) =~= rest);
    Ok(results)
}

fn parse_library_playlist_query(json_crawler: JsonCrawler) -> (r: Result<Vec<Playlist>, JsonError>)
    ensures
        result_view(r, |v: Vec<Playlist>| v@.map_values(|p: Playlist| playlist_view(p)))
            == library_playlists(json_crawler.json),
{
    match process_library_contents(json_crawler.get_json()) {
        Some(contents) => parse_content_list_playlist(contents),
        None => {
            let v: Vec<Playlist> = Vec::new();
            assert(v@.map_values(|p: Playlist| playlist_view(p)) =~= Seq::empty());
            Ok(v)
        },
    }
}

impl ProcessedResult<GetLibraryArtistsQuery> {
    /// The artists of the user's library.
    pub fn parse(self) -> (r: Result<Vec<LibraryArtist>, JsonError>)
        ensures
            result_view(r, |v: Vec<LibraryArtist>| v@.map_values(|a: LibraryArtist| artist_view(a)))
                == library_artists(self.json_crawler.json),
    {
        let ProcessedResult { json_crawler, .. } = self;
        parse_library_artists(json_crawler)
    }
}

impl ProcessedResult<GetLibraryPlaylistQuery> {
    /// The playlists of the user's library.
    pub fn parse(self) -> (r: Result<Vec<Playlist>, JsonError>)
        ensures
            result_view(r, |v: Vec<Playlist>| v@.map_values(|p: Playlist| playlist_view(p)))
                == library_playlists(self.json_crawler.json),
    {
        let ProcessedResult { json_crawler, .. } = self;
        parse_library_playlist_query(json_crawler)
    }
}

}
