use youtui::common::{ChannelID, LyricsID, PlaylistID, Thumbnail, VideoID};
use youtui::json::{Json, JsonCrawler, JsonErrorKind};
use youtui::json_text::json_to_string;
use youtui::library::{LibraryArtist, Playlist};
use youtui::parse::{
    parse_top_result, ParsedSongAlbum, ParsedSongArtist, ParsedSongList, ProcessedResult,
    SearchResultType,
};
use youtui::query::{
    GetLibraryArtistsQuery, GetLibraryPlaylistQuery, GetLyricsQuery, GetWatchPlaylistQuery,
    SearchQuery,
};

fn from_value(v: serde_json::Value) -> Json {
    match v {
        serde_json::Value::Null => Json::Null,
        serde_json::Value::Bool(b) => Json::Bool(b),
        serde_json::Value::Number(n) => match (n.as_i64(), n.as_u64()) {
            (Some(i), _) => Json::Int(i as i128),
            (None, Some(u)) => Json::Int(u as i128),
            _ => Json::Fractional(n.to_string()),
        },
        serde_json::Value::String(s) => Json::Str(s),
        serde_json::Value::Array(a) => Json::Array(a.into_iter().map(from_value).collect()),
        serde_json::Value::Object(m) => {
            Json::Object(m.into_iter().map(|(k, v)| (k, from_value(v))).collect())
        }
    }
}

fn parse_text(t: &str) -> Json {
    from_value(serde_json::from_str(t).unwrap())
}

fn s(t: &str) -> Json {
    Json::Str(t.to_string())
}

fn obj(members: Vec<(&str, Json)>) -> Json {
    Json::Object(members.into_iter().map(|(k, v)| (k.to_string(), v)).collect())
}

fn arr(items: Vec<Json>) -> Json {
    Json::Array(items)
}

/// `leaf` under the members named by `path`, outermost first.
fn nest(path: &[&str], leaf: Json) -> Json {
    path.iter().rev().fold(leaf, |acc, k| obj(vec![(k, acc)]))
}

fn runs(texts: &[&str]) -> Json {
    nest(&["runs"], arr(texts.iter().map(|t| obj(vec![("text", s(t))])).collect()))
}

fn library_page(grid: Json) -> Json {
    nest(
        &["contents", "singleColumnBrowseResultsRenderer", "tabs"],
        arr(vec![nest(
            &["tabRenderer", "content", "sectionListRenderer", "contents"],
            arr(vec![obj(vec![("gridRenderer", grid)])]),
        )]),
    )
}

fn flex_column(texts: &[&str]) -> Json {
    nest(&["musicResponsiveListItemFlexColumnRenderer", "text"], runs(texts))
}

fn browse_endpoint(id: &str) -> Json {
    nest(&["browseEndpoint", "browseId"], s(id))
}

fn thumbnail(size: i128, url: &str) -> Json {
    obj(vec![("height", Json::Int(size)), ("width", Json::Int(size)), ("url", s(url))])
}

#[test]
fn test_all_processed_impl() {
    let query = SearchQuery::new("Beatles");
    let json_crawler = JsonCrawler::from_json(parse_text("{\"name\": \"John Doe\"}"));
    let json_crawler_clone = JsonCrawler::from_json(parse_text("{\"name\": \"John Doe\"}"));
    let raw = ProcessedResult::from_raw(json_crawler, query.clone());
    assert_eq!(&query, raw.get_query());
    assert_eq!(
        json_to_string(json_crawler_clone.get_json()),
        json_to_string(raw.get_crawler().get_json())
    );
}

#[test]
fn test_library_artists_dummy_json() {
    let item = obj(vec![(
        "musicResponsiveListItemRenderer",
        obj(vec![
            ("navigationEndpoint", browse_endpoint("VLLM")),
            ("flexColumns", arr(vec![flex_column(&["Liked Music"]), flex_column(&["test"])])),
        ]),
    )]);
    let page = library_page(arr(vec![item]));
    let result = ProcessedResult::from_raw(
        JsonCrawler::from_json(page),
        GetLibraryArtistsQuery::default(),
    )
    .parse()
    .unwrap();
    assert_eq!(
        result,
        vec![LibraryArtist {
            channel_id: ChannelID("VLLM".to_string()),
            artist: "Liked Music".to_string(),
            byline: "test".to_string(),
        }]
    );
}

#[test]
fn library_artist_without_byline_fails() {
    let item = obj(vec![(
        "musicResponsiveListItemRenderer",
        obj(vec![
            ("navigationEndpoint", browse_endpoint("VLLM")),
            ("flexColumns", arr(vec![flex_column(&["Liked Music"])])),
        ]),
    )]);
    let page = library_page(arr(vec![item]));
    let e = ProcessedResult::from_raw(JsonCrawler::from_json(page), GetLibraryArtistsQuery {})
        .parse()
        .unwrap_err();
    assert_eq!(e.kind, JsonErrorKind::PathNotFound);
    assert_eq!(e.path, "/flexColumns/1/musicResponsiveListItemFlexColumnRenderer");
}

#[test]
fn empty_library_has_no_artists_or_playlists() {
    let page = obj(vec![("contents", obj(vec![]))]);
    let artists = ProcessedResult::from_raw(JsonCrawler::from_json(page), GetLibraryArtistsQuery {})
        .parse()
        .unwrap();
    assert!(artists.is_empty());
    let page = obj(vec![]);
    let playlists =
        ProcessedResult::from_raw(JsonCrawler::from_json(page), GetLibraryPlaylistQuery {})
            .parse()
            .unwrap();
    assert!(playlists.is_empty());
}

fn playlist_item(id: &str, title: &str, sub: Option<&[&str]>, thumbs: Vec<Json>) -> Json {
    let mut members = vec![
        (
            "title",
            nest(
                &["runs"],
                arr(vec![obj(vec![
                    ("text", s(title)),
                    ("navigationEndpoint", browse_endpoint(id)),
                ])]),
            ),
        ),
        (
            "thumbnailRenderer",
            nest(&["musicThumbnailRenderer", "thumbnail", "thumbnails"], arr(thumbs)),
        ),
    ];
    if let Some(texts) = sub {
        members.push(("subtitle", runs(texts)));
    }
    obj(vec![("musicTwoRowItemRenderer", obj(members))])
}

#[test]
fn library_playlists_skip_the_new_playlist_link() {
    let liked = "https://www.gstatic.com/youtube/media/ytm/images/pbg/liked-music-@192.png";
    let liked_big = "https://www.gstatic.com/youtube/media/ytm/images/pbg/liked-music-@576.png";
    let grid = obj(vec![(
        "items",
        arr(vec![
            obj(vec![("newPlaylist", Json::Null)]),
            playlist_item(
                "VLLM",
                "Liked Music",
                Some(&["Auto playlist"]),
                vec![thumbnail(192, liked), thumbnail(576, liked_big)],
            ),
            playlist_item(
                "VLPLCZQcydUIP07hMOwAXIag92l76d3z3Thv",
                "Listen later",
                Some(&["Nick Dowsett", " • ", "20 tracks"]),
                vec![],
            ),
            playlist_item("VLSE", "Episodes for Later", None, vec![]),
        ]),
    )]);
    let result = ProcessedResult::from_raw(
        JsonCrawler::from_json(library_page(grid)),
        GetLibraryPlaylistQuery {},
    )
    .parse()
    .unwrap();
    assert_eq!(
        result,
        vec![
            Playlist {
                description: Some("Auto playlist".to_string()),
                author: None,
                playlist_id: PlaylistID("VLLM".to_string()),
                title: "Liked Music".to_string(),
                thumbnails: vec![
                    Thumbnail { height: 192, width: 192, url: liked.to_string() },
                    Thumbnail { height: 576, width: 576, url: liked_big.to_string() },
                ],
                count: None,
            },
            Playlist {
                description: Some("Nick Dowsett • 20 tracks".to_string()),
                author: None,
                playlist_id: PlaylistID("VLPLCZQcydUIP07hMOwAXIag92l76d3z3Thv".to_string()),
                title: "Listen later".to_string(),
                thumbnails: vec![],
                count: None,
            },
            Playlist {
                description: None,
                author: None,
                playlist_id: PlaylistID("VLSE".to_string()),
                title: "Episodes for Later".to_string(),
                thumbnails: vec![],
                count: None,
            },
        ]
    );
}

#[test]
fn library_playlist_without_thumbnails_fails() {
    let bad = obj(vec![(
        "musicTwoRowItemRenderer",
        obj(vec![(
            "title",
            nest(
                &["runs"],
                arr(vec![obj(vec![("text", s("T")), ("navigationEndpoint", browse_endpoint("VLX"))])]),
            ),
        )]),
    )]);
    let grid = obj(vec![("items", arr(vec![Json::Null, bad]))]);
    let e = ProcessedResult::from_raw(
        JsonCrawler::from_json(library_page(grid)),
        GetLibraryPlaylistQuery {},
    )
    .parse()
    .unwrap_err();
    assert_eq!(e.kind, JsonErrorKind::PathNotFound);
    assert_eq!(e.path, "/thumbnailRenderer/musicThumbnailRenderer/thumbnail/thumbnails");
}

fn lyrics_page(lyrics: &str, source: &str) -> Json {
    nest(
        &["contents", "sectionListRenderer", "contents"],
        arr(vec![obj(vec![(
            "musicDescriptionShelfRenderer",
            obj(vec![("description", runs(&[lyrics])), ("footer", runs(&[source]))]),
        )])]),
    )
}

#[test]
fn lyrics_and_their_source() {
    let page = lyrics_page("Push \r\nCome on", "Source: LyricFind");
    let query = GetLyricsQuery::new(LyricsID("".into()));
    let lyrics = ProcessedResult::from_raw(JsonCrawler::from_json(page), query).parse().unwrap();
    assert_eq!(lyrics.lyrics, "Push \r\nCome on");
    assert_eq!(lyrics.source, "Source: LyricFind");
    let e = ProcessedResult::from_raw(JsonCrawler::from_json(Json::Null), GetLyricsQuery::new(LyricsID("".into())))
        .parse()
        .unwrap_err();
    assert_eq!(e.kind, JsonErrorKind::PathNotFound);
    assert_eq!(e.path, "/contents/sectionListRenderer/contents/0/musicDescriptionShelfRenderer");
}

fn watch_page(queue: Vec<Json>, lyrics_tab: Json) -> Json {
    let renderer = obj(vec![(
        "tabs",
        arr(vec![
            nest(
                &[
                    "tabRenderer",
                    "content",
                    "musicQueueRenderer",
                    "content",
                    "playlistPanelRenderer",
                    "contents",
                ],
                arr(queue),
            ),
            nest(&["tabRenderer", "endpoint", "browseEndpoint", "browseId"], lyrics_tab),
        ]),
    )]);
    nest(
        &[
            "contents",
            "singleColumnMusicWatchNextResultsRenderer",
            "tabbedRenderer",
            "watchNextTabbedResultsRenderer",
        ],
        renderer,
    )
}

fn queue_entry(playlist: &str) -> Json {
    nest(
        &["playlistPanelVideoRenderer", "navigationEndpoint", "watchEndpoint", "playlistId"],
        s(playlist),
    )
}

#[test]
fn watch_playlist_takes_the_first_playlist_id() {
    let page = watch_page(
        vec![obj(vec![("automixPreviewVideoRenderer", Json::Null)]), queue_entry("RDAMVM1"), queue_entry("RDAMVM2")],
        s("MPLYt_abc"),
    );
    let query = GetWatchPlaylistQuery::new(VideoID("v".to_string()));
    let w = ProcessedResult::from_raw(JsonCrawler::from_json(page), query).parse().unwrap();
    assert_eq!(w.playlist_id, Some(PlaylistID("RDAMVM1".to_string())));
    assert_eq!(w.lyrics_id, LyricsID("MPLYt_abc".to_string()));
    let page = watch_page(vec![], s("MPLYt_abc"));
    let query = GetWatchPlaylistQuery::new(VideoID("v".to_string()));
    let w = ProcessedResult::from_raw(JsonCrawler::from_json(page), query).parse().unwrap();
    assert_eq!(w.playlist_id, None);
}

#[test]
fn watch_playlist_needs_a_lyrics_id_string() {
    let page = watch_page(vec![], Json::Int(3));
    let query = GetWatchPlaylistQuery::new(VideoID("v".to_string()));
    let e = ProcessedResult::from_raw(JsonCrawler::from_json(page), query).parse().unwrap_err();
    assert_eq!(e.kind, JsonErrorKind::UnexpectedType);
    assert_eq!(e.path, "/tabs/1/tabRenderer/endpoint/browseEndpoint/browseId");
}

fn title_run(text: &str, id: Option<&str>) -> Json {
    let endpoint = match id {
        Some(i) => browse_endpoint(i),
        None => obj(vec![]),
    };
    obj(vec![("text", s(text)), ("navigationEndpoint", endpoint)])
}

fn top_result_data(kind: &str, title_runs: Vec<Json>) -> Json {
    obj(vec![
        ("subtitle", runs(&[kind, " • ", "1M subscribers"])),
        (
            "header",
            nest(&["musicCardShelfHeaderBasicRenderer", "title"], runs(&["Top result"])),
        ),
        ("title", nest(&["runs"], arr(title_runs))),
    ])
}

#[test]
fn top_result_of_an_artist() {
    let data = top_result_data(
        "Artist",
        vec![
            title_run("The Beatles", Some("UC123")),
            obj(vec![("text", s(" • "))]),
            title_run("Abbey Road", Some("MPREb_1")),
            obj(vec![("text", s(" • "))]),
            title_run("Let It Be", Some("x_release_detail_y")),
            obj(vec![]),
            title_run("Nobody", None),
        ],
    );
    let t = parse_top_result(&data).unwrap();
    assert_eq!(t.result_type, SearchResultType::Artist);
    assert_eq!(t.subscribers, Some("1M subscribers".to_string()));
    assert_eq!(t.thumbnails, None);
    assert_eq!(
        t.artist_info,
        Some(ParsedSongList {
            artists: vec![
                ParsedSongArtist {
                    name: "\"The Beatles\"".to_string(),
                    id: Some("\"UC123\"".to_string()),
                },
                ParsedSongArtist {
                    name: "\"Abbey Road\"".to_string(),
                    id: Some("\"MPREb_1\"".to_string()),
                },
                ParsedSongArtist { name: "\"Nobody\"".to_string(), id: None },
            ],
            album: Some(ParsedSongAlbum {
                name: Some("\"Let It Be\"".to_string()),
                id: Some("\"x_release_detail_y\"".to_string()),
            }),
            views: None,
            duration: None,
            year: None,
        })
    );
}

#[test]
fn top_result_errors() {
    let no_subtitle = obj(vec![]);
    let e = parse_top_result(&no_subtitle).unwrap_err();
    assert_eq!(e.kind, JsonErrorKind::PathNotFound);
    assert_eq!(e.path, "/subtitle/runs/0/text");
    let unknown = top_result_data("Unknown", vec![]);
    let e = parse_top_result(&unknown).unwrap_err();
    assert_eq!(e.kind, JsonErrorKind::UnrecognisedValue);
    let no_header = obj(vec![("subtitle", runs(&["Album"]))]);
    let e = parse_top_result(&no_header).unwrap_err();
    assert_eq!(e.kind, JsonErrorKind::PathNotFound);
    assert_eq!(e.path, "/header/musicCardShelfHeaderBasicRenderer/title/runs/0/text");
}

#[test]
fn result_types_by_subtitle() {
    assert_eq!(SearchResultType::from_subtitle(&"Artist".to_string()), Some(SearchResultType::Artist));
    assert_eq!(SearchResultType::from_subtitle(&"Episode".to_string()), Some(SearchResultType::Episode));
    assert_eq!(SearchResultType::from_subtitle(&"Station".to_string()), Some(SearchResultType::Station));
    assert_eq!(SearchResultType::from_subtitle(&"artist".to_string()), None);
    assert_eq!(SearchResultType::from_subtitle(&String::new()), None);
}

#[test]
fn one_artist_per_grid_item() {
    let item = |id: &str, name: &str, byline: &str| {
        obj(vec![(
            "musicResponsiveListItemRenderer",
            obj(vec![
                ("navigationEndpoint", browse_endpoint(id)),
                ("flexColumns", arr(vec![flex_column(&[name]), flex_column(&[byline])])),
            ]),
        )])
    };
    let page = library_page(arr(vec![
        item("UC1", "First", "1 song"),
        item("UC2", "Second", "2 songs"),
        item("UC3", "Third", "3 songs"),
    ]));
    let result = ProcessedResult::from_raw(JsonCrawler::from_json(page), GetLibraryArtistsQuery {})
        .parse()
        .unwrap();
    let names: Vec<&str> = result.iter().map(|a| a.artist.as_str()).collect();
    assert_eq!(names, vec!["First", "Second", "Third"]);
    assert_eq!(result[2].channel_id, ChannelID("UC3".to_string()));
    assert_eq!(result[1].byline, "2 songs");
}

#[test]
fn test_library_playlists_dummy_json() {
    let liked = "https://www.gstatic.com/youtube/media/ytm/images/pbg/liked-music-@192.png";
    let liked_big = "https://www.gstatic.com/youtube/media/ytm/images/pbg/liked-music-@576.png";
    let later = "https://yt3.ggpht.com/oGdMcu3X8XKqSc9QMRqV3rqznKuPScNylHcqmKiBfLE1TZ7gkqFJRwQX2rAiWyAOuLPM614fSDo=s192";
    let later_big = "https://yt3.ggpht.com/oGdMcu3X8XKqSc9QMRqV3rqznKuPScNylHcqmKiBfLE1TZ7gkqFJRwQX2rAiWyAOuLPM614fSDo=s576";
    let hot = "https://lh3.googleusercontent.com/HJoX79I4ngSCHXjzEWHwWpvwlK2cMhbezyKN8I-lH06APDbjIAUymVCI1VmeB5EcrNwglLAB0Edlt1KL=w226-h226-l90-rj";
    let hot_big = "https://lh3.googleusercontent.com/HJoX79I4ngSCHXjzEWHwWpvwlK2cMhbezyKN8I-lH06APDbjIAUymVCI1VmeB5EcrNwglLAB0Edlt1KL=w544-h544-l90-rj";
    let episodes = "https://www.gstatic.com/youtube/media/ytm/images/pbg/saved-episodes-@192.png";
    let episodes_big = "https://www.gstatic.com/youtube/media/ytm/images/pbg/saved-episodes-@576.png";
    let grid = obj(vec![(
        "items",
        arr(vec![
            obj(vec![("musicTwoRowItemRenderer", obj(vec![("title", runs(&["New playlist"]))]))]),
            playlist_item("VLLM", "Liked Music", Some(&["Auto playlist"]), vec![thumbnail(192, liked), thumbnail(576, liked_big)]),
            playlist_item(
                "VLPLCZQcydUIP07hMOwAXIag92l76d3z3Thv",
                "Listen later",
                Some(&["Nick Dowsett", " \u{2022} ", "20 tracks"]),
                vec![thumbnail(192, later), thumbnail(576, later_big)],
            ),
            playlist_item(
                "VLRDCLAK5uy_lRzD6ZcGWU_ef3r4y7ifNYLiGmCCX_jIk",
                "Deadly Hotlist",
                Some(&["YouTube Music", " \u{2022} ", "50 songs"]),
                vec![thumbnail(226, hot), thumbnail(544, hot_big)],
            ),
            playlist_item(
                "VLSE",
                "Episodes for Later",
                Some(&["Episodes you save for later"]),
                vec![thumbnail(192, episodes), thumbnail(576, episodes_big)],
            ),
        ]),
    )]);
    let json_crawler = JsonCrawler::from_json(library_page(grid));
    let processed = ProcessedResult::from_raw(json_crawler, GetLibraryPlaylistQuery {});
    let result = processed.parse().unwrap();
    let playlist = |id: &str, title: &str, small: (u64, &str), big: (u64, &str), description: &str| Playlist {
        playlist_id: PlaylistID(id.to_string()),
        title: title.to_string(),
        thumbnails: vec![
            Thumbnail { height: small.0, width: small.0, url: small.1.to_string() },
            Thumbnail { height: big.0, width: big.0, url: big.1.to_string() },
        ],
        count: None,
        description: Some(description.to_string()),
        author: None,
    };
    let expected = vec![
        playlist("VLLM", "Liked Music", (192, liked), (576, liked_big), "Auto playlist"),
        playlist(
            "VLPLCZQcydUIP07hMOwAXIag92l76d3z3Thv",
            "Listen later",
            (192, later),
            (576, later_big),
            "Nick Dowsett \u{2022} 20 tracks",
        ),
        playlist(
            "VLRDCLAK5uy_lRzD6ZcGWU_ef3r4y7ifNYLiGmCCX_jIk",
            "Deadly Hotlist",
            (226, hot),
            (544, hot_big),
            "YouTube Music \u{2022} 50 songs",
        ),
        playlist("VLSE", "Episodes for Later", (192, episodes), (576, episodes_big), "Episodes you save for later"),
    ];
    assert_eq!(result, expected);
}
