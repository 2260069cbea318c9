//! Pointers into Innertube responses.
use vstd::prelude::*;

verus! {

pub const SINGLE_COLUMN_TAB: &'static str = "/contents/singleColumnBrowseResultsRenderer/tabs/0/tabRenderer/content";
pub const SECTION_LIST: &'static str = "/sectionListRenderer/contents";
pub const SECTION_LIST_ITEM: &'static str = "/sectionListRenderer/contents/0";
pub const ITEM_SECTION: &'static str = "/itemSectionRenderer/contents/0";
pub const GRID: &'static str = "/gridRenderer";
pub const MRLIR: &'static str = "/musicResponsiveListItemRenderer";
pub const MTRIR: &'static str = "/musicTwoRowItemRenderer";
pub const NAVIGATION_BROWSE_ID: &'static str = "/navigationEndpoint/browseEndpoint/browseId";
pub const NAVIGATION_PLAYLIST_ID: &'static str = "/navigationEndpoint/watchEndpoint/playlistId";
pub const TITLE: &'static str = "/title/runs/0";
pub const TITLE_TEXT: &'static str = "/title/runs/0/text";
pub const THUMBNAIL_RENDERER: &'static str = "/thumbnailRenderer/musicThumbnailRenderer/thumbnail/thumbnails";
pub const THUMBNAILS: &'static str = "/thumbnail/musicThumbnailRenderer/thumbnail/thumbnails";
pub const SUBTITLE: &'static str = "/subtitle/runs/0/text";
pub const SUBTITLE2: &'static str = "/subtitle/runs/2/text";
pub const CARD_SHELF_TITLE: &'static str = "/header/musicCardShelfHeaderBasicRenderer/title/runs/0/text";
pub const DESCRIPTION_SHELF: &'static str = "/musicDescriptionShelfRenderer";
pub const DESCRIPTION: &'static str = "/description/runs/0/text";
pub const RUN_TEXT: &'static str = "/runs/0/text";
pub const TAB_CONTENT: &'static str = "/tabs/0/tabRenderer/content";

/// `SINGLE_COLUMN_TAB` then `SECTION_LIST`.
pub const LIBRARY_SECTION_LIST: &'static str = "/contents/singleColumnBrowseResultsRenderer/tabs/0/tabRenderer/content/sectionListRenderer/contents";
/// `ITEM_SECTION` then `GRID`.
pub const ITEM_SECTION_GRID: &'static str = "/itemSectionRenderer/contents/0/gridRenderer";
/// `SINGLE_COLUMN_TAB`, `SECTION_LIST_ITEM`, then `GRID`.
pub const LIBRARY_SECTION_GRID: &'static str = "/contents/singleColumnBrowseResultsRenderer/tabs/0/tabRenderer/content/sectionListRenderer/contents/0/gridRenderer";
/// `TITLE` then `NAVIGATION_BROWSE_ID`.
pub const TITLE_BROWSE_ID: &'static str = "/title/runs/0/navigationEndpoint/browseEndpoint/browseId";
/// `"/contents"`, `SECTION_LIST_ITEM`, then `DESCRIPTION_SHELF`.
pub const LYRICS_SHELF: &'static str = "/contents/sectionListRenderer/contents/0/musicDescriptionShelfRenderer";
/// `"/footer"` then `RUN_TEXT`.
pub const FOOTER_RUN_TEXT: &'static str = "/footer/runs/0/text";
/// The renderer of the tabs of the watch page.
pub const WATCH_NEXT_RENDERER: &'static str = "/contents/singleColumnMusicWatchNextResultsRenderer/tabbedRenderer/watchNextTabbedResultsRenderer";
/// `TAB_CONTENT` then the entries of the play queue.
pub const WATCH_QUEUE_CONTENTS: &'static str = "/tabs/0/tabRenderer/content/musicQueueRenderer/content/playlistPanelRenderer/contents";
/// The browse id of the lyrics tab of the watch page.
pub const LYRICS_TAB_BROWSE_ID: &'static str = "/tabs/1/tabRenderer/endpoint/browseEndpoint/browseId";
/// `"/playlistPanelVideoRenderer"` then `NAVIGATION_PLAYLIST_ID`.
pub const QUEUE_ITEM_PLAYLIST_ID: &'static str = "/playlistPanelVideoRenderer/navigationEndpoint/watchEndpoint/playlistId";

/// The browse id of the first run of a column.
pub const RUN0_BROWSE_ID: &'static str = "/text/runs/0/navigationEndpoint/browseEndpoint/browseId";

}
