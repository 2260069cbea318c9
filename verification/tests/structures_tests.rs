use youtui::parse::SongResult;
use youtui::structures::{
    AlbumSongsList, DownloadStatus, ListSong, ListSongID, ListStatus, Percentage, PlayState,
};
use youtui::view::Scrollable;

fn song(title: &str, track_no: usize, duration: Option<&str>) -> SongResult {
    SongResult {
        title: title.to_string(),
        duration: duration.map(|d| d.to_string()),
        track_no,
    }
}

fn list_song(title: &str, id: usize) -> ListSong {
    ListSong {
        raw: song(title, 1, Some("3:00")),
        download_status: DownloadStatus::Queued,
        id: ListSongID(id),
        year: "1999".to_string(),
        artists: vec!["Someone".to_string()],
        album: "Album".to_string(),
    }
}

#[test]
fn pausing_a_playing_song_keeps_it() {
    let s = PlayState::Playing(ListSongID(3));
    assert_eq!(s.transition_to_paused(), PlayState::Paused(ListSongID(3)));
    assert_eq!(
        PlayState::Buffering(ListSongID(4)).transition_to_paused(),
        PlayState::Paused(ListSongID(4))
    );
    assert_eq!(PlayState::NotPlaying.transition_to_paused(), PlayState::NotPlaying);
    assert_eq!(
        PlayState::Stopped(ListSongID(2)).transition_to_paused(),
        PlayState::Stopped(ListSongID(2))
    );
    assert_eq!(PlayState::Transitioning.transition_to_paused(), PlayState::Transitioning);
}

#[test]
fn stopping_keeps_the_song() {
    assert_eq!(
        PlayState::Playing(ListSongID(1)).transition_to_stopped(),
        PlayState::Stopped(ListSongID(1))
    );
    assert_eq!(
        PlayState::Paused(ListSongID(5)).transition_to_stopped(),
        PlayState::Stopped(ListSongID(5))
    );
    assert_eq!(
        PlayState::Buffering(ListSongID(6)).transition_to_stopped(),
        PlayState::Stopped(ListSongID(6))
    );
    assert_eq!(PlayState::NotPlaying.transition_to_stopped(), PlayState::NotPlaying);
}

#[test]
fn pausing_twice_and_stopping_after_pause() {
    let s = PlayState::Playing(ListSongID(9));
    assert_eq!(
        s.transition_to_paused().transition_to_paused(),
        s.transition_to_paused()
    );
    assert_eq!(
        s.transition_to_stopped().transition_to_stopped(),
        s.transition_to_stopped()
    );
    assert_eq!(
        s.transition_to_paused().transition_to_stopped(),
        s.transition_to_stopped()
    );
}

#[test]
fn take_whilst_transitioning_leaves_transitioning() {
    let mut s = PlayState::Playing(ListSongID(7));
    let taken = s.take_whilst_transitioning();
    assert_eq!(taken, PlayState::Playing(ListSongID(7)));
    assert_eq!(s, PlayState::Transitioning);
}

#[test]
fn list_icons() {
    assert_eq!(DownloadStatus::Failed.list_icon(), '\u{f071}');
    assert_eq!(DownloadStatus::Queued.list_icon(), '\u{f019}');
    assert_eq!(DownloadStatus::NotQueued.list_icon(), ' ');
    assert_eq!(DownloadStatus::Downloading(Percentage(10)).list_icon(), '\u{f019}');
    assert_eq!(DownloadStatus::Downloaded("/tmp/a.mp3".to_string()).list_icon(), '\u{f14a}');
}

#[test]
fn song_fields() {
    let mut s = list_song("Yesterday", 1);
    s.raw.track_no = 12;
    s.download_status = DownloadStatus::Downloading(Percentage(42));
    assert_eq!(s.len(), 6);
    assert_eq!(s.get_field(0), Some("\u{f019}[42]%".to_string()));
    assert_eq!(s.get_field(1), Some("12".to_string()));
    assert_eq!(s.get_field(2), Some("Album".to_string()));
    assert_eq!(s.get_field(3), Some("Yesterday".to_string()));
    assert_eq!(s.get_field(4), Some("3:00".to_string()));
    assert_eq!(s.get_field(5), Some("1999".to_string()));
    assert_eq!(s.get_field(6), None);
    s.download_status = DownloadStatus::Failed;
    s.raw.duration = None;
    assert_eq!(s.get_field(0), Some("\u{f071}".to_string()));
    assert_eq!(s.get_field(4), None);
    s.raw.track_no = 0;
    assert_eq!(s.get_field(1), Some("0".to_string()));
    assert_eq!(s.get_year(), "1999");
    assert_eq!(s.get_album(), "Album");
    assert_eq!(s.get_track_no(), 0);
}

#[test]
fn defaults() {
    assert_eq!(ListSongID::default(), ListSongID(0));
    assert_eq!(Percentage::default(), Percentage(0));
    let l = AlbumSongsList::default();
    assert_eq!(l.state, ListStatus::New);
    assert!(l.list.is_empty());
    assert_eq!(l.next_id, ListSongID(0));
    assert_eq!(l.cur_selected, None);
}

#[test]
fn ids_are_handed_out_in_order() {
    let mut l = AlbumSongsList::default();
    assert_eq!(l.create_next_id(), ListSongID(1));
    let id = l.add_raw_song(song("A", 1, None), "Alb".to_string(), "2001".to_string());
    assert_eq!(id, ListSongID(2));
    assert_eq!(l.next_id, ListSongID(2));
    assert_eq!(l.list.len(), 1);
    assert_eq!(l.list[0].id, ListSongID(2));
    assert_eq!(l.list[0].download_status, DownloadStatus::NotQueued);
    assert_eq!(l.list[0].get_album(), "Alb");
    assert_eq!(l.list[0].get_year(), "2001");
    assert!(l.list[0].artists.is_empty());
}

#[test]
fn append_raw_songs_in_order() {
    let mut l = AlbumSongsList::default();
    l.append_raw_songs(
        vec![song("One", 1, None), song("Two", 2, None), song("Three", 3, None)],
        "Album".to_string(),
        "1969".to_string(),
    );
    assert_eq!(l.list.len(), 3);
    let titles: Vec<&str> = l.list.iter().map(|s| s.raw.title.as_str()).collect();
    assert_eq!(titles, vec!["One", "Two", "Three"]);
    let ids: Vec<ListSongID> = l.list.iter().map(|s| s.id).collect();
    assert_eq!(ids, vec![ListSongID(1), ListSongID(2), ListSongID(3)]);
    assert_eq!(l.next_id, ListSongID(3));
    assert!(l.list.iter().all(|s| s.get_year() == "1969" && s.get_album() == "Album"));
}

#[test]
fn push_song_list_renumbers() {
    let mut l = AlbumSongsList::default();
    l.create_next_id();
    let first = l.push_song_list(vec![list_song("X", 40), list_song("Y", 41)]);
    assert_eq!(first, ListSongID(2));
    assert_eq!(l.list.len(), 2);
    assert_eq!(l.list[0].id, ListSongID(2));
    assert_eq!(l.list[1].id, ListSongID(3));
    assert_eq!(l.list[1].raw.title, "Y");
    assert_eq!(l.next_id, ListSongID(3));
}

#[test]
fn push_clone_keeps_the_song() {
    let mut l = AlbumSongsList::default();
    let s = list_song("Z", 99);
    let id = l.push_clone_listsong(&s);
    assert_eq!(id, ListSongID(1));
    assert_eq!(l.list[0].id, ListSongID(1));
    assert_eq!(l.list[0].raw, s.raw);
    assert_eq!(l.list[0].artists, s.artists);
    assert_eq!(l.list[0].download_status, DownloadStatus::Queued);
    assert_eq!(s.id, ListSongID(99));
}

#[test]
fn scrolling_stays_in_the_list() {
    let mut l = AlbumSongsList::default();
    l.append_raw_songs(
        vec![song("1", 1, None), song("2", 2, None), song("3", 3, None)],
        String::new(),
        String::new(),
    );
    assert_eq!(l.get_selected_item(), 0);
    l.increment_list(1);
    assert_eq!(l.cur_selected, Some(1));
    l.increment_list(5);
    assert_eq!(l.cur_selected, Some(2));
    l.increment_list(-1);
    assert_eq!(l.get_selected_item(), 1);
    l.increment_list(-10);
    assert_eq!(l.cur_selected, Some(0));
    l.increment_list(isize::MIN);
    assert_eq!(l.cur_selected, Some(0));
    l.increment_list(isize::MAX);
    assert_eq!(l.cur_selected, Some(2));
    let mut empty = AlbumSongsList::default();
    empty.increment_list(3);
    assert_eq!(empty.cur_selected, Some(0));
}
