use youtui::common::{ChannelID, VideoID};
use youtui::layout::{scrollbar_position, sortable_headings, suggestion_popup_height, table_layout};
use youtui::structures::{ListSongID, Percentage};
use youtui::parse::SongResult;
use youtui::structures::{DownloadStatus, ListSong};
use youtui::ui::{
    global_keybinds, AppRequest, AppStatus, KeyCode, KeyPress, Keybind, PlaylistStep,
    RequestCategory, UIAction, UIMessage, WindowContext, WindowEffect, YoutuiWindow,
};
use youtui::view::BasicConstraint;

#[test]
fn quit_message_exits_and_hands_back_the_terminal() {
    let mut w = YoutuiWindow::new();
    let effect = w.handle_ui_message(UIMessage::Quit);
    assert!(matches!(effect, WindowEffect::RestoreTerminal));
    assert_eq!(w.get_status(), AppStatus::Exiting);
}

#[test]
fn change_context_message_moves_the_window() {
    let mut w = YoutuiWindow::new();
    let effect = w.handle_ui_message(UIMessage::ChangeContext(WindowContext::Logs));
    assert!(matches!(effect, WindowEffect::Nothing));
    assert_eq!(w.context, WindowContext::Logs);
    assert_eq!(w.prev_context, WindowContext::Browser);
    assert_eq!(w.get_status(), AppStatus::Running);
}

#[test]
fn other_messages_become_requests_and_playlist_work() {
    let mut w = YoutuiWindow::new();
    match w.handle_ui_message(UIMessage::DownloadSong(VideoID("v1".to_string()), ListSongID(4))) {
        WindowEffect::SendRequest(AppRequest::Download(v, id)) => {
            assert_eq!(v, VideoID("v1".to_string()));
            assert_eq!(id, ListSongID(4));
        }
        other => panic!("unexpected {:?}", other),
    }
    match w.handle_ui_message(UIMessage::SearchArtist("Queen".to_string())) {
        WindowEffect::SendRequest(AppRequest::SearchArtists(a)) => assert_eq!(a, "Queen"),
        other => panic!("unexpected {:?}", other),
    }
    match w.handle_ui_message(UIMessage::GetSearchSuggestions("Que".to_string())) {
        WindowEffect::SendRequest(AppRequest::GetSearchSuggestions(a)) => assert_eq!(a, "Que"),
        other => panic!("unexpected {:?}", other),
    }
    match w.handle_ui_message(UIMessage::GetArtistSongs(ChannelID("UC1".to_string()))) {
        WindowEffect::SendRequest(AppRequest::GetArtistSongs(c)) => {
            assert_eq!(c, ChannelID("UC1".to_string()))
        }
        other => panic!("unexpected {:?}", other),
    }
    assert!(matches!(
        w.handle_ui_message(UIMessage::Next),
        WindowEffect::Playlist(s) if matches!(s.as_slice(), [PlaylistStep::Next])
    ));
    assert!(matches!(
        w.handle_ui_message(UIMessage::Prev),
        WindowEffect::Playlist(s) if matches!(s.as_slice(), [PlaylistStep::Prev])
    ));
    assert!(matches!(
        w.handle_ui_message(UIMessage::StepVolUp),
        WindowEffect::Playlist(s) if matches!(s.as_slice(), [PlaylistStep::VolumeUp])
    ));
    assert!(matches!(
        w.handle_ui_message(UIMessage::StepVolDown),
        WindowEffect::Playlist(s) if matches!(s.as_slice(), [PlaylistStep::VolumeDown])
    ));
    assert!(matches!(
        w.handle_ui_message(UIMessage::KillPendingSearchTasks),
        WindowEffect::KillTasks(RequestCategory::Search)
    ));
    assert!(matches!(
        w.handle_ui_message(UIMessage::KillPendingGetTasks),
        WindowEffect::KillTasks(RequestCategory::Get)
    ));
    match w.handle_ui_message(UIMessage::PlaySongs(vec![song("a"), song("b")])) {
        WindowEffect::Playlist(steps) => match steps.as_slice() {
            [PlaylistStep::Reset, PlaylistStep::Append(l), PlaylistStep::PlayFirstAppended] => {
                assert_eq!(l.len(), 2);
                assert_eq!(l[0].raw.title, "a");
            }
            other => panic!("unexpected {:?}", other),
        },
        other => panic!("unexpected {:?}", other),
    }
    match w.handle_ui_message(UIMessage::AddSongsToPlaylist(vec![song("c")])) {
        WindowEffect::Playlist(steps) => match steps.as_slice() {
            [PlaylistStep::Append(l)] => assert_eq!(l[0].raw.title, "c"),
            other => panic!("unexpected {:?}", other),
        },
        other => panic!("unexpected {:?}", other),
    }
    assert_eq!(w.get_status(), AppStatus::Running);
    assert_eq!(w.context, WindowContext::Browser);
}

#[test]
fn table_layout_in_a_panel() {
    let layout = [
        BasicConstraint::Length(10),
        BasicConstraint::Percentage(Percentage(50)),
        BasicConstraint::Percentage(Percentage(50)),
    ];
    // Inner width 40; fixed room 10 + 3 margins = 13; 27 left to share.
    let l = table_layout(&layout, 42, 20, 30);
    assert_eq!(l.widths, vec![10, 13, 13]);
    assert_eq!(l.visible_rows, 16);
    assert_eq!(l.scrollable_lines, 14);
    let small = table_layout(&layout, 1, 3, 2);
    assert_eq!(small.widths, vec![10, 0, 0]);
    assert_eq!(small.visible_rows, 0);
    assert_eq!(small.scrollable_lines, 2);
    let many = table_layout(&[], 10, 4, 65536 + 7);
    assert_eq!(many.scrollable_lines, 7);
}

#[test]
fn scrollbar_thumb_stays_in_range() {
    assert_eq!(scrollbar_position(3, 14), 3);
    assert_eq!(scrollbar_position(30, 14), 14);
    assert_eq!(scrollbar_position(usize::MAX, 0), 0);
}

#[test]
fn sort_popup_lists_sortable_headings() {
    let headings: Vec<String> = ["#", "Album", "Song", "Duration", "Year"]
        .iter()
        .map(|h| h.to_string())
        .collect();
    assert_eq!(sortable_headings(&headings, &[4, 1, 9]), vec!["Album".to_string(), "Year".to_string()]);
    assert!(sortable_headings(&headings, &[]).is_empty());
}

#[test]
fn suggestion_popup_heights() {
    assert_eq!(suggestion_popup_height(0), 1);
    assert_eq!(suggestion_popup_height(5), 6);
    assert_eq!(suggestion_popup_height(65534), 65535);
    assert_eq!(suggestion_popup_height(65535), 65535);
    assert_eq!(suggestion_popup_height(1_000_000), 65535);
}

fn song(title: &str) -> ListSong {
    ListSong {
        raw: SongResult { title: title.to_string(), duration: None, track_no: 1 },
        download_status: DownloadStatus::NotQueued,
        id: ListSongID(0),
        year: String::new(),
        artists: vec![],
        album: String::new(),
    }
}

#[test]
fn window_starts_with_its_key_bindings_and_no_messages() {
    let w = YoutuiWindow::new();
    assert!(w.ui_queue.is_empty());
    assert!(w.key_stack.is_empty());
    assert!(!w.help_shown);
    let bare = |code| KeyPress { code, modifiers: 0 };
    let expected = vec![
        Keybind { key: bare(KeyCode::Char('+')), action: UIAction::StepVolUp, global: false },
        Keybind { key: bare(KeyCode::Char('-')), action: UIAction::StepVolDown, global: false },
        Keybind { key: bare(KeyCode::Char('<')), action: UIAction::Prev, global: false },
        Keybind { key: bare(KeyCode::Char('>')), action: UIAction::Next, global: false },
        Keybind { key: bare(KeyCode::F(10)), action: UIAction::Quit, global: true },
    ];
    assert_eq!(w.keybinds, expected);
    assert_eq!(global_keybinds(), expected);
}

#[test]
fn queued_messages_are_taken_in_order() {
    let mut w = YoutuiWindow::new();
    w.send_ui_message(UIMessage::ChangeContext(WindowContext::Playlist));
    w.send_ui_message(UIMessage::SearchArtist("Queen".to_string()));
    w.send_ui_message(UIMessage::PlaySongs(vec![song("x")]));
    w.send_ui_message(UIMessage::Quit);
    assert_eq!(w.ui_queue.len(), 4);
    let effects = w.process_ui_messages();
    assert!(w.ui_queue.is_empty());
    assert_eq!(effects.len(), 4);
    assert!(matches!(effects[0], WindowEffect::Nothing));
    assert!(matches!(&effects[1], WindowEffect::SendRequest(AppRequest::SearchArtists(a)) if a == "Queen"));
    assert!(matches!(&effects[2], WindowEffect::Playlist(s) if s.len() == 3));
    assert!(matches!(effects[3], WindowEffect::RestoreTerminal));
    assert_eq!(w.context, WindowContext::Playlist);
    assert_eq!(w.prev_context, WindowContext::Browser);
    assert_eq!(w.get_status(), AppStatus::Exiting);
    assert!(w.process_ui_messages().is_empty());
}

#[test]
fn help_shows_the_mode_of_the_right_router() {
    let mut w = YoutuiWindow::new();
    assert_eq!(w.choose_cur_mode(Some("own"), Some("browser"), Some("logger")), Some("own"));
    assert_eq!(w.choose_cur_mode(None, Some("browser"), Some("logger")), Some("browser"));
    assert_eq!(w.choose_cur_mode(None, None, Some("logger")), None);
    w.change_context(WindowContext::Playlist);
    assert_eq!(w.choose_cur_mode(None, Some("browser"), Some("logger")), Some("logger"));
    w.change_context(WindowContext::Logs);
    assert_eq!(w.choose_cur_mode(None, Some("browser"), None::<&str>), None);
}
