use fml9000::media::{MediaItem, Playlist, Timestamp, Track, YouTubeVideo};
use fml9000::settings::RepeatMode;
use fml9000::tui::{
    command_for_key, compute_scroll, mouse_action, track_play_due, video_play_due, youtube_elapsed_secs, App,
    Command, ContextAction, Key, MouseAction, MouseKind, NavLoad, NavSection, NewPlaylistOutcome, NextStep, Panel,
    UiMode,
};
use fml9000::tui_view::{
    centered_rect, column_layout, content_widths, help_bar, now_playing_text, status_symbol, track_list_title,
    track_progress_text, video_progress_text,
};

fn ts() -> Timestamp {
    Timestamp { year: 2024, month: 1, day: 1, hour: 0, minute: 0, second: 0, nanosecond: 0 }
}

fn track(name: &str, artist: Option<&str>) -> Track {
    Track {
        filename: format!("/m/{name}.mp3"),
        title: Some(name.to_string()),
        artist: artist.map(str::to_string),
        album: Some("Album".to_string()),
        album_artist: None,
        track: None,
        genre: None,
        added: None,
        duration_seconds: Some(200),
        play_count: 0,
        last_played: None,
    }
}

fn playlist(id: i32, name: &str) -> Playlist {
    Playlist { id, name: name.to_string(), created_at: ts() }
}

fn app() -> App {
    App::new(
        vec![track("Alpha", Some("Band")), track("Beta", Some("Other")), track("Gamma", Some("Band"))],
        vec![playlist(7, "Mix")],
        false,
        RepeatMode::All,
    )
}

#[test]
fn a_new_front_end_shows_all_tracks() {
    let a = app();
    assert_eq!(a.displayed_items.len(), 3);
    assert_eq!(a.track_selected, Some(0));
    assert_eq!(a.nav_selected, Some(0));
    assert_eq!(a.nav_item_count(), 5);
    assert_eq!(a.nav_item_name(1), "Queue");
    assert_eq!(a.nav_item_name(4), "♫ Mix");
    assert_eq!(a.nav_item_name(9), "Unknown");
}

#[test]
fn cursors_stay_in_their_lists() {
    let mut a = app();
    for _ in 0..10 {
        a.track_down();
        a.nav_down();
    }
    assert_eq!(a.track_selected, Some(2));
    assert_eq!(a.nav_selected, Some(4));
    for _ in 0..10 {
        a.track_up();
        a.nav_up();
    }
    assert_eq!(a.track_selected, Some(0));
    assert_eq!(a.nav_selected, Some(0));
}

#[test]
fn selecting_navigation_entries_asks_for_loads() {
    let mut a = app();
    a.nav_selected = Some(4);
    assert_eq!(a.select_nav(), NavLoad::Playlist { id: 7 });
    assert_eq!(a.current_nav, NavSection::Playlists);
    assert_eq!(a.current_playlist_id, Some(7));
    a.show_loaded(vec![]);
    assert_eq!(a.track_selected, None);
    a.nav_selected = Some(2);
    assert_eq!(a.select_nav(), NavLoad::RecentlyPlayed { limit: 100 });
    a.nav_selected = Some(0);
    assert_eq!(a.select_nav(), NavLoad::Shown);
    assert_eq!(a.displayed_items.len(), 3);
    assert_eq!(a.current_playlist_id, None);
    a.show_playlist_load_error("boom");
    assert_eq!(a.status_message.as_deref(), Some("Failed to load playlist: boom"));
}

#[test]
fn search_filters_by_lowercased_fields() {
    let mut a = app();
    a.start_search();
    a.update_search('b');
    assert_eq!(a.filtered_indices, vec![0, 1, 2]);
    a.update_search('A');
    assert_eq!(a.search_query, "bA");
    assert_eq!(a.filtered_indices, vec![0, 2]);
    assert_eq!(a.get_total_items(), 2);
    a.track_down();
    assert_eq!(a.get_selected_track_idx(), Some(2));
    a.search_backspace();
    a.search_backspace();
    assert_eq!(a.search_query, "");
    assert!(a.filtered_indices.is_empty());
    a.cancel_search();
    assert!(!a.is_searching);
}

#[test]
fn the_visible_window_follows_the_cursor() {
    let mut a = app();
    a.set_visible_height(2);
    a.track_selected = Some(2);
    a.update_scroll_for_selection();
    assert_eq!(a.scroll_offset, 1);
    let (items, scroll) = a.get_visible_items();
    assert_eq!(scroll, 1);
    assert_eq!(items.iter().map(|i| i.title()).collect::<Vec<_>>(), vec!["Beta", "Gamma"]);
    assert_eq!(compute_scroll(0, 5, 3), 0);
    assert_eq!(compute_scroll(9, 2, 3), 7);
    assert_eq!(compute_scroll(3, 2, 3), 2);
}

#[test]
fn toggles_report_their_state() {
    let mut a = app();
    a.toggle_shuffle();
    assert_eq!(a.status_message.as_deref(), Some("Shuffle: On"));
    a.cycle_repeat();
    assert_eq!(a.repeat_mode, RepeatMode::One);
    assert_eq!(a.status_message.as_deref(), Some("Repeat: One"));
    a.toggle_panel();
    assert_eq!(a.active_panel, Panel::Navigation);
    a.toggle_panel();
    assert_eq!(a.active_panel, Panel::TrackList);
}

#[test]
fn the_track_menu_walks_through_its_entries() {
    let mut a = app();
    a.open_context_menu(1);
    assert_eq!(a.ui_mode, UiMode::ContextMenu);
    assert_eq!(a.context_menu.as_ref().unwrap().items, vec!["Add to queue", "Add to playlist", "Create new playlist"]);
    assert_eq!(a.context_menu_select(), ContextAction::AddToQueue { track_idx: 1 });
    a.report_queued(1);
    assert_eq!(a.status_message.as_deref(), Some("Added to queue: Beta"));
    a.context_menu_down();
    assert_eq!(a.context_menu_select(), ContextAction::ChoosePlaylist);
    a.begin_playlist_select(vec![playlist(7, "Mix"), playlist(8, "Chill")]);
    a.playlist_select_down();
    a.playlist_select_down();
    assert_eq!(a.playlist_select_idx, 1);
    assert_eq!(a.playlist_select_confirm(), Some((1, 1)));
    a.report_added_to_playlist(1, 1, Ok(()));
    assert_eq!(a.status_message.as_deref(), Some("Added 'Beta' to 'Chill'"));
    assert_eq!(a.ui_mode, UiMode::Normal);
    assert!(a.context_menu.is_none());
}

#[test]
fn new_playlists_need_a_name() {
    let mut a = app();
    a.open_context_menu(0);
    a.context_menu_down();
    a.context_menu_down();
    assert_eq!(a.context_menu_select(), ContextAction::Nothing);
    assert_eq!(a.ui_mode, UiMode::NewPlaylistInput);
    assert_eq!(a.new_playlist_confirm(), None);
    assert_eq!(a.status_message.as_deref(), Some("Playlist name cannot be empty"));
    a.new_playlist_input('X');
    a.new_playlist_input('y');
    a.new_playlist_backspace();
    assert_eq!(a.new_playlist_confirm(), Some(("X".to_string(), 0)));
    a.report_new_playlist(NewPlaylistOutcome::Created { added: Some(Ok(())), playlists: vec![playlist(9, "X")] });
    assert_eq!(a.status_message.as_deref(), Some("Created 'X' and added track"));
    assert_eq!(a.playlists.len(), 1);
}

#[test]
fn the_playlist_menu_renames_and_deletes() {
    let mut a = app();
    a.open_playlist_menu(7, "Mix".to_string());
    assert_eq!(a.rename_playlist_name, "Mix");
    assert_eq!(a.playlist_menu_select(), None);
    assert_eq!(a.ui_mode, UiMode::RenamePlaylistInput);
    a.rename_playlist_input('!');
    assert_eq!(a.rename_playlist_confirm(), Some((7, "Mix!".to_string())));
    a.report_renamed(Err("locked".to_string()));
    assert_eq!(a.status_message.as_deref(), Some("Failed to rename: locked"));
    a.open_playlist_menu(7, "Mix".to_string());
    a.playlist_menu_down();
    assert_eq!(a.playlist_menu_select(), Some(7));
    a.nav_selected = Some(4);
    a.report_deleted(Ok(vec![]));
    assert_eq!(a.status_message.as_deref(), Some("Playlist deleted"));
    assert_eq!(a.nav_selected, Some(0));
    assert_eq!(a.current_nav, NavSection::AllTracks);
}

#[test]
fn what_plays_next_and_before() {
    let mut a = app();
    assert_eq!(a.current_playing_index(Some("/m/Beta.mp3"), None), Some(1));
    assert_eq!(a.current_playing_index(Some("/m/Beta.mp3"), Some("zzz")), None);
    assert_eq!(a.next_step_with_draw(Some("/m/Gamma.mp3"), None, 0), NextStep::Play { index: 0 });
    a.repeat_mode = RepeatMode::Off;
    assert_eq!(a.next_step_with_draw(Some("/m/Gamma.mp3"), None, 0), NextStep::Stop);
    assert_eq!(a.next_step_with_draw(Some("/m/Alpha.mp3"), None, 0), NextStep::Play { index: 1 });
    assert_eq!(a.next_step_with_draw(Some("/elsewhere.mp3"), None, 0), NextStep::Nothing);
    a.repeat_mode = RepeatMode::One;
    assert_eq!(a.next_step(Some("/m/Alpha.mp3"), None), NextStep::ReplayTrack);
    a.repeat_mode = RepeatMode::Off;
    a.shuffle_enabled = true;
    for _ in 0..20 {
        match a.next_step(Some("/m/Alpha.mp3"), None) {
            NextStep::Play { index } => assert!(index < 3),
            other => panic!("unexpected {other:?}"),
        }
    }
    assert_eq!(a.prev_index(Some("/m/Alpha.mp3"), None), Some(2));
    assert_eq!(a.prev_index(Some("/m/Beta.mp3"), None), Some(0));
    a.select_track(2);
    assert_eq!(a.track_selected, Some(2));
}

#[test]
fn keys_map_to_commands() {
    assert_eq!(command_for_key(false, Panel::Navigation, false, Key::Enter), Command::SelectNav);
    assert_eq!(command_for_key(false, Panel::TrackList, false, Key::Enter), Command::PlaySelected);
    assert_eq!(command_for_key(false, Panel::TrackList, true, Key::Char(' ')), Command::TogglePause);
    assert_eq!(command_for_key(false, Panel::TrackList, true, Key::Char('s')), Command::Stop);
    assert_eq!(command_for_key(false, Panel::TrackList, false, Key::Char('s')), Command::ToggleShuffle);
    assert_eq!(command_for_key(false, Panel::TrackList, false, Key::Char('3')), Command::JumpToNav(2));
    assert_eq!(command_for_key(false, Panel::Navigation, false, Key::Char('k')), Command::NavUp);
    assert_eq!(command_for_key(true, Panel::Navigation, false, Key::Char('q')), Command::SearchInput('q'));
    assert_eq!(command_for_key(false, Panel::Navigation, false, Key::Char('q')), Command::Quit);
    assert_eq!(command_for_key(true, Panel::Navigation, false, Key::Tab), Command::Nothing);
}

#[test]
fn clicks_pick_rows_of_the_panels() {
    assert_eq!(mouse_action(MouseKind::Down, 3, 7, 40, Panel::TrackList, 5, 10), MouseAction::SelectNav(1));
    assert_eq!(mouse_action(MouseKind::Down, 3, 5, 40, Panel::TrackList, 5, 10), MouseAction::FocusNavigation);
    assert_eq!(mouse_action(MouseKind::Down, 30, 9, 40, Panel::Navigation, 5, 10), MouseAction::SelectTrack(1));
    assert_eq!(mouse_action(MouseKind::Down, 30, 39, 40, Panel::Navigation, 5, 10), MouseAction::Nothing);
    assert_eq!(mouse_action(MouseKind::ScrollUp, 0, 0, 40, Panel::Navigation, 5, 10), MouseAction::NavUp);
}

#[test]
fn plays_count_at_half_the_duration() {
    assert!(track_play_due(false, Some(10), 5));
    assert!(!track_play_due(false, Some(11), 4));
    assert!(!track_play_due(true, Some(10), 9));
    assert!(!track_play_due(false, None, 9));
    assert!(video_play_due(false, false, Some(100), 50));
    assert!(!video_play_due(false, true, Some(100), 50));
    assert!(!video_play_due(false, false, Some(-1), 50));
    assert_eq!(youtube_elapsed_secs(10, true, 5), 10);
    assert_eq!(youtube_elapsed_secs(10, false, 5), 15);
}

#[test]
fn drawn_texts() {
    assert_eq!(status_symbol(true, true, false, false), "⏸");
    assert_eq!(status_symbol(false, false, false, false), "⏹");
    let t = track("Alpha", Some("Band"));
    assert_eq!(now_playing_text("▶", None, Some(&t), true, RepeatMode::All), "▶ Band - Album - Alpha 🔀 🔁");
    assert_eq!(now_playing_text("⏹", None, None, false, RepeatMode::Off), "⏹ No track playing");
    let v = YouTubeVideo {
        id: 1,
        video_id: "x".to_string(),
        channel_id: 1,
        title: "Clip".to_string(),
        duration_seconds: None,
        thumbnail_url: None,
        published_at: None,
        fetched_at: ts(),
        play_count: 0,
        last_played: None,
        added: None,
    };
    assert_eq!(now_playing_text("▶", Some(&v), Some(&t), false, RepeatMode::One), "▶ YouTube -  - Clip 🔂");
    assert_eq!(track_progress_text(Some((65, 3600))), "1:05 / 60:00");
    assert_eq!(track_progress_text(None), "0:00 / 0:00");
    assert_eq!(video_progress_text(61, Some(125), true), "1:01 / 2:05 (YouTube) [Paused]");
    assert_eq!(video_progress_text(5, None, false), "0:05 (YouTube)");
    assert_eq!(track_list_title(true, "ab", 3), " Tracks [/ab] (3 matches) ");
    assert_eq!(track_list_title(false, "", 12), " Tracks (12) ");
    assert_eq!(help_bar(true, Some("Hi")), " Hi | [Enter] Play  [Esc] Cancel search  [Backspace] Delete char");
}

#[test]
fn column_widths_share_the_room() {
    let l = column_layout(10, 12, 20, 100);
    assert!(!l.show_last_played);
    assert_eq!((l.artist_width, l.album_width, l.title_width), (10, 12, 66));
    let wide = column_layout(30, 30, 200, 150);
    assert!(wide.show_both_dates);
    assert_eq!((wide.artist_width, wide.album_width, wide.title_width), (13, 13, 88));
    let no_album = column_layout(30, 1, 20, 60);
    assert_eq!((no_album.artist_width, no_album.album_width, no_album.title_width), (16, 1, 30));
    let t = MediaItem::Track(track("A very long title here", Some("Artist name that is quite long indeed")));
    let (a, b, c) = content_widths(&vec![&t]);
    assert_eq!((a, b, c), (30, 5, 22));
    assert_eq!(centered_rect(25, 5, 0, 0, 80, 24), (27, 9, 25, 5));
    assert_eq!(centered_rect(100, 50, 2, 3, 80, 24), (2, 3, 80, 24));
}
