use fml9000::channel_import::{connection_lost_text, has_importable_url, import_urls, video_rows, ChannelImport};
use fml9000::desktop::{
    album_browse_items, album_heading, album_track_row, auto_playlist_sources, browse_item_cache_key,
    browse_item_play_key, change_after_removal, change_after_scan, filter_browse_items, indices_with_play_keys,
    item_matches_search, next_page, section_headers, show_more_label, source_of_entry, stale_prompt, str_or_unknown,
    watch_event, BrowseItem, FileChangeResult, FileWatchEvent, FsEventKind, SectionId, SourceKind, SourceLoad,
    TreeEntry,
};
use fml9000::external::{
    ffmpeg_missing_message, ffmpeg_vaporwave_args, mpv_args, mpv_command_line, mpv_pause_command, mpv_socket_path,
    spawn_error, watch_url, yt_dlp_audio_args,
};
use fml9000::library::PlaylistItemIdentifier;
use fml9000::media::{MediaItem, Timestamp, Track, YouTubeVideo};
use fml9000::order::Comparison;
use fml9000::playlist_edit::{
    album_artist_text, compare_sort_keys, compare_track_numbers, drag_data, drop_entries, duration_sort_key,
    parse_youtube_title, play_count_text, reorder_for_drop, track_number_text,
};
use fml9000::scan_report::{expand_home, is_yes, progress_line, removed_line, summary_lines};
use fml9000::library::ScanProgress;
use fml9000::youtube::VideoInfo;

fn ts() -> Timestamp {
    Timestamp { year: 2024, month: 1, day: 1, hour: 0, minute: 0, second: 0, nanosecond: 0 }
}

fn track(file: &str) -> Track {
    Track {
        filename: file.to_string(),
        title: None,
        artist: None,
        album: None,
        album_artist: None,
        track: None,
        genre: None,
        added: None,
        duration_seconds: None,
        play_count: 0,
        last_played: None,
    }
}

fn video(id: i32, title: &str) -> YouTubeVideo {
    YouTubeVideo {
        id,
        video_id: format!("v{id}"),
        channel_id: 1,
        title: title.to_string(),
        duration_seconds: None,
        thumbnail_url: None,
        published_at: None,
        fetched_at: ts(),
        play_count: 0,
        last_played: None,
        added: None,
    }
}

#[test]
fn the_watcher_reports_audio_files() {
    assert!(matches!(watch_event(FsEventKind::Create, "/m/a.flac", true), Some(FileWatchEvent::Added(p)) if p == "/m/a.flac"));
    assert!(watch_event(FsEventKind::Modify, "/m/a.flac", false).is_none());
    assert!(watch_event(FsEventKind::Create, "/m/a.txt", true).is_none());
    assert!(matches!(watch_event(FsEventKind::Remove, "/m/a.mp3", false), Some(FileWatchEvent::Removed(_))));
    assert!(watch_event(FsEventKind::Other, "/m/a.mp3", true).is_none());
    assert_eq!(change_after_scan(Ok(true)), FileChangeResult::Added);
    assert_eq!(change_after_scan(Ok(false)), FileChangeResult::NoChange);
    assert_eq!(change_after_scan(Err("x".to_string())), FileChangeResult::NoChange);
    assert_eq!(change_after_removal(Ok(2)), FileChangeResult::Removed);
    assert_eq!(change_after_removal(Ok(0)), FileChangeResult::NoChange);
}

#[test]
fn sources_have_labels_and_loads() {
    let auto = auto_playlist_sources();
    assert_eq!(auto.len(), 6);
    assert_eq!(auto[5].label(), "Playback Queue");
    assert_eq!(SourceKind::UserPlaylist(3, "Mine".to_string()).label(), "Mine");
    assert_eq!(SourceKind::UserPlaylist(3, "Mine".to_string()).playlist_id(), Some(3));
    assert_eq!(SourceKind::YouTubeChannel(4, "C".to_string()).playlist_id(), None);
    assert_eq!(SourceKind::RecentlyPlayed.load_request(), SourceLoad::RecentlyPlayed { limit: 100 });
    assert_eq!(SourceKind::YouTubeChannel(4, "C".to_string()).load_request(), SourceLoad::Channel { id: 4 });
    let headers = section_headers();
    assert!(matches!(&headers[2], TreeEntry::SectionHeader(t, SectionId::YouTubeChannels) if t == "YouTube"));
    assert!(source_of_entry(&headers[0]).is_none());
    assert!(matches!(source_of_entry(&TreeEntry::Source(SourceKind::AllVideos)), Some(SourceKind::AllVideos)));
    assert_eq!(str_or_unknown(&None), "(Unknown)");
}

#[test]
fn browse_entries_keys_and_search() {
    let mut t = track("/m/a.mp3");
    t.title = Some("Blue Song".to_string());
    let items = vec![
        BrowseItem::Media(MediaItem::Track(t)),
        BrowseItem::Media(MediaItem::Video(video(1, "Red Clip"))),
        BrowseItem::Album { artist: "Blues Band".to_string(), album: "Live".to_string(), representative_filename: "/m/x.mp3".to_string() },
    ];
    assert_eq!(browse_item_cache_key(&items[0]), Some("/m/a.mp3".to_string()));
    assert_eq!(browse_item_cache_key(&items[1]), Some("https://i.ytimg.com/vi/v1/mqdefault.jpg".to_string()));
    assert_eq!(browse_item_play_key(&items[1]), Some("v1".to_string()));
    assert_eq!(browse_item_play_key(&items[2]), None);
    assert!(item_matches_search(&items[2], "BLUE"));
    assert!(item_matches_search(&items[1], ""));
    let found = filter_browse_items(&items, "blue");
    assert_eq!(found.len(), 2);
    assert_eq!(indices_with_play_keys(&items, &vec!["v1".to_string(), "nope".to_string()]), vec![1]);
    let albums = album_browse_items(vec![("A".to_string(), "B".to_string(), "/f".to_string())]);
    assert!(matches!(&albums[0], BrowseItem::Album { artist, .. } if artist == "A"));
}

#[test]
fn pages_and_album_rows() {
    assert_eq!(next_page(0, 450), (200, 250));
    assert_eq!(next_page(400, 450), (450, 0));
    assert_eq!(show_more_label(250), Some("Show More (250 remaining)".to_string()));
    assert_eq!(show_more_label(0), None);
    assert_eq!(album_heading("Band", "Live"), "Band — Live");
    let mut t = track("/m/a.mp3");
    t.track = Some("3".to_string());
    t.duration_seconds = Some(75);
    assert_eq!(album_track_row(&t), ("3".to_string(), "Unknown".to_string(), "1:15".to_string()));
    assert_eq!(album_track_row(&track("/m/b.mp3")), (String::new(), "Unknown".to_string(), String::new()));
}

#[test]
fn the_prompt_about_gone_files_names_ten() {
    let files: Vec<String> = (0..12).map(|i| format!("/music/dir/f{i}.mp3")).collect();
    let (msg, detail) = stale_prompt(&files);
    assert_eq!(msg, "12 tracks no longer found on disk. Remove from library?");
    let lines: Vec<&str> = detail.lines().collect();
    assert_eq!(lines.len(), 11);
    assert_eq!(lines[0], "f0.mp3");
    assert_eq!(lines[10], "...and 2 more");
    let (_, d2) = stale_prompt(&vec!["/a/b.mp3".to_string(), "/".to_string()]);
    assert_eq!(d2, "b.mp3\n/");
}

#[test]
fn youtube_titles_split_into_artist_and_album() {
    assert_eq!(parse_youtube_title("Artist - Album (Remastered) [Official]"), ("Artist".to_string(), "Album".to_string()));
    assert_eq!(parse_youtube_title("  A  -  B ) ) "), ("A".to_string(), "B".to_string()));
    assert_eq!(parse_youtube_title("No separator"), ("Unknown".to_string(), "No separator".to_string()));
    let mut t = track("/m/a.mp3");
    t.album = Some("Al".to_string());
    assert_eq!(album_artist_text(&MediaItem::Track(t)), "Al // (Unknown)");
    assert_eq!(album_artist_text(&MediaItem::Video(video(1, "X - Y"))), "Y // X");
}

#[test]
fn columns_and_their_orders() {
    let mut t = track("/m/a.mp3");
    t.track = Some("10".to_string());
    t.play_count = 3;
    assert_eq!(track_number_text(&MediaItem::Track(t)), "10");
    assert_eq!(track_number_text(&MediaItem::Video(video(1, "x"))), "");
    assert_eq!(play_count_text(3), "3");
    assert_eq!(play_count_text(0), "");
    assert_eq!(duration_sort_key(&MediaItem::Video(video(1, "x"))), 0);
    assert_eq!(compare_track_numbers("2", "10"), Comparison::Less);
    assert_eq!(compare_track_numbers("b", "A"), Comparison::Greater);
    assert_eq!(compare_track_numbers("2", "x"), Comparison::Less);
    assert_eq!(compare_sort_keys("abc", "ABC"), Comparison::Equal);
}

#[test]
fn drags_carry_lines_and_drops_reorder() {
    let items = vec![
        MediaItem::Track(track("/a")),
        MediaItem::Track(track("/b")),
        MediaItem::Video(video(7, "v")),
        MediaItem::Track(track("/d")),
    ];
    assert_eq!(drag_data(&vec![]), None);
    let data = drag_data(&vec![items[2].clone(), items[0].clone()]).unwrap();
    assert_eq!(data, "video:7\ntrack:/a");
    let entries = drop_entries("track:/x\nvideo:12\nvideo:abc\nother");
    assert_eq!(entries.len(), 2);
    assert!(matches!(&entries[1], PlaylistItemIdentifier::Video(12)));
    let show = |v: Vec<PlaylistItemIdentifier>| -> Vec<String> {
        v.into_iter()
            .map(|e| match e {
                PlaylistItemIdentifier::Track(f) => f,
                PlaylistItemIdentifier::Video(i) => format!("#{i}"),
            })
            .collect()
    };
    assert_eq!(show(reorder_for_drop(&items, "track:/a", 2).unwrap()), vec!["/b", "#7", "/a", "/d"]);
    assert_eq!(show(reorder_for_drop(&items, "track:/d\nvideo:7", 0).unwrap()), vec!["#7", "/d", "/a", "/b"]);
    assert_eq!(show(reorder_for_drop(&items, "track:/b", 99).unwrap()), vec!["/a", "#7", "/d", "/b"]);
    assert!(reorder_for_drop(&items, "track:/zzz", 1).is_none());
    assert!(reorder_for_drop(&vec![], "track:/a", 0).is_none());
}

#[test]
fn channel_imports_count_and_report() {
    let text = "  @chan \n\nnot a url\nPLabcdefghijkl\r\n";
    assert_eq!(
        import_urls(text),
        vec!["https://www.youtube.com/@chan/videos".to_string(), "https://www.youtube.com/playlist?list=PLabcdefghijkl".to_string()]
    );
    assert!(has_importable_url(text));
    assert!(!has_importable_url("   \nnope"));
    let (mut imp, first) = ChannelImport::start(3);
    assert_eq!(first, "Fetching channel 1 of 3...");
    assert_eq!(imp.channel_fetched(true), Some("Fetching channel 2 of 3...".to_string()));
    assert_eq!(imp.fetch_failed(), Some("Fetching channel 3 of 3...".to_string()));
    assert_eq!(imp.channel_fetched(false), None);
    assert_eq!(imp.finish_text(), "Added 1 channels, 2 failed");
    assert_eq!(ChannelImport::start(1).0.finish_text(), "Added 0 channels");
    assert_eq!(connection_lost_text(), "Error: Connection lost");
    let rows = video_rows(&vec![VideoInfo {
        video_id: "a".to_string(),
        title: "T".to_string(),
        duration_seconds: Some(5),
        thumbnail_url: None,
        published_at: None,
    }]);
    assert_eq!(rows[0].0, "a");
    assert_eq!(rows[0].2, Some(5));
}

#[test]
fn helper_programs_get_their_arguments() {
    assert_eq!(ffmpeg_vaporwave_args("in.mp3"), vec!["-i", "in.mp3", "-af", "asetrate=44100*0.66,aresample=44100", "-f", "wav", "-"]);
    assert_eq!(watch_url("abc"), "https://www.youtube.com/watch?v=abc");
    assert_eq!(yt_dlp_audio_args("abc")[4], "https://www.youtube.com/watch?v=abc");
    assert_eq!(mpv_socket_path(42), "/tmp/fml9000-mpv-42.sock");
    assert_eq!(mpv_args("/s", "id")[2], "--input-ipc-server=/s");
    assert_eq!(mpv_command_line(mpv_pause_command()), "{ \"command\": [\"cycle\", \"pause\"] }\n");
    assert_eq!(spawn_error("ffmpeg", "nope"), "Failed to spawn ffmpeg: nope");
    assert!(ffmpeg_missing_message("x").starts_with("FFmpeg not found: x.\n\nPlease install ffmpeg:"));
}

#[test]
fn the_scanner_talks() {
    assert!(is_yes(" y\n"));
    assert!(is_yes("Y"));
    assert!(!is_yes("yes"));
    assert_eq!(expand_home("~/music", Some("/home/u")), "/home/u/music");
    assert_eq!(expand_home("~/music", None), "~/music");
    assert_eq!(expand_home("/x~", Some("/h")), "/x~");
    let p = ScanProgress::ScannedFile { total_found: 4, skipped: 1, added: 2, updated: 1, current_file: String::new() };
    assert_eq!(progress_line(&p), "\r  4 files, 1 existing, 2 new, 1 updated");
    let f = ScanProgress::FoundFile { total_found: 3, skipped: 0, current_file: String::new() };
    assert_eq!(progress_line(&f), "\r  Found 3 files (0 existing)...");
    assert_eq!(summary_lines(10, 2, 8, 0, 1), vec!["  10 files found", "  2 already up to date", "  8 added", "1 tracks no longer found on disk:"]);
    assert_eq!(removed_line(3), "Removed 3 tracks.");
}
