use fml9000::library::PlaylistItemIdentifier;
use std::hash::{BuildHasher, BuildHasherDefault};
use fml9000::media::{MediaItem, Playlist, Timestamp, Track, YouTubeChannel, YouTubeVideo};
use fml9000::recent::{order_newest_first, recently_added, recently_played, timestamp_before};
use fml9000::thumbnails::{album_art_file_names, hash_key, video_thumbnail_urls};
use fml9000::web::{
    album_to_json, channel_to_json, channels_to_refresh, current_track, item_target, media_item_to_json,
    play_target, playlist_to_json, refresh_due_given, sidebar_data, slugify, source_for_id, thumbnail_content_type,
    track_to_json, PlayError, SourceRequest,
};

fn ts(year: i32, month: u8, day: u8, hour: u8) -> Timestamp {
    Timestamp { year, month, day, hour, minute: 0, second: 0, nanosecond: 0 }
}

fn track(name: &str, added: Option<Timestamp>, last_played: Option<Timestamp>) -> Track {
    Track {
        filename: name.to_string(),
        title: Some(name.to_string()),
        artist: None,
        album: None,
        album_artist: None,
        track: None,
        genre: None,
        added,
        duration_seconds: Some(61),
        play_count: 2,
        last_played,
    }
}

fn video(id: i32, vid: &str, added: Option<Timestamp>, fetched: Timestamp, last_played: Option<Timestamp>) -> YouTubeVideo {
    YouTubeVideo {
        id,
        video_id: vid.to_string(),
        channel_id: 1,
        title: format!("Video {vid}"),
        duration_seconds: None,
        thumbnail_url: None,
        published_at: None,
        fetched_at: fetched,
        play_count: 0,
        last_played,
        added,
    }
}

fn names(items: &[MediaItem]) -> Vec<String> {
    items.iter().map(|i| i.title().to_string()).collect()
}

#[test]
fn timestamps_order_field_by_field() {
    assert!(timestamp_before(&ts(2023, 12, 31, 23), &ts(2024, 1, 1, 0)));
    assert!(!timestamp_before(&ts(2024, 1, 1, 0), &ts(2024, 1, 1, 0)));
    let mut a = ts(2024, 1, 1, 0);
    let b = a;
    a.nanosecond = 1;
    assert!(timestamp_before(&b, &a));
}

#[test]
fn recently_played_lists_played_items_newest_first() {
    let tracks = vec![
        track("a", None, Some(ts(2024, 1, 1, 0))),
        track("b", None, None),
        track("c", None, Some(ts(2024, 3, 1, 0))),
    ];
    let videos = vec![video(7, "v", None, ts(2020, 1, 1, 0), Some(ts(2024, 2, 1, 0)))];
    let r = recently_played(&tracks, &videos, -1);
    assert_eq!(names(&r), vec!["c", "Video v", "a"]);
    assert!(recently_played(&tracks, &videos, 0).is_empty());
    let r2 = recently_played(&tracks, &videos, 2);
    assert_eq!(names(&r2), vec!["c", "Video v"]);
    let r3 = recently_played(&tracks, &videos, -5);
    assert_eq!(r3.len(), 3);
}

#[test]
fn recently_added_uses_epoch_or_fetch_time_when_unknown() {
    let tracks = vec![track("old", None, None), track("new", Some(ts(2024, 5, 1, 0)), None)];
    let videos = vec![video(1, "f", None, ts(2024, 4, 1, 0), None), video(2, "g", Some(ts(2024, 6, 1, 0)), ts(2000, 1, 1, 0), None)];
    let r = recently_added(&tracks, &videos, -1);
    assert_eq!(names(&r), vec!["Video g", "new", "Video f", "old"]);
    assert!(recently_added(&tracks, &videos, 0).is_empty());
}

#[test]
fn equal_times_keep_their_order() {
    let t = ts(2024, 1, 1, 0);
    let items = vec![
        (MediaItem::Track(track("x", None, None)), t),
        (MediaItem::Track(track("y", None, None)), ts(2025, 1, 1, 0)),
        (MediaItem::Track(track("z", None, None)), t),
    ];
    let sorted = order_newest_first(&items);
    let n: Vec<String> = sorted.iter().map(|(i, _)| i.title().to_string()).collect();
    assert_eq!(n, vec!["y", "x", "z"]);
}

#[test]
fn cache_names_are_sixteen_hex_digits() {
    let a = hash_key("https://example.com/a.jpg");
    let b = hash_key("https://example.com/b.jpg");
    assert_eq!(a.len(), 16);
    assert!(a.chars().all(|c| c.is_ascii_hexdigit() && !c.is_ascii_uppercase()));
    assert_ne!(a, b);
    assert_eq!(a, hash_key("https://example.com/a.jpg"));
    assert_ne!(a, "https://example.com/a.jpg");
    let h = BuildHasherDefault::<std::collections::hash_map::DefaultHasher>::default().hash_one("k");
    assert_eq!(hash_key("k"), format!("{:016x}", h));
}

#[test]
fn thumbnails_and_cover_files() {
    let videos = vec![video(1, "abc", None, ts(2024, 1, 1, 0), None)];
    assert_eq!(video_thumbnail_urls(&videos), vec!["https://i.ytimg.com/vi/abc/mqdefault.jpg".to_string()]);
    assert_eq!(album_art_file_names()[0], "cover.jpg");
    assert_eq!(album_art_file_names().len(), 8);
}

#[test]
fn json_records() {
    let t = track("/a.mp3", Some(ts(2023, 12, 25, 0)), None);
    let j = track_to_json(&t);
    assert_eq!(j.f, "/a.mp3");
    assert_eq!(j.ad.as_deref(), Some("2023-12-25"));
    assert_eq!(j.lp, None);
    assert_eq!(j.d, Some(61));
    let m = media_item_to_json(&MediaItem::Video(video(9, "vid", None, ts(2024, 1, 1, 0), None)));
    assert_eq!(m.kind, "video");
    assert_eq!(m.video_id.as_deref(), Some("vid"));
    assert_eq!(m.video_db_id, Some(9));
    assert_eq!(m.f, None);
    assert_eq!(m.ar.as_deref(), Some(""));
    let a = album_to_json(&track("/b.mp3", None, None));
    assert_eq!((a.artist.as_str(), a.album.as_str()), ("Unknown", "Unknown"));
    let p = playlist_to_json(&Playlist { id: 3, name: "Mix".to_string(), created_at: ts(2022, 2, 3, 4) });
    assert_eq!(p.created_at, "2022-02-03");
    let c = channel_to_json(&YouTubeChannel {
        id: 1,
        channel_id: "UC1".to_string(),
        name: "Chan".to_string(),
        handle: Some("@c".to_string()),
        url: "u".to_string(),
        thumbnail_url: None,
        last_fetched: None,
        created_at: ts(2020, 1, 1, 0),
    });
    assert_eq!(c.handle.as_deref(), Some("@c"));
}

#[test]
fn slugs_join_alphanumeric_runs() {
    assert_eq!(slugify("My Great  Playlist!"), "my-great-playlist");
    assert_eq!(slugify("--Hello--World--"), "hello-world");
    assert_eq!(slugify("Ünïcödé 2"), "ünïcödé-2");
    assert_eq!(slugify("!!!"), "");
}

#[test]
fn the_sidebar_lists_sources_playlists_and_channels() {
    let playlists = vec![Playlist { id: 5, name: "Road Trip".to_string(), created_at: ts(2020, 1, 1, 0) }];
    let channel = |id: i32, name: &str| YouTubeChannel {
        id,
        channel_id: format!("UC{id}"),
        name: name.to_string(),
        handle: None,
        url: String::new(),
        thumbnail_url: None,
        last_fetched: None,
        created_at: ts(2020, 1, 1, 0),
    };
    let channels = vec![channel(1, "News"), channel(2, "Music Hall")];
    let s = sidebar_data(&playlists, &channels, &vec![(1, 3), (2, 0)]);
    assert_eq!(s.auto_playlists.len(), 6);
    assert_eq!(s.auto_playlists[5].id, "queue");
    assert_eq!(s.auto_playlists[5].label, "Playback Queue");
    assert_eq!(s.user_playlists[0].id, "playlist-road-trip");
    assert_eq!(s.user_playlists[0].db_id, Some(5));
    assert_eq!(s.youtube_channels[0].new_count, Some(3));
    assert_eq!(s.youtube_channels[1].new_count, None);
    assert_eq!(s.youtube_channels[1].id, "channel-music-hall");
}

#[test]
fn source_ids_take_either_separator() {
    assert_eq!(source_for_id("all-media"), Some(SourceRequest::AllMedia));
    assert_eq!(source_for_id("recently_played"), Some(SourceRequest::RecentlyPlayed { limit: 100 }));
    assert_eq!(source_for_id("recently-added"), Some(SourceRequest::RecentlyAdded { limit: 0 }));
    assert_eq!(source_for_id("nope"), None);
}

#[test]
fn playing_from_the_web_refuses_videos_and_bad_indices() {
    let items = vec![MediaItem::Track(track("/a.mp3", None, None)), MediaItem::Video(video(1, "v", None, ts(2020, 1, 1, 0), None))];
    assert_eq!(play_target(&items, 0), Ok("/a.mp3".to_string()));
    assert_eq!(play_target(&items, 1), Err(PlayError::VideoNotSupported));
    assert_eq!(play_target(&items, 2), Err(PlayError::IndexOutOfRange));
    assert_eq!(PlayError::IndexOutOfRange.status_code(), 400);
    assert_eq!(PlayError::VideoNotSupported.message(), "YouTube playback not yet supported in web UI");
    let info = current_track(&items, Some(0)).expect("current");
    assert_eq!(info.duration_str, "1:01");
    assert!(current_track(&items, Some(5)).is_none());
}

#[test]
fn requests_name_a_track_before_a_video() {
    assert!(matches!(item_target(Some("/a".to_string()), Some(3)), Some(PlaylistItemIdentifier::Track(f)) if f == "/a"));
    assert!(matches!(item_target(None, Some(3)), Some(PlaylistItemIdentifier::Video(3))));
    assert!(item_target(None, None).is_none());
}

#[test]
fn thumbnails_are_served_by_extension() {
    assert_eq!(thumbnail_content_type("/c/abc.png"), "image/png");
    assert_eq!(thumbnail_content_type("/c/abc.PNG"), "image/jpeg");
    assert_eq!(thumbnail_content_type("/c/0123456789abcdef"), "image/jpeg");
}

#[test]
fn channels_refresh_when_never_fetched_or_six_hours_old() {
    assert!(refresh_due_given(None));
    assert!(refresh_due_given(Some(Some(true))));
    assert!(!refresh_due_given(Some(Some(false))));
    let channel = |last: Option<Timestamp>| YouTubeChannel {
        id: 1,
        channel_id: String::new(),
        name: String::new(),
        handle: None,
        url: String::new(),
        thumbnail_url: None,
        last_fetched: last,
        created_at: ts(2020, 1, 1, 0),
    };
    let now = ts(2024, 1, 1, 12);
    let channels = vec![channel(None), channel(Some(ts(2024, 1, 1, 9))), channel(Some(ts(2024, 1, 1, 5))), channel(Some(ts(2024, 1, 1, 6)))];
    assert_eq!(channels_to_refresh(&channels, now), vec![0, 2]);
}

#[test]
fn slugs_of_ascii_names_are_clean_and_stable() {
    assert_eq!(slugify("Rock & Roll"), "rock-roll");
    assert_eq!(slugify("  "), "");
    for name in ["Rock & Roll", "  A--b  ", "x_y.z", "ABC 123", "-lead", "trail-"] {
        let s = slugify(name);
        assert!(s.chars().all(|c| c.is_ascii_lowercase() || c.is_ascii_digit() || c == '-'));
        assert!(!s.starts_with('-') && !s.ends_with('-') && !s.contains("--"));
        assert_eq!(slugify(&s), s);
    }
}

#[test]
fn filling_the_cache_counts_what_was_stored() {
    let mut fill = fml9000::thumbnails::CacheFill::new(3);
    assert_eq!(fill.step(true), (1, 3));
    assert_eq!(fill.step(false), (2, 3));
    assert_eq!(fill.step(true), (3, 3));
    assert_eq!(fill.outcome(), (2, 3));
}
