use fml9000::media::{MediaItem, Timestamp, Track, YouTubeVideo};

fn make_track(
    filename: &str,
    title: Option<&str>,
    artist: Option<&str>,
    album: Option<&str>,
    duration: Option<i32>,
) -> MediaItem {
    MediaItem::Track(Track {
        filename: filename.to_string(),
        title: title.map(str::to_string),
        artist: artist.map(str::to_string),
        album: album.map(str::to_string),
        album_artist: None,
        track: None,
        genre: None,
        added: None,
        duration_seconds: duration,
        play_count: 0,
        last_played: None,
    })
}

fn day(year: i32, month: u8, day: u8, hour: u8) -> Timestamp {
    Timestamp { year, month, day, hour, minute: 0, second: 0, nanosecond: 0 }
}

fn make_video(video_id: &str, title: &str, duration: Option<i32>) -> MediaItem {
    MediaItem::Video(YouTubeVideo {
        id: 42,
        video_id: video_id.to_string(),
        channel_id: 1,
        title: title.to_string(),
        duration_seconds: duration,
        thumbnail_url: None,
        published_at: None,
        fetched_at: day(2024, 1, 1, 0),
        play_count: 0,
        last_played: None,
        added: None,
    })
}

#[test]
fn track_title_with_value() {
    let item = make_track("/a.mp3", Some("My Song"), None, None, None);
    assert_eq!(item.title(), "My Song");
}

#[test]
fn track_title_defaults_to_unknown() {
    let item = make_track("/a.mp3", None, None, None, None);
    assert_eq!(item.title(), "Unknown");
}

#[test]
fn video_title() {
    let item = make_video("abc123", "Cool Video", None);
    assert_eq!(item.title(), "Cool Video");
}

#[test]
fn track_artist_with_value() {
    let item = make_track("/a.mp3", None, Some("Band"), None, None);
    assert_eq!(item.artist(), "Band");
}

#[test]
fn track_artist_defaults_to_unknown() {
    let item = make_track("/a.mp3", None, None, None, None);
    assert_eq!(item.artist(), "Unknown");
}

#[test]
fn video_artist_is_empty() {
    let item = make_video("abc", "Vid", None);
    assert_eq!(item.artist(), "");
}

#[test]
fn track_album_with_value() {
    let item = make_track("/a.mp3", None, None, Some("Greatest Hits"), None);
    assert_eq!(item.album(), "Greatest Hits");
}

#[test]
fn track_album_defaults_to_unknown() {
    let item = make_track("/a.mp3", None, None, None, None);
    assert_eq!(item.album(), "Unknown");
}

#[test]
fn video_album_is_empty() {
    let item = make_video("abc", "Vid", None);
    assert_eq!(item.album(), "");
}

#[test]
fn duration_str_formats_correctly() {
    let item = make_track("/a.mp3", None, None, None, Some(185));
    assert_eq!(item.duration_str(), "3:05");
}

#[test]
fn duration_str_zero() {
    let item = make_track("/a.mp3", None, None, None, Some(0));
    assert_eq!(item.duration_str(), "0:00");
}

#[test]
fn duration_str_exact_minute() {
    let item = make_track("/a.mp3", None, None, None, Some(120));
    assert_eq!(item.duration_str(), "2:00");
}

#[test]
fn duration_str_none() {
    let item = make_track("/a.mp3", None, None, None, None);
    assert_eq!(item.duration_str(), "?:??");
}

#[test]
fn duration_str_long() {
    let item = make_track("/a.mp3", None, None, None, Some(3661));
    assert_eq!(item.duration_str(), "61:01");
}

#[test]
fn duration_str_video() {
    let item = make_video("abc", "Vid", Some(90));
    assert_eq!(item.duration_str(), "1:30");
}

#[test]
fn track_filename_for_track() {
    let item = make_track("/music/song.mp3", None, None, None, None);
    assert_eq!(item.track_filename(), Some("/music/song.mp3"));
}

#[test]
fn track_filename_for_video() {
    let item = make_video("abc", "Vid", None);
    assert_eq!(item.track_filename(), None);
}

#[test]
fn video_db_id_for_video() {
    let item = make_video("abc", "Vid", None);
    assert_eq!(item.video_db_id(), Some(42));
}

#[test]
fn video_db_id_for_track() {
    let item = make_track("/a.mp3", None, None, None, None);
    assert_eq!(item.video_db_id(), None);
}

#[test]
fn youtube_video_id_for_video() {
    let item = make_video("dQw4w9WgXcQ", "Never Gonna", None);
    assert_eq!(item.youtube_video_id(), Some("dQw4w9WgXcQ"));
}

#[test]
fn youtube_video_id_for_track() {
    let item = make_track("/a.mp3", None, None, None, None);
    assert_eq!(item.youtube_video_id(), None);
}

#[test]
fn as_track_returns_some_for_track() {
    let item = make_track("/a.mp3", None, None, None, None);
    assert!(item.as_track().is_some());
    assert!(item.as_video().is_none());
}

#[test]
fn as_video_returns_some_for_video() {
    let item = make_video("abc", "Vid", None);
    assert!(item.as_video().is_some());
    assert!(item.as_track().is_none());
}

#[test]
fn play_count_default() {
    let item = make_track("/a.mp3", None, None, None, None);
    assert_eq!(item.play_count(), 0);
}

#[test]
fn last_played_str_none() {
    let item = make_track("/a.mp3", None, None, None, None);
    assert_eq!(item.last_played_str(), "-");
}

#[test]
fn last_played_str_with_date() {
    let dt = day(2024, 6, 15, 12);
    let item = MediaItem::Track(Track {
        filename: "/a.mp3".to_string(),
        title: None,
        artist: None,
        album: None,
        album_artist: None,
        track: None,
        genre: None,
        added: None,
        duration_seconds: None,
        play_count: 3,
        last_played: Some(dt),
    });
    assert_eq!(item.last_played_str(), "2024-06-15");
}

#[test]
fn added_str_none() {
    let item = make_track("/a.mp3", None, None, None, None);
    assert_eq!(item.added_str(), "-");
}

#[test]
fn added_str_with_date() {
    let dt = day(2023, 12, 25, 0);
    let item = MediaItem::Track(Track {
        filename: "/a.mp3".to_string(),
        title: None,
        artist: None,
        album: None,
        album_artist: None,
        track: None,
        genre: None,
        added: Some(dt),
        duration_seconds: None,
        play_count: 0,
        last_played: None,
    });
    assert_eq!(item.added_str(), "2023-12-25");
}

#[test]
fn duration_seconds_track() {
    let item = make_track("/a.mp3", None, None, None, Some(300));
    assert_eq!(item.duration_seconds(), Some(300));
}

#[test]
fn duration_seconds_video() {
    let item = make_video("abc", "Vid", Some(600));
    assert_eq!(item.duration_seconds(), Some(600));
}

#[test]
fn duration_seconds_none() {
    let item = make_track("/a.mp3", None, None, None, None);
    assert_eq!(item.duration_seconds(), None);
}

#[test]
fn format_duration_of_negative_seconds_keeps_the_sign_of_minutes() {
    assert_eq!(fml9000::media::format_duration_secs(-65), "-1:-5");
    assert_eq!(fml9000::media::format_duration_secs(59), "0:59");
}

#[test]
fn dates_outside_four_digit_years_carry_a_sign() {
    assert_eq!(fml9000::media::format_date(&day(12345, 1, 2, 0)), "+12345-01-02");
    assert_eq!(fml9000::media::format_date(&day(-5, 3, 4, 0)), "-0005-03-04");
    assert_eq!(fml9000::media::format_date(&day(7, 3, 4, 0)), "0007-03-04");
}

#[test]
fn video_thumbnail_falls_back_to_default_url() {
    let item = make_video("abc", "Vid", None);
    assert_eq!(item.thumbnail_url(), Some("https://i.ytimg.com/vi/abc/mqdefault.jpg".to_string()));
    let track = make_track("/a.mp3", None, None, None, None);
    assert_eq!(track.thumbnail_url(), None);
}

#[test]
fn artist_with_channel_names_uses_the_channel_of_a_video() {
    let names = vec![(1, "Chan".to_string()), (2, "Other".to_string())];
    assert_eq!(make_video("abc", "Vid", None).artist_with_channel_names(&names), "Chan");
    assert_eq!(make_track("/a.mp3", None, None, None, None).artist_with_channel_names(&names), "Unknown");
    assert_eq!(make_video("abc", "Vid", None).artist_with_channel_names(&vec![]), "");
}

#[test]
fn duration_text_reads_back_as_the_total() {
    for t in [0, 5, 9, 10, 59, 60, 61, 185, 599, 600, 3600, 86399, i32::MAX] {
        let s = fml9000::media::format_duration_secs(t);
        let (m, sec) = s.split_once(':').expect("a colon");
        assert_eq!(sec.len(), 2);
        assert!(m.chars().all(|c| c.is_ascii_digit()) && sec.chars().all(|c| c.is_ascii_digit()));
        let m: i64 = m.parse().unwrap();
        let sec: i64 = sec.parse().unwrap();
        assert!(sec < 60);
        assert_eq!(m * 60 + sec, t as i64);
    }
}
