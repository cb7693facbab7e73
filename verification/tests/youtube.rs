use fml9000::youtube::{
    channel_info_from_entry, extract_handle, is_playlist_url, parse_youtube_url, video_from_entry, ChannelFetch,
    YtDlpPlaylistEntry,
};

#[test]
fn parse_youtube_url_channel_handle() {
    assert_eq!(
        parse_youtube_url("@TheCodingTrain"),
        Some("https://www.youtube.com/@TheCodingTrain/videos".to_string())
    );
}

#[test]
fn parse_youtube_url_channel_id() {
    let id = "UCvjgXvBlbQiydffZU7m1_aw";
    assert_eq!(parse_youtube_url(id), Some(format!("https://www.youtube.com/channel/{id}/videos")));
}

#[test]
fn parse_youtube_url_playlist_id() {
    let pl = "PLRqwX-V7Uu6ZiZxtDDRCi6uhfTH4FilpH";
    assert_eq!(parse_youtube_url(pl), Some(format!("https://www.youtube.com/playlist?list={pl}")));
}

#[test]
fn parse_youtube_url_full_playlist_url() {
    let url = "https://www.youtube.com/playlist?list=PLRqwX-V7Uu6ZiZxtDDRCi6uhfTH4FilpH";
    assert_eq!(parse_youtube_url(url), Some(url.to_string()));
}

#[test]
fn parse_youtube_url_full_channel_url() {
    let url = "https://www.youtube.com/@TheCodingTrain";
    assert_eq!(parse_youtube_url(url), Some(url.to_string()));
}

#[test]
fn parse_youtube_url_invalid() {
    assert_eq!(parse_youtube_url("random text"), None);
    assert_eq!(parse_youtube_url(""), None);
}

#[test]
fn is_playlist_url_detects_playlists() {
    assert!(is_playlist_url("https://www.youtube.com/playlist?list=PLxxxx"));
    assert!(is_playlist_url("https://www.youtube.com/watch?v=abc&list=PLxxxx"));
}

#[test]
fn is_playlist_url_rejects_non_playlists() {
    assert!(!is_playlist_url("https://www.youtube.com/@TheCodingTrain"));
    assert!(!is_playlist_url("https://www.youtube.com/channel/UCxxxx/videos"));
}

#[test]
fn extract_handle_from_url() {
    assert_eq!(
        extract_handle("https://www.youtube.com/@TheCodingTrain/videos"),
        Some("@TheCodingTrain".to_string())
    );
}

#[test]
fn extract_handle_no_handle() {
    assert_eq!(extract_handle("https://www.youtube.com/channel/UCxxxx"), None);
}

#[test]
fn short_ids_name_nothing() {
    assert_eq!(parse_youtube_url("UCshort"), None);
    assert_eq!(parse_youtube_url("PLshort"), None);
    assert_eq!(parse_youtube_url("PLlongerthan10"), Some("https://www.youtube.com/playlist?list=PLlongerthan10".to_string()));
}

fn entry() -> YtDlpPlaylistEntry {
    YtDlpPlaylistEntry {
        id: None,
        title: None,
        duration_seconds: None,
        thumbnail: None,
        upload_date: None,
        channel: None,
        channel_id: None,
        channel_url: None,
        uploader: None,
        uploader_id: None,
        uploader_url: None,
        playlist_channel: None,
        playlist_channel_id: None,
        playlist_uploader: None,
        playlist_uploader_id: None,
        playlist_webpage_url: None,
        playlist_title: None,
        playlist_id: None,
        entry_type: None,
    }
}

#[test]
fn a_record_with_an_id_lists_a_video_with_its_upload_day() {
    let mut e = entry();
    e.id = Some("abc".to_string());
    e.upload_date = Some("20240615".to_string());
    let v = video_from_entry(&e).expect("a video");
    assert_eq!(v.video_id, "abc");
    assert_eq!(v.title, "Unknown");
    let d = v.published_at.expect("a date");
    assert_eq!((d.year, d.month, d.day, d.hour), (2024, 6, 15, 0));
    e.upload_date = Some("not a date".to_string());
    assert!(video_from_entry(&e).unwrap().published_at.is_none());
    e.entry_type = Some("playlist".to_string());
    assert!(video_from_entry(&e).is_none());
}

#[test]
fn the_channel_comes_from_the_first_record_naming_it() {
    let mut e = entry();
    e.channel_id = Some("UC123".to_string());
    e.channel = Some("Chan".to_string());
    e.uploader_id = Some("@chan".to_string());
    let c = channel_info_from_entry(&e, false, "https://www.youtube.com/@chan/videos").expect("a channel");
    assert_eq!(c.channel_id, "UC123");
    assert_eq!(c.name, "Chan");
    assert!(channel_info_from_entry(&entry(), false, "https://www.youtube.com/@chan/videos").is_none());
}

#[test]
fn a_fetch_reports_each_video_and_needs_a_channel() {
    let (mut f, args) = ChannelFetch::start("@chan").expect("valid");
    assert_eq!(args.last().unwrap(), "https://www.youtube.com/@chan/videos");
    let mut e = entry();
    e.id = Some("v1".to_string());
    assert_eq!(f.take_entry(0, &e), Some("Fetched 1 videos...".to_string()));
    let r = f.finish(true);
    assert_eq!(r.unwrap_err(), "Could not determine channel/playlist info");
    assert_eq!(ChannelFetch::start("nothing").err(), Some("Invalid YouTube URL".to_string()));
}

#[test]
fn a_fetch_keeps_each_video_as_its_record_gives_it() {
    let (mut f, _) = ChannelFetch::start("@chan").expect("valid");
    let mut e = entry();
    e.channel_id = Some("UC9".to_string());
    e.id = Some("v1".to_string());
    e.title = Some("First".to_string());
    e.duration_seconds = Some(61);
    e.thumbnail = Some("https://i.ytimg.com/vi/v1/t.jpg".to_string());
    e.upload_date = Some("20240102".to_string());
    f.take_entry(0, &e);
    let mut e2 = entry();
    e2.id = Some("v2".to_string());
    f.take_entry(1, &e2);
    let (c, vs) = f.finish(true).expect("a channel");
    assert_eq!(c.channel_id, "UC9");
    assert!(c.thumbnail_url.is_none());
    assert_eq!(vs.len(), 2);
    assert_eq!(vs[0].video_id, "v1");
    assert_eq!(vs[0].title, "First");
    assert_eq!(vs[0].duration_seconds, Some(61));
    assert_eq!(vs[0].thumbnail_url.as_deref(), Some("https://i.ytimg.com/vi/v1/t.jpg"));
    let d = vs[0].published_at.expect("a date");
    assert_eq!((d.year, d.month, d.day, d.hour, d.minute, d.second), (2024, 1, 2, 0, 0, 0));
    assert_eq!(vs[1].video_id, "v2");
    assert_eq!(vs[1].title, "Unknown");
    assert!(vs[1].duration_seconds.is_none() && vs[1].thumbnail_url.is_none() && vs[1].published_at.is_none());
}

#[test]
fn an_upload_date_is_midnight_of_its_day() {
    let d = fml9000::youtube::parse_upload_date("19991231").expect("a date");
    assert_eq!((d.year, d.month, d.day, d.hour, d.minute, d.second, d.nanosecond), (1999, 12, 31, 0, 0, 0, 0));
    assert!(fml9000::youtube::parse_upload_date("20241301").is_none());
    assert!(fml9000::youtube::parse_upload_date("").is_none());
}
