use fml9000::facets::{build_facets, Facet};
use fml9000::library::{
    album_artist_name, filter_album_tracks, get_album_artist_or_artist, next_playlist_position,
    next_queue_position, split_by_duration, stale_files, ScanAction, ScanCounters, ScanProgress,
};
use fml9000::media::Track;
use fml9000::paths::{extension, file_name, is_audio_file};

fn make_track(
    filename: &str,
    title: Option<&str>,
    artist: Option<&str>,
    album: Option<&str>,
    album_artist: Option<&str>,
) -> Track {
    Track {
        filename: filename.to_string(),
        title: title.map(str::to_string),
        artist: artist.map(str::to_string),
        album: album.map(str::to_string),
        album_artist: album_artist.map(str::to_string),
        track: None,
        genre: None,
        added: None,
        duration_seconds: None,
        play_count: 0,
        last_played: None,
    }
}

#[test]
fn is_audio_file_recognizes_common_formats() {
    let extensions = [
        "mp3", "flac", "ogg", "opus", "wav", "aac", "m4a", "wma", "aiff", "aif", "ape", "wv", "mpc", "mp4", "webm",
    ];
    for ext in extensions {
        assert!(is_audio_file(&format!("song.{ext}")), "{ext} should be recognized as audio");
    }
}

#[test]
fn is_audio_file_case_insensitive() {
    assert!(is_audio_file("song.MP3"));
    assert!(is_audio_file("song.Flac"));
    assert!(is_audio_file("song.OGG"));
}

#[test]
fn is_audio_file_rejects_non_audio() {
    assert!(!is_audio_file("readme.txt"));
    assert!(!is_audio_file("image.png"));
    assert!(!is_audio_file("document.pdf"));
    assert!(!is_audio_file("code.rs"));
    assert!(!is_audio_file("data.json"));
}

#[test]
fn is_audio_file_no_extension() {
    assert!(!is_audio_file("Makefile"));
    assert!(!is_audio_file("/some/path/noext"));
}

#[test]
fn paths_read_names_and_extensions_as_std_does() {
    assert_eq!(file_name("/a/b/song.mp3").map(|v| v.into_iter().collect::<String>()), Some("song.mp3".to_string()));
    assert_eq!(file_name("/a/b/").map(|v| v.into_iter().collect::<String>()), Some("b".to_string()));
    assert_eq!(file_name("/a/.."), None);
    assert_eq!(extension(".bashrc"), None);
    assert_eq!(extension("a.tar.gz").map(|v| v.into_iter().collect::<String>()), Some("gz".to_string()));
    assert!(!is_audio_file(".mp3"));
    assert!(is_audio_file("dir/x.mp3/."));
}

#[test]
fn build_facets_empty_input() {
    let facets = build_facets(&[]);
    assert_eq!(facets.len(), 1);
    assert!(facets[0].all);
}

#[test]
fn build_facets_first_entry_is_all() {
    let tracks = vec![make_track("/a.mp3", Some("Song"), Some("Artist"), Some("Album"), None)];
    let facets = build_facets(&tracks);
    assert!(facets[0].all);
    assert!(facets[0].album.is_none());
    assert!(facets[0].album_artist.is_none());
}

#[test]
fn build_facets_deduplicates() {
    let tracks = vec![
        make_track("/a.mp3", Some("Song1"), Some("Artist"), Some("Album"), None),
        make_track("/b.mp3", Some("Song2"), Some("Artist"), Some("Album"), None),
    ];
    let facets = build_facets(&tracks);
    assert_eq!(facets.len(), 2);
}

#[test]
fn build_facets_multiple_albums() {
    let tracks = vec![
        make_track("/a.mp3", None, Some("Artist"), Some("Album1"), None),
        make_track("/b.mp3", None, Some("Artist"), Some("Album2"), None),
    ];
    let facets = build_facets(&tracks);
    assert_eq!(facets.len(), 3);
}

#[test]
fn build_facets_uses_album_artist_over_artist() {
    let tracks = vec![make_track("/a.mp3", None, Some("Track Artist"), Some("Album"), Some("Album Artist"))];
    let facets = build_facets(&tracks);
    let non_all = &facets[1];
    assert_eq!(non_all.album_artist_or_artist.as_deref(), Some("Album Artist"));
    assert_eq!(non_all.album_artist.as_deref(), Some("Album Artist"));
}

#[test]
fn build_facets_falls_back_to_artist_when_no_album_artist() {
    let tracks = vec![make_track("/a.mp3", None, Some("Artist"), Some("Album"), None)];
    let facets = build_facets(&tracks);
    let non_all = &facets[1];
    assert_eq!(non_all.album_artist_or_artist.as_deref(), Some("Artist"));
    assert!(non_all.album_artist.is_none());
}

#[test]
fn build_facets_sorted() {
    let tracks = vec![
        make_track("/a.mp3", None, Some("Zebra"), Some("Z Album"), None),
        make_track("/b.mp3", None, Some("Alpha"), Some("A Album"), None),
    ];
    let facets = build_facets(&tracks);
    assert!(facets[0].all);
    let albums: Vec<Option<&str>> = facets[1..].iter().map(|f| f.album.as_deref()).collect();
    assert_eq!(albums, vec![Some("A Album"), Some("Z Album")]);
}

#[test]
fn build_facets_handles_none_fields() {
    let tracks = vec![make_track("/a.mp3", None, None, None, None)];
    let facets = build_facets(&tracks);
    assert_eq!(facets.len(), 2);
    let non_all = &facets[1];
    assert!(non_all.album.is_none());
    assert!(non_all.album_artist.is_none());
    assert!(non_all.album_artist_or_artist.is_none());
}

#[test]
fn build_facets_orders_missing_before_present() {
    let tracks = vec![
        make_track("/a.mp3", None, Some("B"), Some("X"), None),
        make_track("/b.mp3", None, None, Some("Y"), None),
        make_track("/c.mp3", None, Some("B"), None, None),
    ];
    let facets = build_facets(&tracks);
    let keys: Vec<(Option<&str>, Option<&str>)> =
        facets[1..].iter().map(|f| (f.album_artist_or_artist.as_deref(), f.album.as_deref())).collect();
    assert_eq!(keys, vec![(None, Some("Y")), (Some("B"), None), (Some("B"), Some("X"))]);
}

#[test]
fn scan_progress_starting_folder() {
    let p = ScanProgress::StartingFolder { folder: "/music".to_string() };
    if let ScanProgress::StartingFolder { folder } = p {
        assert_eq!(folder, "/music");
    } else {
        panic!("expected StartingFolder variant");
    }
}

#[test]
fn scan_progress_found_file() {
    let p = ScanProgress::FoundFile { total_found: 5, skipped: 2, current_file: "song.mp3".to_string() };
    if let ScanProgress::FoundFile { total_found, skipped, current_file } = p {
        assert_eq!(total_found, 5);
        assert_eq!(skipped, 2);
        assert_eq!(current_file, "song.mp3");
    } else {
        panic!("expected FoundFile variant");
    }
}

#[test]
fn scan_progress_complete() {
    let stale = vec!["/old/file.mp3".to_string()];
    let p = ScanProgress::Complete { total_found: 100, skipped: 10, added: 80, updated: 10, stale_files: stale.clone() };
    if let ScanProgress::Complete { total_found, skipped, added, updated, stale_files } = p {
        assert_eq!(total_found, 100);
        assert_eq!(skipped, 10);
        assert_eq!(added, 80);
        assert_eq!(updated, 10);
        assert_eq!(stale_files, stale);
    } else {
        panic!("expected Complete variant");
    }
}

#[test]
fn scan_progress_clone() {
    let p = ScanProgress::ScannedFile {
        total_found: 1,
        skipped: 0,
        added: 1,
        updated: 0,
        current_file: "test.flac".to_string(),
    };
    let p2 = p.clone();
    if let ScanProgress::ScannedFile { current_file, .. } = p2 {
        assert_eq!(current_file, "test.flac");
    }
}

#[test]
fn facet_derives() {
    let f = Facet {
        album: Some("A".to_string()),
        album_artist: None,
        album_artist_or_artist: Some("B".to_string()),
        all: false,
    };
    let f2 = f.clone();
    assert_eq!(f, f2);
    assert_eq!(format!("{:?}", f), format!("{:?}", f2));
}

#[test]
fn scan_counters_follow_the_files() {
    let mut c = ScanCounters::new();
    let (p, a) = c.found_file("/m/a.mp3", true, false);
    assert_eq!(a, ScanAction::Skip);
    assert!(matches!(p, ScanProgress::FoundFile { total_found: 1, skipped: 0, .. }));
    let (_, a) = c.found_file("/m/b.mp3", false, true);
    assert_eq!(a, ScanAction::UpdateDuration);
    let (_, a2) = c.found_file("/m/c.mp3", false, false);
    assert_eq!(a2, ScanAction::Insert);
    c.stored_file("/m/b.mp3".to_string(), a, true);
    c.stored_file("/m/c.mp3".to_string(), a2, false);
    assert_eq!(c, ScanCounters { total_found: 3, skipped: 1, added: 0, updated: 1 });
    match c.complete(vec!["/m/gone.mp3".to_string()]) {
        ScanProgress::Complete { total_found, skipped, added, updated, stale_files } => {
            assert_eq!((total_found, skipped, added, updated), (3, 1, 0, 1));
            assert_eq!(stale_files, vec!["/m/gone.mp3".to_string()]);
        }
        _ => panic!("expected Complete"),
    }
}

#[test]
fn stale_files_are_gone_files_under_a_folder() {
    let db = vec!["/m/a.mp3".to_string(), "/m/b.mp3".to_string(), "/x/c.mp3".to_string()];
    let folders = vec!["/m".to_string()];
    let exists = vec![true, false, false];
    assert_eq!(stale_files(db, &folders, &exists), vec!["/m/b.mp3".to_string()]);
}

#[test]
fn tracks_split_by_known_duration() {
    let mut a = make_track("/a.mp3", None, None, None, None);
    a.duration_seconds = Some(10);
    let b = make_track("/b.mp3", None, None, None, None);
    let (complete, incomplete) = split_by_duration(&vec![a, b]);
    assert_eq!(complete, vec!["/a.mp3".to_string()]);
    assert_eq!(incomplete, vec!["/b.mp3".to_string()]);
}

#[test]
fn albums_are_listed_under_album_artist_then_artist() {
    let t1 = make_track("/a.mp3", None, Some("Art"), Some("Al"), Some("AlbArt"));
    let t2 = make_track("/b.mp3", None, Some("Art"), Some("Al"), None);
    let t3 = make_track("/c.mp3", None, None, Some("Al"), None);
    assert_eq!(get_album_artist_or_artist(&t1), Some("AlbArt".to_string()));
    assert_eq!(album_artist_name(&t3), "Unknown");
    let picked = filter_album_tracks(&vec![t1, t2, t3], "Art");
    assert_eq!(picked.len(), 1);
    assert_eq!(picked[0].filename, "/b.mp3");
}

#[test]
fn queue_positions_start_at_zero_and_playlists_at_one() {
    assert_eq!(next_queue_position(None), 0);
    assert_eq!(next_queue_position(Some(4)), 5);
    assert_eq!(next_playlist_position(None), 1);
    assert_eq!(next_playlist_position(Some(4)), 5);
}

#[test]
fn build_facets_ignores_track_order_and_repetition() {
    let a = vec![
        make_track("/a.mp3", None, Some("B"), Some("X"), None),
        make_track("/b.mp3", None, Some("A"), Some("Y"), None),
        make_track("/c.mp3", None, Some("A"), Some("Y"), None),
    ];
    let b = vec![
        make_track("/d.mp3", None, Some("A"), Some("Y"), None),
        make_track("/e.mp3", None, Some("B"), Some("X"), None),
    ];
    let fa = build_facets(&a);
    let fb = build_facets(&b);
    assert_eq!(fa, fb);
    assert_eq!(fa.len(), 3);
    assert_eq!(fa[1].album_artist_or_artist.as_deref(), Some("A"));
    assert_eq!(fa[2].album_artist_or_artist.as_deref(), Some("B"));
}

#[test]
fn queue_and_playlist_positions_come_after_the_last() {
    assert_eq!(fml9000::library::next_queue_position(None), 0);
    assert_eq!(fml9000::library::next_queue_position(Some(7)), 8);
    assert_eq!(fml9000::library::next_playlist_position(None), 1);
    assert_eq!(fml9000::library::next_playlist_position(Some(3)), 4);
}
