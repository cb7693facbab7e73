use fml9000::settings::{
    deserialize_folders, AppState, CoreSettings, FmlSettings, FoldersOrFolder, RepeatMode, RowHeight,
};
use fml9000::text::{lines, parse_i32, strip_prefix, trim};

#[test]
fn repeat_mode_defaults_to_all_and_cycles() {
    assert_eq!(RepeatMode::default(), RepeatMode::All);
    assert_eq!(RepeatMode::Off.cycled(), RepeatMode::All);
    assert_eq!(RepeatMode::All.cycled(), RepeatMode::One);
    assert_eq!(RepeatMode::One.cycled(), RepeatMode::Off);
    for m in [RepeatMode::Off, RepeatMode::All, RepeatMode::One] {
        assert_eq!(m.cycled().cycled().cycled(), m);
        assert_eq!(RepeatMode::from_name(m.name()), m);
    }
}

#[test]
fn repeat_mode_names_read_back() {
    assert_eq!(RepeatMode::Off.name(), "off");
    assert_eq!(RepeatMode::from_name("one"), RepeatMode::One);
    assert_eq!(RepeatMode::from_name("anything"), RepeatMode::All);
}

#[test]
fn folders_are_added_once_and_removed_entirely() {
    let mut s = CoreSettings::default();
    assert!(s.folders.is_empty());
    assert_eq!(s.youtube_fetch_limit, 100);
    assert!(s.youtube_audio_only);
    s.add_folder("/music".to_string());
    s.add_folder("/music".to_string());
    s.add_folder("/other".to_string());
    assert_eq!(s.folders, vec!["/music".to_string(), "/other".to_string()]);
    s.remove_folder("/music");
    assert_eq!(s.folders, vec!["/other".to_string()]);
    let mut f = FmlSettings::default();
    f.add_folder("/a".to_string());
    f.remove_folder("/a");
    assert!(f.core.folders.is_empty());
    assert_eq!(f.window_width, 1200);
}

#[test]
fn a_single_folder_or_none_reads_as_a_list() {
    assert_eq!(deserialize_folders(FoldersOrFolder::Folder(Some("/m".to_string()))), vec!["/m".to_string()]);
    assert!(deserialize_folders(FoldersOrFolder::Folder(None)).is_empty());
    assert_eq!(
        deserialize_folders(FoldersOrFolder::Folders(vec!["/a".to_string(), "/b".to_string()])),
        vec!["/a".to_string(), "/b".to_string()]
    );
}

#[test]
fn an_empty_state_opens_all_media_expanded() {
    let s = AppState::from_empty_file();
    assert_eq!(s.nav_section, "all_media");
    assert_eq!(s.section_expanded, [true, true, true]);
    assert_eq!(AppState::default().nav_section, "");
}

#[test]
fn row_heights() {
    assert_eq!(RowHeight::Normal.height_pixels(), 24);
    assert!(!RowHeight::Normal.is_compact());
    assert!(RowHeight::Compact.is_compact());
    assert!(RowHeight::UltraCompact.height_pixels() < RowHeight::Compact.height_pixels());
}

#[test]
fn text_helpers_follow_std() {
    assert_eq!(trim("  a b \t\n"), "a b");
    assert_eq!(trim(" \u{3000}x\u{a0}"), "x");
    assert_eq!(trim("   "), "");
    let ls: Vec<String> = lines("a\r\nb\n\nc\r");
    assert_eq!(ls, "a\r\nb\n\nc\r".lines().map(|s| s.to_string()).collect::<Vec<_>>());
    assert_eq!(lines("x\n"), vec!["x".to_string()]);
    assert!(lines("").is_empty());
    assert_eq!(strip_prefix("track:/a.mp3", "track:"), Some("/a.mp3".to_string()));
    assert_eq!(strip_prefix("video:1", "track:"), None);
}

#[test]
fn integers_parse_as_std_parses_them() {
    for s in ["0", "-0", "+7", "42", "-2147483648", "2147483647", "2147483648", "-2147483649", "", "-", "+", "1a", " 1", "99999999999999"] {
        assert_eq!(parse_i32(s), s.parse::<i32>().ok(), "{s}");
    }
}
