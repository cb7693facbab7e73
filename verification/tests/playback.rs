use fml9000::playback::{compute_next_index, compute_prev_index, next_index_with_draw, NextTrackResult};
use fml9000::settings::RepeatMode;

fn show(r: NextTrackResult) -> String {
    match r {
        NextTrackResult::PlayIndex(i) => format!("PlayIndex({i})"),
        NextTrackResult::Stop => "Stop".to_string(),
    }
}

#[test]
fn next_empty_playlist_stops() {
    match compute_next_index(None, 0, false, RepeatMode::Off) {
        NextTrackResult::Stop => {}
        NextTrackResult::PlayIndex(_) => panic!("expected Stop"),
    }
}

#[test]
fn next_sequential_advances() {
    match compute_next_index(Some(2), 10, false, RepeatMode::Off) {
        NextTrackResult::PlayIndex(3) => {}
        other => panic!("expected PlayIndex(3), got {:?}", show(other)),
    }
}

#[test]
fn next_at_end_stops_when_repeat_off() {
    match compute_next_index(Some(9), 10, false, RepeatMode::Off) {
        NextTrackResult::Stop => {}
        NextTrackResult::PlayIndex(i) => panic!("expected Stop, got PlayIndex({i})"),
    }
}

#[test]
fn next_at_end_wraps_when_repeat_all() {
    match compute_next_index(Some(9), 10, false, RepeatMode::All) {
        NextTrackResult::PlayIndex(0) => {}
        other => panic!("expected PlayIndex(0), got {:?}", show(other)),
    }
}

#[test]
fn next_repeat_one_replays() {
    match compute_next_index(Some(5), 10, false, RepeatMode::One) {
        NextTrackResult::PlayIndex(5) => {}
        other => panic!("expected PlayIndex(5), got {:?}", show(other)),
    }
}

#[test]
fn next_shuffle_picks_different_index() {
    for _ in 0..20 {
        match compute_next_index(Some(3), 10, true, RepeatMode::Off) {
            NextTrackResult::PlayIndex(idx) => assert_ne!(idx, 3),
            NextTrackResult::Stop => panic!("expected PlayIndex"),
        }
    }
}

#[test]
fn next_shuffle_single_item() {
    match compute_next_index(Some(0), 1, true, RepeatMode::Off) {
        NextTrackResult::PlayIndex(0) => {}
        other => panic!("expected PlayIndex(0), got {:?}", show(other)),
    }
}

#[test]
fn prev_wraps_at_start() {
    match compute_prev_index(Some(0), 10) {
        NextTrackResult::PlayIndex(9) => {}
        other => panic!("expected PlayIndex(9), got {:?}", show(other)),
    }
}

#[test]
fn prev_goes_back() {
    match compute_prev_index(Some(5), 10) {
        NextTrackResult::PlayIndex(4) => {}
        other => panic!("expected PlayIndex(4), got {:?}", show(other)),
    }
}

#[test]
fn prev_empty_playlist_stops() {
    match compute_prev_index(None, 0) {
        NextTrackResult::Stop => {}
        NextTrackResult::PlayIndex(_) => panic!("expected Stop"),
    }
}

#[test]
fn shuffle_draw_skips_the_current_index() {
    assert_eq!(next_index_with_draw(Some(3), 10, true, RepeatMode::Off, 2), NextTrackResult::PlayIndex(2));
    assert_eq!(next_index_with_draw(Some(3), 10, true, RepeatMode::Off, 3), NextTrackResult::PlayIndex(4));
    assert_eq!(next_index_with_draw(Some(3), 10, true, RepeatMode::Off, 8), NextTrackResult::PlayIndex(9));
}

#[test]
fn shuffle_reaches_every_other_index() {
    let mut seen = [false; 10];
    for _ in 0..2000 {
        if let NextTrackResult::PlayIndex(i) = compute_next_index(Some(3), 10, true, RepeatMode::All) {
            seen[i] = true;
        }
    }
    for (i, s) in seen.iter().enumerate() {
        assert_eq!(*s, i != 3);
    }
}

#[test]
fn prev_then_next_comes_back() {
    if let NextTrackResult::PlayIndex(p) = compute_prev_index(Some(0), 4) {
        assert_eq!(compute_next_index(Some(p), 4, false, RepeatMode::All), NextTrackResult::PlayIndex(0));
    } else {
        panic!("expected PlayIndex");
    }
}

#[test]
fn nothing_current_plays_the_first() {
    assert_eq!(compute_prev_index(None, 3), NextTrackResult::PlayIndex(0));
    assert_eq!(compute_next_index(None, 3, false, RepeatMode::Off), NextTrackResult::PlayIndex(0));
}
