//! What the terminal front end draws, apart from the drawing itself: the
//! texts of the now-playing line, the progress label, the track list's
//! title, the help bar, the widths of the track list's columns and where a
//! popup goes.
use vstd::prelude::*;
use crate::media::{item_album, item_artist, item_title, or_unknown, str_or_unknown_ref, MediaItem, Track, YouTubeVideo};
use crate::settings::RepeatMode;
use crate::text::{nat_decimal, push_char, push_nat_decimal, push_nat_padded, push_str, to_owned_string, zero_pad};

verus! {

/// The symbol of the playback state: a video plays or is paused, else the
/// local player plays, is paused, or is stopped.
pub open spec fn status_symbol_spec(youtube_playing: bool, youtube_paused: bool, audio_playing: bool, audio_paused: bool) -> Seq<char> {
    if youtube_playing {
        if youtube_paused {
            "⏸"@
        } else {
            "▶"@
        }
    } else if audio_playing {
        "▶"@
    } else if audio_paused {
        "⏸"@
    } else {
        "⏹"@
    }
}

/// The symbol of the playback state.
pub fn status_symbol(youtube_playing: bool, youtube_paused: bool, audio_playing: bool, audio_paused: bool) -> (r: &'static str)
    ensures
        r@ == status_symbol_spec(youtube_playing, youtube_paused, audio_playing, audio_paused),
{
    if youtube_playing {
        if youtube_paused {
            "⏸"
        } else {
            "▶"
        }
    } else if audio_playing {
        "▶"
    } else if audio_paused {
        "⏸"
    } else {
        "⏹"
    }
}

/// The title, artist and album the now-playing line shows: a video's title
/// by `YouTube`; a track's tags (`Unknown` where missing); or that nothing
/// plays.
pub open spec fn now_playing_fields(video: Option<YouTubeVideo>, track: Option<Track>) -> (Seq<char>, Seq<char>, Seq<char>) {
    match video {
        Some(v) => (v.title@, "YouTube"@, Seq::empty()),
        None => match track {
            Some(t) => (or_unknown(t.title), or_unknown(t.artist), or_unknown(t.album)),
            None => ("No track playing"@, Seq::empty(), Seq::empty()),
        },
    }
}

/// The marks of shuffle and repeat that follow the now-playing line.
pub open spec fn mode_marks(shuffle: bool, repeat: RepeatMode) -> Seq<char> {
    (if shuffle {
        " 🔀"@
    } else {
        Seq::empty()
    }) + match repeat {
        RepeatMode::Off => Seq::empty(),
        RepeatMode::All => " 🔁"@,
        RepeatMode::One => " 🔂"@,
    }
}

/// The now-playing line: the status symbol and the title, or, when there
/// is an artist, `status artist - album - title`; then the marks of
/// shuffle and repeat.
pub open spec fn now_playing_line(status: Seq<char>, fields: (Seq<char>, Seq<char>, Seq<char>), shuffle: bool, repeat: RepeatMode) -> Seq<char> {
    let (title, artist, album) = fields;
    if artist.len() == 0 {
        status + " "@ + title + mode_marks(shuffle, repeat)
    } else {
        status + " "@ + artist + " - "@ + album + " - "@ + title + mode_marks(shuffle, repeat)
    }
}

/// The now-playing line for a playing video or track (the video first).
pub fn now_playing_text(
    status: &str,
    video: Option<&YouTubeVideo>,
    track: Option<&Track>,
    shuffle: bool,
    repeat: RepeatMode,
) -> (r: String)
    ensures
        r@ == now_playing_line(
            status@,
            now_playing_fields(
                match video {
                    Some(v) => Some(*v),
                    None => None,
                },
                match track {
                    Some(t) => Some(*t),
                    None => None,
                },
            ),
            shuffle,
            repeat,
        ),
{
    let (title, artist, album): (&str, &str, &str) = match video {
        Some(v) => (v.title.as_str(), "YouTube", ""),
        None => match track {
            Some(t) => (str_or_unknown_ref(&t.title), str_or_unknown_ref(&t.artist), str_or_unknown_ref(&t.album)),
            None => ("No track playing", "", ""),
        },
    };
    proof {
        reveal_strlit("");
    }
    let mut s = to_owned_string(status);
    push_str(&mut s, " ");
    if artist.is_empty() {
        push_str(&mut s, title);
    } else {
        push_str(&mut s, artist);
        push_str(&mut s, " - ");
        push_str(&mut s, album);
        push_str(&mut s, " - ");
        push_str(&mut s, title);
    }
    if shuffle {
        push_str(&mut s, " 🔀");
    }
    match repeat {
        RepeatMode::Off => {},
        RepeatMode::All => push_str(&mut s, " 🔁"),
        RepeatMode::One => push_str(&mut s, " 🔂"),
    }
    proof {
        let f = now_playing_fields(
            match video {
                Some(v) => Some(*v),
                None => None,
            },
            match track {
                Some(t) => Some(*t),
                None => None,
            },
        );
        assert(f.0 == title@ && f.1 == artist@ && f.2 == album@);
    }
    assert(s@ =~= now_playing_line(
        status@,
        now_playing_fields(
            match video {
                Some(v) => Some(*v),
                None => None,
            },
            match track {
                Some(t) => Some(*t),
                None => None,
            },
        ),
        shuffle,
        repeat,
    ));
    s
}

/// A number of seconds as `m:ss`.
pub open spec fn clock_text(secs: nat) -> Seq<char> {
    nat_decimal(secs / 60) + seq![':'] + zero_pad(nat_decimal(secs % 60), 2)
}

/// Appends a number of seconds as `m:ss`.
fn push_clock(s: &mut String, secs: u64)
    ensures
        final(s)@ == old(s)@ + clock_text(secs as nat),
{
    push_nat_decimal(s, secs / 60);
    push_char(s, ':');
    push_nat_padded(s, secs % 60, 2);
    assert(final(s)@ =~= old(s)@ + clock_text(secs as nat));
}

/// The progress label while a video plays: elapsed time and duration (or
/// the elapsed time alone), `(YouTube)`, and `[Paused]` when paused.
pub open spec fn video_progress_label(elapsed: nat, duration_seconds: Option<i32>, paused: bool) -> Seq<char> {
    let tail = " (YouTube)"@ + if paused {
        " [Paused]"@
    } else {
        Seq::empty()
    };
    match duration_seconds {
        Some(d) => clock_text(elapsed) + " / "@ + clock_text((d as u64) as nat) + tail,
        None => clock_text(elapsed) + tail,
    }
}

/// The progress label while a video plays.
pub fn video_progress_text(elapsed: u64, duration_seconds: Option<i32>, paused: bool) -> (r: String)
    ensures
        r@ == video_progress_label(elapsed as nat, duration_seconds, paused),
{
    let mut s = String::new();
    push_clock(&mut s, elapsed);
    match duration_seconds {
        Some(d) => {
            push_str(&mut s, " / ");
            push_clock(&mut s, d as u64);
        },
        None => {},
    }
    push_str(&mut s, " (YouTube)");
    if paused {
        push_str(&mut s, " [Paused]");
    }
    assert(s@ =~= video_progress_label(elapsed as nat, duration_seconds, paused));
    s
}

/// The progress label of a local track: position and duration in whole
/// seconds, `0:00 / 0:00` when nothing plays.
pub open spec fn track_progress_label(position: Option<(u64, u64)>) -> Seq<char> {
    match position {
        Some((pos, dur)) => clock_text(pos as nat) + " / "@ + clock_text(dur as nat),
        None => "0:00 / 0:00"@,
    }
}

/// The progress label of a local track.
pub fn track_progress_text(position: Option<(u64, u64)>) -> (r: String)
    ensures
        r@ == track_progress_label(position),
{
    match position {
        Some((pos, dur)) => {
            let mut s = String::new();
            push_clock(&mut s, pos);
            push_str(&mut s, " / ");
            push_clock(&mut s, dur);
            assert(s@ =~= track_progress_label(position));
            s
        },
        None => to_owned_string("0:00 / 0:00"),
    }
}

/// The title of the track list: the query and the number of matches while
/// searching, else the number of entries.
pub open spec fn track_list_title_text(is_searching: bool, query: Seq<char>, total: nat) -> Seq<char> {
    if is_searching {
        " Tracks [/"@ + query + "] ("@ + nat_decimal(total) + " matches) "@
    } else {
        " Tracks ("@ + nat_decimal(total) + ") "@
    }
}

/// The title of the track list.
pub fn track_list_title(is_searching: bool, query: &str, total: usize) -> (r: String)
    ensures
        r@ == track_list_title_text(is_searching, query@, total as nat),
{
    let mut s = String::new();
    if is_searching {
        push_str(&mut s, " Tracks [/");
        push_str(&mut s, query);
        push_str(&mut s, "] (");
        push_nat_decimal(&mut s, total as u64);
        push_str(&mut s, " matches) ");
    } else {
        push_str(&mut s, " Tracks (");
        push_nat_decimal(&mut s, total as u64);
        push_str(&mut s, ") ");
    }
    assert(s@ =~= track_list_title_text(is_searching, query@, total as nat));
    s
}

/// The keys the help bar lists, during a search or not.
pub open spec fn help_keys(is_searching: bool) -> Seq<char> {
    if is_searching {
        "[Enter] Play  [Esc] Cancel search  [Backspace] Delete char"@
    } else {
        "[?] Help  [/] Search  [Space] Play/Pause  [n/p] Next/Prev  [a] Queue  [y] Add YT  [s] Shuffle  [r] Repeat  [q] Quit"@
    }
}

/// The help bar: the status message, if any, then the keys.
pub open spec fn help_bar_text(is_searching: bool, status: Option<Seq<char>>) -> Seq<char> {
    match status {
        Some(m) => " "@ + m + " | "@ + help_keys(is_searching),
        None => " "@ + help_keys(is_searching),
    }
}

/// The help bar.
pub fn help_bar(is_searching: bool, status: Option<&str>) -> (r: String)
    ensures
        r@ == help_bar_text(
            is_searching,
            match status {
                Some(m) => Some(m@),
                None => None,
            },
        ),
{
    let keys = if is_searching {
        "[Enter] Play  [Esc] Cancel search  [Backspace] Delete char"
    } else {
        "[?] Help  [/] Search  [Space] Play/Pause  [n/p] Next/Prev  [a] Queue  [y] Add YT  [s] Shuffle  [r] Repeat  [q] Quit"
    };
    let mut s = to_owned_string(" ");
    match status {
        Some(m) => {
            push_str(&mut s, m);
            push_str(&mut s, " | ");
        },
        None => {},
    }
    push_str(&mut s, keys);
    assert(s@ =~= help_bar_text(
        is_searching,
        match status {
            Some(m) => Some(m@),
            None => None,
        },
    ));
    s
}

/// The widths of the track list's columns, and which date columns it
/// shows.
#[derive(Clone, Copy, Debug, PartialEq, Eq, Structural)]
pub struct ColumnLayout {
    pub show_both_dates: bool,
    pub show_last_played: bool,
    pub artist_width: u16,
    pub album_width: u16,
    pub title_width: u16,
}

/// `a - b`, or 0 when `b` is larger.
pub open spec fn sat_sub(a: int, b: int) -> int {
    if a >= b {
        a - b
    } else {
        0
    }
}

/// The larger of two numbers.
pub open spec fn max_of(a: int, b: int) -> int {
    if a >= b {
        a
    } else {
        b
    }
}

/// The smaller of two numbers.
pub open spec fn min_of(a: int, b: int) -> int {
    if a <= b {
        a
    } else {
        b
    }
}

/// The width left for artist, album and title in a list `width` columns
/// wide: the indicator (2), the duration (6), borders and spacing (4) and
/// the date columns shown (12 each: both from 140 columns, the last-played
/// one from 120) are taken first.
pub open spec fn available_width(width: int) -> int {
    let dates: int = if width >= 140 {
        24
    } else if width >= 120 {
        12
    } else {
        0
    };
    sat_sub(width, 2 + 6 + 4 + dates)
}

/// The layout of the track list's columns, given the widest artist, album
/// and title shown (artist and album already capped at 30): with no album
/// text, the artist gets at most a third and the title the rest but 2;
/// when everything fits, each its width and the title the rest; otherwise
/// each a share in proportion, the artist at least 6, the album at least
/// 1 and the title at least 10.
pub open spec fn column_layout_spec(max_artist: u16, max_album: u16, max_title: u16, width: u16) -> ColumnLayout {
    let available = available_width(width as int);
    let (a, b, c) = if max_album <= 1 {
        let aw = min_of(max_artist as int, available / 3);
        (aw, 1int, sat_sub(sat_sub(available, aw), 2))
    } else {
        let total = max_artist + max_album + max_title;
        if total <= available {
            (max_artist as int, max_album as int, max_title + sat_sub(available, total))
        } else {
            let aw = max_artist * available / total;
            let bw = max_album * available / total;
            let tw = sat_sub(sat_sub(available, aw), bw);
            (max_of(aw, 6), max_of(bw, 1), max_of(tw, 10))
        }
    };
    ColumnLayout {
        show_both_dates: width >= 140,
        show_last_played: width >= 120,
        artist_width: a as u16,
        album_width: b as u16,
        title_width: c as u16,
    }
}

/// The layout of the track list's columns.
pub fn column_layout(max_artist: u16, max_album: u16, max_title: u16, width: u16) -> (r: ColumnLayout)
    requires
        max_artist <= 30,
        max_album <= 30,
        max_title + 60 <= u16::MAX,
    ensures
        r == column_layout_spec(max_artist, max_album, max_title, width),
{
    let show_both_dates = width >= 140;
    let show_last_played = width >= 120;
    let dates: u16 = if show_both_dates {
        24
    } else if show_last_played {
        12
    } else {
        0
    };
    let fixed: u16 = 2 + 6 + 4 + dates;
    let available: u16 = if width >= fixed {
        width - fixed
    } else {
        0
    };
    let (a, b, c): (u16, u16, u16) = if max_album <= 1 {
        let third = available / 3;
        let aw = if max_artist <= third {
            max_artist
        } else {
            third
        };
        let rest = available - aw;
        let tw = if rest >= 2 {
            rest - 2
        } else {
            0
        };
        (aw, 1, tw)
    } else {
        let total: u16 = max_artist + max_album + max_title;
        if total <= available {
            (max_artist, max_album, max_title + (available - total))
        } else {
            proof {
                assert((max_artist as int) * (available as int) <= 30 * 65535) by (nonlinear_arith)
                    requires
                        max_artist <= 30,
                        available <= 65535,
                        available >= 0,
                ;
                assert((max_album as int) * (available as int) <= 30 * 65535) by (nonlinear_arith)
                    requires
                        max_album <= 30,
                        available <= 65535,
                        available >= 0,
                ;
                assert((max_artist as int) * (available as int) / (total as int) <= available as int) by (nonlinear_arith)
                    requires
                        max_artist <= total,
                        total > 0,
                        available >= 0,
                ;
                assert((max_album as int) * (available as int) / (total as int) <= available as int) by (nonlinear_arith)
                    requires
                        max_album <= total,
                        total > 0,
                        available >= 0,
                ;
            }
            let aw: u16 = ((max_artist as u32) * (available as u32) / (total as u32)) as u16;
            let bw: u16 = ((max_album as u32) * (available as u32) / (total as u32)) as u16;
            let r1 = if available >= aw {
                available - aw
            } else {
                0
            };
            let tw = if r1 >= bw {
                r1 - bw
            } else {
                0
            };
            (
                if aw >= 6 {
                    aw
                } else {
                    6
                },
                if bw >= 1 {
                    bw
                } else {
                    1
                },
                if tw >= 10 {
                    tw
                } else {
                    10
                },
            )
        }
    };
    ColumnLayout {
        show_both_dates,
        show_last_played,
        artist_width: a,
        album_width: b,
        title_width: c,
    }
}

/// The widest text of the items, starting from `init` and capped at `cap`
/// (0: artist, 1: album, 2: title), each text's length in characters read
/// as a `u16`.
pub open spec fn widest(items: Seq<MediaItem>, which: int, init: u16) -> u16
    decreases items.len(),
{
    if items.len() == 0 {
        init
    } else {
        let rest = widest(items.drop_last(), which, init);
        let item = items.last();
        let text = if which == 0 {
            item_artist(item)
        } else if which == 1 {
            item_album(item)
        } else {
            item_title(item)
        };
        let n = (text.len() as usize) as u16;
        if n > rest {
            n
        } else {
            rest
        }
    }
}

/// The widest artist, album and title of the items shown, at least as
/// wide as their headers (6, 5, 5), artist and album capped at 30.
pub fn content_widths(items: &Vec<&MediaItem>) -> (r: (u16, u16, u16))
    ensures
        ({
            let s = items@.map_values(|x: &MediaItem| *x);
            &&& r.0 == min_of(widest(s, 0, 6) as int, 30)
            &&& r.1 == min_of(widest(s, 1, 5) as int, 30)
            &&& r.2 == widest(s, 2, 5)
        }),
{
    let ghost s = items@.map_values(|x: &MediaItem| *x);
    let mut a: u16 = 6;
    let mut b: u16 = 5;
    let mut c: u16 = 5;
    let mut i: usize = 0;
    while i < items.len()
        invariant
            i <= items@.len(),
            s == items@.map_values(|x: &MediaItem| *x),
            a == widest(s.take(i as int), 0, 6),
            b == widest(s.take(i as int), 1, 5),
            c == widest(s.take(i as int), 2, 5),
        decreases items@.len() - i,
    {
        let item = items[i];
        proof {
            assert(s.take(i + 1).drop_last() =~= s.take(i as int));
            assert(s.take(i + 1).last() == *item);
        }
        let na = item.artist().unicode_len() as u16;
        let nb = item.album().unicode_len() as u16;
        let nc = item.title().unicode_len() as u16;
        if na > a {
            a = na;
        }
        if nb > b {
            b = nb;
        }
        if nc > c {
            c = nc;
        }
        i = i + 1;
    }
    assert(s.take(items@.len() as int) =~= s);
    let a2 = if a <= 30 {
        a
    } else {
        30
    };
    let b2 = if b <= 30 {
        b
    } else {
        30
    };
    (a2, b2, c)
}

/// Where a popup of the given size goes in an area: centred, and no larger
/// than the area.
pub open spec fn centered_spec(width: u16, height: u16, ax: u16, ay: u16, aw: u16, ah: u16) -> (u16, u16, u16, u16) {
    (
        (ax + sat_sub(aw as int, width as int) / 2) as u16,
        (ay + sat_sub(ah as int, height as int) / 2) as u16,
        min_of(width as int, aw as int) as u16,
        min_of(height as int, ah as int) as u16,
    )
}

/// Where a popup of the given size goes in the area at (`ax`, `ay`) of
/// `aw` by `ah` cells, as (x, y, width, height).
pub fn centered_rect(width: u16, height: u16, ax: u16, ay: u16, aw: u16, ah: u16) -> (r: (u16, u16, u16, u16))
    requires
        ax + aw <= u16::MAX,
        ay + ah <= u16::MAX,
    ensures
        r == centered_spec(width, height, ax, ay, aw, ah),
{
    let dx: u16 = if aw >= width {
        aw - width
    } else {
        0
    };
    let dy: u16 = if ah >= height {
        ah - height
    } else {
        0
    };
    (
        ax + dx / 2,
        ay + dy / 2,
        if width <= aw {
            width
        } else {
            aw
        },
        if height <= ah {
            height
        } else {
            ah
        },
    )
}

} // verus!
