//! The web front end's data: what the JSON API answers (tracks, items,
//! albums, playlists, channels, the sidebar), what its requests carry, and
//! the decisions its handlers make.
use vstd::prelude::*;
use crate::library::album_artist_text;
use crate::media::{
    clone_opt_string, date_text, format_date, item_added, item_album, item_artist,
    item_duration, item_duration_text, item_last_played, item_title, item_track_filename,
    item_youtube_id, opt_str_to_string, or_unknown, str_or_unknown_ref, MediaItem, Playlist,
    Timestamp, Track, YouTubeChannel,
};
use crate::library::PlaylistItemIdentifier;
use crate::order::opt_string_view;
use crate::paths::extension_of;
use crate::text::{
    all_ascii, ascii_lower,
    chars_eq, chars_of, is_alphanumeric, push_char, push_str, str_eq, to_lowercase,
    to_owned_string, unicode_alphanumeric, unicode_lowercase,
};

verus! {

/// A track as the API lists it.
pub struct TrackJson {
    pub f: String,
    pub t: Option<String>,
    pub ar: Option<String>,
    pub al: Option<String>,
    pub aa: Option<String>,
    pub tr: Option<String>,
    pub g: Option<String>,
    pub d: Option<i32>,
    pub pc: i32,
    pub lp: Option<String>,
    pub ad: Option<String>,
}

/// A track or video as the API lists it.
pub struct MediaItemJson {
    pub kind: String,
    pub f: Option<String>,
    pub video_id: Option<String>,
    pub video_db_id: Option<i32>,
    pub t: Option<String>,
    pub ar: Option<String>,
    pub al: Option<String>,
    pub d: Option<i32>,
    pub pc: i32,
    pub lp: Option<String>,
    pub ad: Option<String>,
}

/// An album as the API lists it.
pub struct AlbumJson {
    pub artist: String,
    pub album: String,
    pub representative_filename: String,
}

/// A user playlist as the API lists it.
pub struct PlaylistJson {
    pub id: i32,
    pub name: String,
    pub created_at: String,
}

/// A followed channel as the API lists it.
pub struct ChannelJson {
    pub id: i32,
    pub channel_id: String,
    pub name: String,
    pub handle: Option<String>,
    pub url: String,
    pub thumbnail_url: Option<String>,
}

/// An entry of the sidebar.
pub struct NavItem {
    pub id: String,
    pub db_id: Option<i32>,
    pub label: String,
    pub kind: String,
    pub new_count: Option<usize>,
}

/// The sidebar: the automatic playlists, the user's playlists and the
/// followed channels.
pub struct SidebarData {
    pub auto_playlists: Vec<NavItem>,
    pub user_playlists: Vec<NavItem>,
    pub youtube_channels: Vec<NavItem>,
}

/// What the player shows of the current item.
pub struct TrackInfo {
    pub title: String,
    pub artist: String,
    pub album: String,
    pub duration_str: String,
}

/// A request to play the item at an index of the current list.
pub struct PlayRequest {
    pub index: usize,
}

/// A request to switch shuffle on or off.
pub struct ShuffleRequest {
    pub enabled: bool,
}

/// A request to set the repeat mode by name.
pub struct RepeatRequest {
    pub mode: String,
}

/// A request to create a playlist.
pub struct CreateRequest {
    pub name: String,
}

/// A request to rename a playlist.
pub struct RenameRequest {
    pub name: String,
}

/// A request naming a track or a video to add to, or remove from, a
/// playlist.
pub struct AddItemRequest {
    pub track_filename: Option<String>,
    pub youtube_video_id: Option<i32>,
}

/// A request naming a track or a video to add to the queue.
pub struct AddToQueueRequest {
    pub track_filename: Option<String>,
    pub youtube_video_id: Option<i32>,
}

/// A request naming a track or a video to remove from the queue.
pub struct RemoveFromQueueRequest {
    pub track_filename: Option<String>,
    pub youtube_video_id: Option<i32>,
}

/// An optional date as `YYYY-MM-DD`.
pub open spec fn opt_date_view(d: Option<Timestamp>) -> Option<Seq<char>> {
    match d {
        Some(t) => Some(date_text(t)),
        None => None,
    }
}

/// Formats an optional date as `YYYY-MM-DD`.
pub fn opt_date(d: Option<Timestamp>) -> (r: Option<String>)
    ensures
        opt_string_view(r) == opt_date_view(d),
{
    match d {
        Some(t) => Some(format_date(&t)),
        None => None,
    }
}

/// A track as the API lists it: its tags as they are, its dates as
/// `YYYY-MM-DD`.
pub fn track_to_json(t: &Track) -> (r: TrackJson)
    ensures
        r.f@ == t.filename@,
        r.t == t.title,
        r.ar == t.artist,
        r.al == t.album,
        r.aa == t.album_artist,
        r.tr == t.track,
        r.g == t.genre,
        r.d == t.duration_seconds,
        r.pc == t.play_count,
        opt_string_view(r.lp) == opt_date_view(t.last_played),
        opt_string_view(r.ad) == opt_date_view(t.added),
{
    TrackJson {
        f: t.filename.clone(),
        t: clone_opt_string(&t.title),
        ar: clone_opt_string(&t.artist),
        al: clone_opt_string(&t.album),
        aa: clone_opt_string(&t.album_artist),
        tr: clone_opt_string(&t.track),
        g: clone_opt_string(&t.genre),
        d: t.duration_seconds,
        pc: t.play_count,
        lp: opt_date(t.last_played),
        ad: opt_date(t.added),
    }
}

/// The kind of an item as the API names it.
pub open spec fn item_kind(item: MediaItem) -> Seq<char> {
    match item {
        MediaItem::Track(_) => "track"@,
        MediaItem::Video(_) => "video"@,
    }
}

/// A track or video as the API lists it: its kind, its file or video ids,
/// the title, artist and album the player shows, its duration, play count
/// and dates.
pub fn media_item_to_json(item: &MediaItem) -> (r: MediaItemJson)
    ensures
        r.kind@ == item_kind(*item),
        opt_string_view(r.f) == item_track_filename(*item),
        opt_string_view(r.video_id) == item_youtube_id(*item),
        r.video_db_id == match *item {
            MediaItem::Track(_) => None,
            MediaItem::Video(v) => Some(v.id),
        },
        opt_string_view(r.t) == Some(item_title(*item)),
        opt_string_view(r.ar) == Some(item_artist(*item)),
        opt_string_view(r.al) == Some(item_album(*item)),
        r.d == item_duration(*item),
        r.pc == match *item {
            MediaItem::Track(t) => t.play_count,
            MediaItem::Video(v) => v.play_count,
        },
        opt_string_view(r.lp) == opt_date_view(item_last_played(*item)),
        opt_string_view(r.ad) == opt_date_view(item_added(*item)),
{
    let kind = match item {
        MediaItem::Track(_) => {
            proof {
                reveal_strlit("track");
            }
            to_owned_string("track")
        },
        MediaItem::Video(_) => {
            proof {
                reveal_strlit("video");
            }
            to_owned_string("video")
        },
    };
    let f = opt_str_to_string(item.track_filename());
    let video_id = opt_str_to_string(item.youtube_video_id());
    MediaItemJson {
        kind,
        f,
        video_id,
        video_db_id: item.video_db_id(),
        t: Some(to_owned_string(item.title())),
        ar: Some(to_owned_string(item.artist())),
        al: Some(to_owned_string(item.album())),
        d: item.duration_seconds(),
        pc: item.play_count(),
        lp: opt_date(item.last_played()),
        ad: opt_date(item.added()),
    }
}

/// An album as the API lists it, from a track of it: the album artist,
/// else the artist, else `Unknown`; the album, else `Unknown`.
pub fn album_to_json(t: &Track) -> (r: AlbumJson)
    ensures
        r.artist@ == album_artist_text(*t),
        r.album@ == or_unknown(t.album),
        r.representative_filename@ == t.filename@,
{
    AlbumJson {
        artist: crate::library::album_artist_name(t),
        album: to_owned_string(str_or_unknown_ref(&t.album)),
        representative_filename: t.filename.clone(),
    }
}

/// A playlist as the API lists it, its creation date as `YYYY-MM-DD`.
pub fn playlist_to_json(p: &Playlist) -> (r: PlaylistJson)
    ensures
        r.id == p.id,
        r.name@ == p.name@,
        r.created_at@ == date_text(p.created_at),
{
    PlaylistJson { id: p.id, name: p.name.clone(), created_at: format_date(&p.created_at) }
}

/// A channel as the API lists it.
pub fn channel_to_json(c: &YouTubeChannel) -> (r: ChannelJson)
    ensures
        r.id == c.id,
        r.channel_id@ == c.channel_id@,
        r.name@ == c.name@,
        r.handle == c.handle,
        r.url@ == c.url@,
        r.thumbnail_url == c.thumbnail_url,
{
    ChannelJson {
        id: c.id,
        channel_id: c.channel_id.clone(),
        name: c.name.clone(),
        handle: clone_opt_string(&c.handle),
        url: c.url.clone(),
        thumbnail_url: clone_opt_string(&c.thumbnail_url),
    }
}

/// The characters of a name once lowercased, each character that is not
/// alphanumeric replaced by `-`.
pub open spec fn slug_chars(s: Seq<char>) -> Seq<char> {
    unicode_lowercase(s).map_values(|c: char| if unicode_alphanumeric(c) { c } else { '-' })
}

/// The non-empty runs between the `-` of `m`, joined by single `-`: what
/// the text so far gives, and whether a `-` is due before the next run.
pub open spec fn join_runs(m: Seq<char>) -> (Seq<char>, bool)
    decreases m.len(),
{
    if m.len() == 0 {
        (Seq::empty(), false)
    } else {
        let (out, due) = join_runs(m.drop_last());
        let c = m.last();
        if c == '-' {
            (out, out.len() > 0)
        } else if due {
            (out.push('-').push(c), false)
        } else {
            (out.push(c), false)
        }
    }
}

/// The slug of a name: lowercased, each character that is not
/// alphanumeric a `-`, the parts between `-` that are not empty joined by
/// single `-`.
pub open spec fn slug(s: Seq<char>) -> Seq<char> {
    join_runs(slug_chars(s)).0
}

/// The slug of a name, as sidebar ids use it.
pub fn slugify(s: &str) -> (r: String)
    ensures
        r@ == slug(s@),
{
    let lower = to_lowercase(s);
    let cs = chars_of(lower.as_str());
    let ghost m = slug_chars(s@);
    let mut out = String::new();
    let mut due = false;
    let mut i: usize = 0;
    while i < cs.len()
        invariant
            i <= cs@.len(),
            cs@ == unicode_lowercase(s@),
            m == slug_chars(s@),
            m.len() == cs@.len(),
            (out@, due) == join_runs(m.take(i as int)),
        decreases cs@.len() - i,
    {
        let c0 = cs[i];
        let c = if is_alphanumeric(c0) {
            c0
        } else {
            '-'
        };
        proof {
            assert(m.take(i + 1).drop_last() =~= m.take(i as int));
            assert(m.take(i + 1).last() == c);
        }
        if c == '-' {
            due = !out.as_str().is_empty();
        } else if due {
            push_char(&mut out, '-');
            push_char(&mut out, c);
            due = false;
        } else {
            push_char(&mut out, c);
        }
        i = i + 1;
    }
    assert(m.take(cs@.len() as int) =~= m);
    out
}

/// A character of the slug of an ASCII name: a lowercase ASCII letter, a
/// digit, or `-`.
pub open spec fn slug_char(c: char) -> bool {
    ||| 48 <= (c as u32) <= 57
    ||| 97 <= (c as u32) <= 122
    ||| c == '-'
}

/// Made of slug characters, with no `-` at either end and no two `-` in a
/// row.
pub open spec fn clean_slug(r: Seq<char>) -> bool {
    &&& forall|i: int| 0 <= i < r.len() ==> slug_char(#[trigger] r[i])
    &&& forall|i: int| 0 <= i < r.len() && #[trigger] r[i] == '-' ==> 0 < i < r.len() - 1 && r[i - 1] != '-'
}

/// No `-` first and no two `-` in a row (a `-` may end it).
spec fn dash_separated(m: Seq<char>) -> bool {
    forall|i: int| 0 <= i < m.len() && #[trigger] m[i] == '-' ==> 0 < i && m[i - 1] != '-'
}

proof fn lemma_join_runs_clean(m: Seq<char>)
    requires
        forall|i: int| 0 <= i < m.len() ==> slug_char(#[trigger] m[i]),
    ensures
        clean_slug(join_runs(m).0),
        join_runs(m).1 ==> join_runs(m).0.len() > 0,
    decreases m.len(),
{
    if m.len() > 0 {
        let p = m.drop_last();
        assert forall|i: int| 0 <= i < p.len() implies slug_char(#[trigger] p[i]) by {
            assert(p[i] == m[i]);
        }
        lemma_join_runs_clean(p);
        let (out, due) = join_runs(p);
        let c = m.last();
        assert(slug_char(c));
        if out.len() > 0 {
            assert(out[out.len() - 1] != '-');
        }
        if c == '-' {
        } else if due {
            let o = out.push('-').push(c);
            assert forall|i: int| 0 <= i < o.len() implies slug_char(#[trigger] o[i]) by {
                if i < out.len() {
                    assert(o[i] == out[i]);
                }
            }
            assert forall|i: int| 0 <= i < o.len() && #[trigger] o[i] == '-' implies 0 < i < o.len() - 1 && o[i
                - 1] != '-' by {
                if i < out.len() {
                    assert(o[i] == out[i]);
                    if i > 0 {
                        assert(o[i - 1] == out[i - 1]);
                    }
                } else if i == out.len() {
                    assert(o[i - 1] == out[out.len() - 1]);
                }
            }
        } else {
            let o = out.push(c);
            assert forall|i: int| 0 <= i < o.len() implies slug_char(#[trigger] o[i]) by {
                if i < out.len() {
                    assert(o[i] == out[i]);
                }
            }
            assert forall|i: int| 0 <= i < o.len() && #[trigger] o[i] == '-' implies 0 < i < o.len() - 1 && o[i
                - 1] != '-' by {
                assert(o[i] == out[i]);
                if i > 0 {
                    assert(o[i - 1] == out[i - 1]);
                }
            }
        }
    }
}

proof fn lemma_join_runs_keeps(m: Seq<char>)
    requires
        dash_separated(m),
    ensures
        join_runs(m) == (if m.len() > 0 && m.last() == '-' {
            (m.drop_last(), true)
        } else {
            (m, false)
        }),
    decreases m.len(),
{
    if m.len() > 0 {
        let p = m.drop_last();
        assert forall|i: int| 0 <= i < p.len() && #[trigger] p[i] == '-' implies 0 < i && p[i - 1] != '-' by {
            assert(p[i] == m[i]);
            assert(p[i - 1] == m[i - 1]);
        }
        lemma_join_runs_keeps(p);
        let c = m.last();
        if c == '-' {
            assert(m[m.len() - 1] == '-');
            assert(p.len() > 0 && p.last() == m[m.len() - 2]);
        } else if p.len() > 0 && p.last() == '-' {
            assert(p.drop_last().push('-').push(c) =~= m);
        } else {
            assert(p.push(c) =~= m);
        }
    }
}

proof fn lemma_slug_chars_ascii(s: Seq<char>)
    requires
        all_ascii(s),
    ensures
        forall|i: int| 0 <= i < slug_chars(s).len() ==> slug_char(#[trigger] slug_chars(s)[i]),
{
    assert forall|i: int| 0 <= i < slug_chars(s).len() implies slug_char(#[trigger] slug_chars(s)[i]) by {
        let c = s[i];
        assert((c as u32) < 128);
        let x = ascii_lower(c);
        assert(unicode_lowercase(s)[i] == x);
        if 'A' <= c <= 'Z' {
            assert(x as u32 == (c as u32) + 32);
        } else {
            assert(x == c);
        }
    }
}

proof fn lemma_slug_chars_of_clean(r: Seq<char>)
    requires
        clean_slug(r),
    ensures
        slug_chars(r) == r,
{
    assert forall|i: int| 0 <= i < r.len() implies (#[trigger] r[i] as u32) < 128 by {
        assert(slug_char(r[i]));
    }
    assert forall|i: int| 0 <= i < r.len() implies slug_chars(r)[i] == #[trigger] r[i] by {
        assert(slug_char(r[i]));
        assert(unicode_lowercase(r)[i] == ascii_lower(r[i]));
    }
    assert(slug_chars(r) =~= r);
}

/// The slug of an ASCII name is made of lowercase letters, digits and
/// `-`, with no `-` at either end and no two `-` in a row, and it is its
/// own slug.
pub proof fn law_slug_of_ascii(s: Seq<char>)
    requires
        all_ascii(s),
    ensures
        clean_slug(slug(s)),
        slug(slug(s)) == slug(s),
{
    lemma_slug_chars_ascii(s);
    lemma_join_runs_clean(slug_chars(s));
    let r = slug(s);
    lemma_slug_chars_of_clean(r);
    assert forall|i: int| 0 <= i < r.len() && #[trigger] r[i] == '-' implies 0 < i && r[i - 1] != '-' by {}
    assert(dash_separated(r));
    lemma_join_runs_keeps(r);
    if r.len() > 0 {
        assert(r[r.len() - 1] != '-');
    }
}

/// A sidebar entry as plain values: id, database id, label, kind and the
/// count of new videos.
pub open spec fn nav_view(n: NavItem) -> (Seq<char>, Option<i32>, Seq<char>, Seq<char>, Option<usize>) {
    (n.id@, n.db_id, n.label@, n.kind@, n.new_count)
}

/// The automatic playlists of the sidebar, in order, as (id, label).
pub open spec fn auto_playlist_entries() -> Seq<(Seq<char>, Seq<char>)> {
    seq![
        ("all-media"@, "All Media"@),
        ("all-tracks"@, "All Tracks"@),
        ("all-videos"@, "All Videos"@),
        ("recently-added"@, "Recently Added"@),
        ("recently-played"@, "Recently Played"@),
        ("queue"@, "Playback Queue"@),
    ]
}

/// The sidebar entry of an automatic playlist.
fn auto_nav(id: &str, label: &str) -> (r: NavItem)
    ensures
        nav_view(r) == (id@, None::<i32>, label@, "auto"@, None::<usize>),
{
    NavItem {
        id: to_owned_string(id),
        db_id: None,
        label: to_owned_string(label),
        kind: to_owned_string("auto"),
        new_count: None,
    }
}

/// The sidebar entries of the automatic playlists.
pub fn auto_playlists() -> (r: Vec<NavItem>)
    ensures
        r@.len() == auto_playlist_entries().len(),
        forall|i: int|
            0 <= i < r@.len() ==> nav_view(#[trigger] r@[i]) == (
                auto_playlist_entries()[i].0,
                None::<i32>,
                auto_playlist_entries()[i].1,
                "auto"@,
                None::<usize>,
            ),
{
    let mut r: Vec<NavItem> = Vec::new();
    r.push(auto_nav("all-media", "All Media"));
    r.push(auto_nav("all-tracks", "All Tracks"));
    r.push(auto_nav("all-videos", "All Videos"));
    r.push(auto_nav("recently-added", "Recently Added"));
    r.push(auto_nav("recently-played", "Recently Played"));
    r.push(auto_nav("queue", "Playback Queue"));
    r
}

/// `prefix` followed by the slug of `name`.
fn prefixed_slug(prefix: &str, name: &str) -> (r: String)
    ensures
        r@ == prefix@ + slug(name@),
{
    let mut r = to_owned_string(prefix);
    let s = slugify(name);
    push_str(&mut r, s.as_str());
    r
}

/// The count of new videos listed for a channel id, when one is listed.
pub open spec fn listed_count(counts: Seq<(i32, usize)>, id: i32) -> Option<usize> {
    if exists|i: int| 0 <= i < counts.len() && counts[i].0 == id {
        Some(counts[choose|i: int| 0 <= i < counts.len() && counts[i].0 == id].1)
    } else {
        None
    }
}

/// The count of new videos a channel's entry shows: the listed count, when
/// there is one and it is not zero.
pub open spec fn shown_count(counts: Seq<(i32, usize)>, id: i32) -> Option<usize> {
    match listed_count(counts, id) {
        Some(n) => if n > 0 {
            Some(n)
        } else {
            None
        },
        None => None,
    }
}

/// Looks up the count of new videos of a channel, and keeps it when it is
/// not zero.
fn new_count_for(counts: &Vec<(i32, usize)>, id: i32) -> (r: Option<usize>)
    requires
        forall|i: int, j: int| 0 <= i < j < counts@.len() ==> counts@[i].0 != counts@[j].0,
    ensures
        r == shown_count(counts@, id),
{
    let mut i: usize = 0;
    while i < counts.len()
        invariant
            i <= counts.len(),
            forall|j: int| 0 <= j < i ==> counts@[j].0 != id,
            forall|a: int, b: int| 0 <= a < b < counts@.len() ==> counts@[a].0 != counts@[b].0,
        decreases counts.len() - i,
    {
        if counts[i].0 == id {
            proof {
                let k = choose|k: int| 0 <= k < counts@.len() && counts@[k].0 == id;
                if k != i {
                    if k < i {
                        assert(counts@[k].0 != id);
                    } else {
                        assert(counts@[i as int].0 != counts@[k].0);
                    }
                }
            }
            let n = counts[i].1;
            return if n > 0 {
                Some(n)
            } else {
                None
            };
        }
        i = i + 1;
    }
    None
}

/// The sidebar: the automatic playlists; each user playlist with id
/// `playlist-` and the slug of its name; each channel with id `channel-`
/// and the slug of its name, and its count of new videos from `new_counts`
/// (channel id, count) where that is not zero.
pub fn sidebar_data(playlists: &Vec<Playlist>, channels: &Vec<YouTubeChannel>, new_counts: &Vec<(i32, usize)>) -> (r: SidebarData)
    requires
        forall|i: int, j: int| 0 <= i < j < new_counts@.len() ==> new_counts@[i].0 != new_counts@[j].0,
    ensures
        r.auto_playlists@.len() == auto_playlist_entries().len(),
        forall|i: int|
            0 <= i < r.auto_playlists@.len() ==> nav_view(#[trigger] r.auto_playlists@[i]) == (
                auto_playlist_entries()[i].0,
                None::<i32>,
                auto_playlist_entries()[i].1,
                "auto"@,
                None::<usize>,
            ),
        r.user_playlists@.len() == playlists@.len(),
        forall|i: int|
            0 <= i < r.user_playlists@.len() ==> nav_view(#[trigger] r.user_playlists@[i]) == (
                "playlist-"@ + slug(playlists@[i].name@),
                Some(playlists@[i].id),
                playlists@[i].name@,
                "playlist"@,
                None::<usize>,
            ),
        r.youtube_channels@.len() == channels@.len(),
        forall|i: int|
            0 <= i < r.youtube_channels@.len() ==> nav_view(#[trigger] r.youtube_channels@[i]) == (
                "channel-"@ + slug(channels@[i].name@),
                Some(channels@[i].id),
                channels@[i].name@,
                "channel"@,
                shown_count(new_counts@, channels@[i].id),
            ),
{
    let mut user: Vec<NavItem> = Vec::new();
    let mut i: usize = 0;
    while i < playlists.len()
        invariant
            i <= playlists@.len(),
            user@.len() == i,
            forall|k: int|
                0 <= k < i ==> nav_view(#[trigger] user@[k]) == (
                    "playlist-"@ + slug(playlists@[k].name@),
                    Some(playlists@[k].id),
                    playlists@[k].name@,
                    "playlist"@,
                    None::<usize>,
                ),
        decreases playlists@.len() - i,
    {
        let p = &playlists[i];
        user.push(
            NavItem {
                id: prefixed_slug("playlist-", p.name.as_str()),
                db_id: Some(p.id),
                label: p.name.clone(),
                kind: to_owned_string("playlist"),
                new_count: None,
            },
        );
        i = i + 1;
    }
    let mut chans: Vec<NavItem> = Vec::new();
    let mut k: usize = 0;
    while k < channels.len()
        invariant
            k <= channels@.len(),
            chans@.len() == k,
            forall|a: int, b: int| 0 <= a < b < new_counts@.len() ==> new_counts@[a].0 != new_counts@[b].0,
            forall|m: int|
                0 <= m < k ==> nav_view(#[trigger] chans@[m]) == (
                    "channel-"@ + slug(channels@[m].name@),
                    Some(channels@[m].id),
                    channels@[m].name@,
                    "channel"@,
                    shown_count(new_counts@, channels@[m].id),
                ),
        decreases channels@.len() - k,
    {
        let c = &channels[k];
        chans.push(
            NavItem {
                id: prefixed_slug("channel-", c.name.as_str()),
                db_id: Some(c.id),
                label: c.name.clone(),
                kind: to_owned_string("channel"),
                new_count: new_count_for(new_counts, c.id),
            },
        );
        k = k + 1;
    }
    SidebarData { auto_playlists: auto_playlists(), user_playlists: user, youtube_channels: chans }
}

/// The list an automatic playlist's id names; ids are accepted with `-`
/// or `_` between words.
#[derive(Clone, Copy, Debug, PartialEq, Eq, Structural)]
pub enum SourceRequest {
    AllMedia,
    AllTracks,
    AllVideos,
    /// The recently added list, cut to `limit` where it is not negative.
    RecentlyAdded { limit: i64 },
    /// The recently played list, cut to `limit` where it is not negative.
    RecentlyPlayed { limit: i64 },
    Queue,
}

/// The list an automatic playlist's id names, if any: the recently added
/// list whole, the recently played list cut to 100.
pub open spec fn source_of(id: Seq<char>) -> Option<SourceRequest> {
    if id == "all-media"@ || id == "all_media"@ {
        Some(SourceRequest::AllMedia)
    } else if id == "all-tracks"@ || id == "all_tracks"@ {
        Some(SourceRequest::AllTracks)
    } else if id == "all-videos"@ || id == "all_videos"@ {
        Some(SourceRequest::AllVideos)
    } else if id == "recently-added"@ || id == "recently_added"@ {
        Some(SourceRequest::RecentlyAdded { limit: 0 })
    } else if id == "recently-played"@ || id == "recently_played"@ {
        Some(SourceRequest::RecentlyPlayed { limit: 100 })
    } else if id == "queue"@ {
        Some(SourceRequest::Queue)
    } else {
        None
    }
}

/// The list an automatic playlist's id names; `None` for an unknown id,
/// which lists nothing.
pub fn source_for_id(id: &str) -> (r: Option<SourceRequest>)
    ensures
        r == source_of(id@),
{
    if str_eq(id, "all-media") || str_eq(id, "all_media") {
        Some(SourceRequest::AllMedia)
    } else if str_eq(id, "all-tracks") || str_eq(id, "all_tracks") {
        Some(SourceRequest::AllTracks)
    } else if str_eq(id, "all-videos") || str_eq(id, "all_videos") {
        Some(SourceRequest::AllVideos)
    } else if str_eq(id, "recently-added") || str_eq(id, "recently_added") {
        Some(SourceRequest::RecentlyAdded { limit: 0 })
    } else if str_eq(id, "recently-played") || str_eq(id, "recently_played") {
        Some(SourceRequest::RecentlyPlayed { limit: 100 })
    } else if str_eq(id, "queue") {
        Some(SourceRequest::Queue)
    } else {
        None
    }
}

/// What the player shows of an item: title, artist, album and duration.
pub fn track_info(item: &MediaItem) -> (r: TrackInfo)
    ensures
        r.title@ == item_title(*item),
        r.artist@ == item_artist(*item),
        r.album@ == item_album(*item),
        r.duration_str@ == item_duration_text(*item),
{
    TrackInfo {
        title: to_owned_string(item.title()),
        artist: to_owned_string(item.artist()),
        album: to_owned_string(item.album()),
        duration_str: item.duration_str(),
    }
}

/// What the player shows of the item at the current index, when there is
/// one and the list has it.
pub fn current_track(items: &Vec<MediaItem>, current_index: Option<usize>) -> (r: Option<TrackInfo>)
    ensures
        r is Some <==> (current_index matches Some(i) && i < items@.len()),
        r matches Some(info) ==> info.title@ == item_title(items@[current_index->0 as int])
            && info.artist@ == item_artist(items@[current_index->0 as int]) && info.album@ == item_album(
            items@[current_index->0 as int],
        ) && info.duration_str@ == item_duration_text(items@[current_index->0 as int]),
{
    match current_index {
        Some(i) => if i < items.len() {
            Some(track_info(&items[i]))
        } else {
            None
        },
        None => None,
    }
}

/// Why the web player refuses to play an entry.
#[derive(Clone, Copy, Debug, PartialEq, Eq, Structural)]
pub enum PlayError {
    /// The index lies past the end of the list.
    IndexOutOfRange,
    /// The entry is a video, which the web player does not play.
    VideoNotSupported,
}

impl PlayError {
    /// The HTTP status answered: 400 for a bad index, 501 for a video.
    pub fn status_code(&self) -> (r: u16)
        ensures
            r == match *self {
                PlayError::IndexOutOfRange => 400u16,
                PlayError::VideoNotSupported => 501u16,
            },
    {
        match self {
            PlayError::IndexOutOfRange => 400,
            PlayError::VideoNotSupported => 501,
        }
    }

    /// The message answered.
    pub fn message(&self) -> (r: String)
        ensures
            r@ == match *self {
                PlayError::IndexOutOfRange => "Index out of range"@,
                PlayError::VideoNotSupported => "YouTube playback not yet supported in web UI"@,
            },
    {
        match self {
            PlayError::IndexOutOfRange => to_owned_string("Index out of range"),
            PlayError::VideoNotSupported => to_owned_string("YouTube playback not yet supported in web UI"),
        }
    }
}

/// The file the web player plays for the entry at `index`: a track's file;
/// an index past the end, or a video, is refused.
pub fn play_target(items: &Vec<MediaItem>, index: usize) -> (r: Result<String, PlayError>)
    ensures
        index >= items@.len() ==> r == Err::<String, PlayError>(PlayError::IndexOutOfRange),
        index < items@.len() ==> match items@[index as int] {
            MediaItem::Track(t) => r matches Ok(f) && f@ == t.filename@,
            MediaItem::Video(_) => r == Err::<String, PlayError>(PlayError::VideoNotSupported),
        },
{
    if index >= items.len() {
        return Err(PlayError::IndexOutOfRange);
    }
    match &items[index] {
        MediaItem::Track(t) => Ok(t.filename.clone()),
        MediaItem::Video(_) => Err(PlayError::VideoNotSupported),
    }
}

/// The entry a request names: the track when it names a file, else the
/// video when it names one.
pub fn item_target(track_filename: Option<String>, youtube_video_id: Option<i32>) -> (r: Option<PlaylistItemIdentifier>)
    ensures
        match track_filename {
            Some(f) => r matches Some(PlaylistItemIdentifier::Track(g)) && g@ == f@,
            None => match youtube_video_id {
                Some(v) => r matches Some(PlaylistItemIdentifier::Video(w)) && w == v,
                None => r is None,
            },
        },
{
    match track_filename {
        Some(f) => Some(PlaylistItemIdentifier::Track(f)),
        None => match youtube_video_id {
            Some(v) => Some(PlaylistItemIdentifier::Video(v)),
            None => None,
        },
    }
}

/// The content type a cached thumbnail is served with: PNG for a `.png`
/// file, JPEG otherwise.
pub open spec fn content_type_of(path: Seq<char>) -> Seq<char> {
    if extension_of(path) == Some("png"@) {
        "image/png"@
    } else {
        "image/jpeg"@
    }
}

/// The content type a cached thumbnail is served with.
pub fn thumbnail_content_type(path: &str) -> (r: &'static str)
    ensures
        r@ == content_type_of(path@),
{
    let png = chars_of("png");
    let is_png = match crate::paths::extension(path) {
        Some(e) => chars_eq(&e, &png),
        None => false,
    };
    if is_png {
        "image/png"
    } else {
        "image/jpeg"
    }
}

/// What chrono answers to `now - then > TimeDelta::hours(hours)` for the
/// two times read as `NaiveDateTime`s; `None` when either is not a valid
/// date and time.
pub uninterp spec fn chrono_exceeds_hours(now: Timestamp, then: Timestamp, hours: i64) -> Option<bool>;

/// Whether more than `hours` hours passed from `then` to `now`, as chrono
/// computes the difference of two `NaiveDateTime`s (built with
/// `NaiveDate::from_ymd_opt` and `and_hms_nano_opt`, which refuse invalid
/// dates and times). The contract names the result; how chrono counts is
/// not stated.
#[verifier::external_body]
fn exceeds_hours(now: Timestamp, then: Timestamp, hours: i64) -> (r: Option<bool>)
    requires
        0 <= hours <= 1_000_000,
    ensures
        r == chrono_exceeds_hours(now, then, hours),
{
    let a = chrono::NaiveDate::from_ymd_opt(now.year, now.month as u32, now.day as u32)?
        .and_hms_nano_opt(now.hour as u32, now.minute as u32, now.second as u32, now.nanosecond)?;
    let b = chrono::NaiveDate::from_ymd_opt(then.year, then.month as u32, then.day as u32)?
        .and_hms_nano_opt(then.hour as u32, then.minute as u32, then.second as u32, then.nanosecond)?;
    Some(a - b > chrono::TimeDelta::hours(hours))
}

/// The hours that must pass before a channel is checked again.
pub const REFRESH_MIN_AGE_HOURS: i64 = 6;

/// Whether a channel is due for a refresh, given whether it was fetched
/// before and, if so, whether the minimum age has passed since (`None`
/// where the times could not be compared): a channel never fetched is due;
/// one fetched before is due unless the minimum age has not passed.
pub fn refresh_due_given(age_check: Option<Option<bool>>) -> (r: bool)
    ensures
        r == match age_check {
            None => true,
            Some(e) => e != Some(false),
        },
{
    match age_check {
        None => true,
        Some(e) => match e {
            Some(b) => b,
            None => true,
        },
    }
}

/// Whether a channel last fetched at `last_fetched` is due for a refresh
/// at `now`: never fetched, or fetched more than six hours before.
pub open spec fn refresh_due(last_fetched: Option<Timestamp>, now: Timestamp) -> bool {
    match last_fetched {
        None => true,
        Some(lf) => chrono_exceeds_hours(now, lf, REFRESH_MIN_AGE_HOURS) != Some(false),
    }
}

/// Whether a channel is due for a refresh at `now`.
pub fn channel_needs_refresh(last_fetched: Option<Timestamp>, now: Timestamp) -> (r: bool)
    ensures
        r == refresh_due(last_fetched, now),
{
    let age_check = match last_fetched {
        Some(lf) => Some(exceeds_hours(now, lf, REFRESH_MIN_AGE_HOURS)),
        None => None,
    };
    refresh_due_given(age_check)
}

/// The indices, in order, of the channels due for a refresh at `now`.
pub open spec fn due_channels(channels: Seq<YouTubeChannel>, now: Timestamp) -> Seq<usize>
    decreases channels.len(),
{
    if channels.len() == 0 {
        Seq::empty()
    } else {
        let rest = due_channels(channels.drop_last(), now);
        if refresh_due(channels.last().last_fetched, now) {
            rest.push((channels.len() - 1) as usize)
        } else {
            rest
        }
    }
}

/// The indices, in order, of the channels due for a refresh at `now`.
pub fn channels_to_refresh(channels: &Vec<YouTubeChannel>, now: Timestamp) -> (r: Vec<usize>)
    ensures
        r@ == due_channels(channels@, now),
{
    let mut r: Vec<usize> = Vec::new();
    let mut i: usize = 0;
    while i < channels.len()
        invariant
            i <= channels@.len(),
            r@ == due_channels(channels@.take(i as int), now),
        decreases channels@.len() - i,
    {
        proof {
            assert(channels@.take(i + 1).drop_last() =~= channels@.take(i as int));
            assert(channels@.take(i + 1).last() == channels@[i as int]);
        }
        if channel_needs_refresh(channels[i].last_fetched, now) {
            r.push(i);
        }
        i = i + 1;
    }
    assert(channels@.take(channels@.len() as int) =~= channels@);
    r
}

} // verus!
