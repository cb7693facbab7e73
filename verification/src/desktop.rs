//! The desktop front end's rules: which file changes the watcher reports,
//! the sources of the sidebar and what each lists, the browse grid's items,
//! search and pages, the album page's rows, and the prompt about tracks
//! that are gone from disk.
use vstd::prelude::*;
use crate::media::{
    format_duration_secs, item_album, item_artist, item_title, item_track_filename,
    item_youtube_id, or_unknown, str_or_unknown_ref, video_thumbnail_url, MediaItem, Track,
    YouTubeVideo,
};
use crate::paths::{file_name_of, is_audio_path};
use crate::text::{
    nat_decimal, push_char, push_nat_decimal, push_str, seq_contains, str_contains, str_eq,
    to_lowercase, to_owned_string, unicode_lowercase,
};

verus! {

/// A change the file watcher reports: an audio file appeared (or changed)
/// or went away.
#[derive(Clone, Debug)]
pub enum FileWatchEvent {
    Added(String),
    Removed(String),
}

/// What a reported change did to the library.
#[derive(Clone, Copy, Debug, PartialEq, Eq, Structural)]
pub enum FileChangeResult {
    Added,
    Removed,
    NoChange,
}

/// The kind of a file system event, as far as the watcher reads it.
#[derive(Clone, Copy, Debug, PartialEq, Eq, Structural)]
pub enum FsEventKind {
    Create,
    Modify,
    Remove,
    Other,
}

/// The change the watcher reports for an event on a path: a created or
/// modified audio file that is a file is added; a removed audio file is
/// removed; nothing else is reported.
pub open spec fn watch_event_spec(kind: FsEventKind, path: Seq<char>, is_file: bool) -> Option<bool> {
    match kind {
        FsEventKind::Create | FsEventKind::Modify => if is_file && is_audio_path(path) {
            Some(true)
        } else {
            None
        },
        FsEventKind::Remove => if is_audio_path(path) {
            Some(false)
        } else {
            None
        },
        FsEventKind::Other => None,
    }
}

/// The change the watcher reports for an event on a path (`is_file`: the
/// path is a regular file now).
pub fn watch_event(kind: FsEventKind, path: &str, is_file: bool) -> (r: Option<FileWatchEvent>)
    ensures
        match watch_event_spec(kind, path@, is_file) {
            Some(true) => r matches Some(FileWatchEvent::Added(p)) && p@ == path@,
            Some(false) => r matches Some(FileWatchEvent::Removed(p)) && p@ == path@,
            None => r is None,
        },
{
    match kind {
        FsEventKind::Create | FsEventKind::Modify => {
            if is_file && crate::paths::is_audio_file(path) {
                Some(FileWatchEvent::Added(to_owned_string(path)))
            } else {
                None
            }
        },
        FsEventKind::Remove => {
            if crate::paths::is_audio_file(path) {
                Some(FileWatchEvent::Removed(to_owned_string(path)))
            } else {
                None
            }
        },
        FsEventKind::Other => None,
    }
}

/// What scanning an added file did: a track stored is an addition; no
/// track, or a failure, changes nothing.
pub fn change_after_scan(outcome: Result<bool, String>) -> (r: FileChangeResult)
    ensures
        r == if outcome matches Ok(true) {
            FileChangeResult::Added
        } else {
            FileChangeResult::NoChange
        },
{
    match outcome {
        Ok(stored) => if stored {
            FileChangeResult::Added
        } else {
            FileChangeResult::NoChange
        },
        Err(_) => FileChangeResult::NoChange,
    }
}

/// What deleting a removed file's tracks did: some deleted is a removal;
/// none, or a failure, changes nothing.
pub fn change_after_removal(outcome: Result<usize, String>) -> (r: FileChangeResult)
    ensures
        r == if outcome matches Ok(n) && n > 0 {
            FileChangeResult::Removed
        } else {
            FileChangeResult::NoChange
        },
{
    match outcome {
        Ok(n) => if n > 0 {
            FileChangeResult::Removed
        } else {
            FileChangeResult::NoChange
        },
        Err(_) => FileChangeResult::NoChange,
    }
}

/// A source of the sidebar.
#[derive(Clone, Debug)]
pub enum SourceKind {
    AllMedia,
    AllTracks,
    AllVideos,
    RecentlyAdded,
    RecentlyPlayed,
    PlaybackQueue,
    UserPlaylist(i32, String),
    YouTubeChannel(i32, String),
}

/// What the caller loads for a source.
#[derive(Clone, Copy, Debug, PartialEq, Eq, Structural)]
pub enum SourceLoad {
    AllMedia,
    AllTracks,
    AllVideos,
    /// The recently added list, cut to `limit` where it is positive.
    RecentlyAdded { limit: i64 },
    /// The recently played list, cut to `limit` where it is positive.
    RecentlyPlayed { limit: i64 },
    Queue,
    /// The items of the playlist with this id.
    Playlist { id: i32 },
    /// The videos of the channel with this id.
    Channel { id: i32 },
}

/// The label of a source: the automatic ones by name, a playlist or a
/// channel by its own name.
pub open spec fn source_label(k: SourceKind) -> Seq<char> {
    match k {
        SourceKind::AllMedia => "All Media"@,
        SourceKind::AllTracks => "All Tracks"@,
        SourceKind::AllVideos => "All Videos"@,
        SourceKind::RecentlyAdded => "Recently Added"@,
        SourceKind::RecentlyPlayed => "Recently Played"@,
        SourceKind::PlaybackQueue => "Playback Queue"@,
        SourceKind::UserPlaylist(_, name) => name@,
        SourceKind::YouTubeChannel(_, name) => name@,
    }
}

impl SourceKind {
    /// The label shown for the source.
    pub fn label(&self) -> (r: String)
        ensures
            r@ == source_label(*self),
    {
        match self {
            SourceKind::AllMedia => to_owned_string("All Media"),
            SourceKind::AllTracks => to_owned_string("All Tracks"),
            SourceKind::AllVideos => to_owned_string("All Videos"),
            SourceKind::RecentlyAdded => to_owned_string("Recently Added"),
            SourceKind::RecentlyPlayed => to_owned_string("Recently Played"),
            SourceKind::PlaybackQueue => to_owned_string("Playback Queue"),
            SourceKind::UserPlaylist(_, name) => name.clone(),
            SourceKind::YouTubeChannel(_, name) => name.clone(),
        }
    }

    /// The id of a user playlist; none for any other source.
    pub fn playlist_id(&self) -> (r: Option<i32>)
        ensures
            r == match *self {
                SourceKind::UserPlaylist(id, _) => Some(id),
                _ => None,
            },
    {
        match self {
            SourceKind::UserPlaylist(id, _) => Some(*id),
            _ => None,
        }
    }

    /// What to load for the source: the recently added list whole, the
    /// recently played list cut to 100.
    pub fn load_request(&self) -> (r: SourceLoad)
        ensures
            r == match *self {
                SourceKind::AllMedia => SourceLoad::AllMedia,
                SourceKind::AllTracks => SourceLoad::AllTracks,
                SourceKind::AllVideos => SourceLoad::AllVideos,
                SourceKind::RecentlyAdded => SourceLoad::RecentlyAdded { limit: 0 },
                SourceKind::RecentlyPlayed => SourceLoad::RecentlyPlayed { limit: 100 },
                SourceKind::PlaybackQueue => SourceLoad::Queue,
                SourceKind::UserPlaylist(id, _) => SourceLoad::Playlist { id },
                SourceKind::YouTubeChannel(id, _) => SourceLoad::Channel { id },
            },
    {
        match self {
            SourceKind::AllMedia => SourceLoad::AllMedia,
            SourceKind::AllTracks => SourceLoad::AllTracks,
            SourceKind::AllVideos => SourceLoad::AllVideos,
            SourceKind::RecentlyAdded => SourceLoad::RecentlyAdded { limit: 0 },
            SourceKind::RecentlyPlayed => SourceLoad::RecentlyPlayed { limit: 100 },
            SourceKind::PlaybackQueue => SourceLoad::Queue,
            SourceKind::UserPlaylist(id, _) => SourceLoad::Playlist { id: *id },
            SourceKind::YouTubeChannel(id, _) => SourceLoad::Channel { id: *id },
        }
    }
}

/// The automatic playlists, in the order the sidebar lists them.
pub fn auto_playlist_sources() -> (r: Vec<SourceKind>)
    ensures
        r@ == seq![
            SourceKind::AllMedia,
            SourceKind::AllTracks,
            SourceKind::AllVideos,
            SourceKind::RecentlyAdded,
            SourceKind::RecentlyPlayed,
            SourceKind::PlaybackQueue,
        ],
{
    vec![
        SourceKind::AllMedia,
        SourceKind::AllTracks,
        SourceKind::AllVideos,
        SourceKind::RecentlyAdded,
        SourceKind::RecentlyPlayed,
        SourceKind::PlaybackQueue,
    ]
}

/// A section of the sidebar.
#[derive(Clone, Copy, Debug, PartialEq, Eq, Structural)]
pub enum SectionId {
    AutoPlaylists,
    UserPlaylists,
    YouTubeChannels,
}

/// An entry of the sidebar's tree: a section's header, or a source.
#[derive(Clone, Debug)]
pub enum TreeEntry {
    SectionHeader(String, SectionId),
    Source(SourceKind),
}

/// The sections' headers, in order.
pub fn section_headers() -> (r: Vec<TreeEntry>)
    ensures
        r@.len() == 3,
        r@[0] matches TreeEntry::SectionHeader(t, s) && t@ == "Auto Playlists"@ && s == SectionId::AutoPlaylists,
        r@[1] matches TreeEntry::SectionHeader(t, s) && t@ == "Playlists"@ && s == SectionId::UserPlaylists,
        r@[2] matches TreeEntry::SectionHeader(t, s) && t@ == "YouTube"@ && s == SectionId::YouTubeChannels,
{
    vec![
        TreeEntry::SectionHeader(to_owned_string("Auto Playlists"), SectionId::AutoPlaylists),
        TreeEntry::SectionHeader(to_owned_string("Playlists"), SectionId::UserPlaylists),
        TreeEntry::SectionHeader(to_owned_string("YouTube"), SectionId::YouTubeChannels),
    ]
}

/// The source a tree entry stands for; a header stands for none.
pub fn source_of_entry(e: &TreeEntry) -> (r: Option<SourceKind>)
    ensures
        match *e {
            TreeEntry::Source(k) => r == Some(k),
            TreeEntry::SectionHeader(_, _) => r is None,
        },
{
    match e {
        TreeEntry::Source(k) => Some(k.clone_kind()),
        TreeEntry::SectionHeader(_, _) => None,
    }
}

impl SourceKind {
    /// A copy of the source.
    pub fn clone_kind(&self) -> (r: SourceKind)
        ensures
            r == *self,
    {
        match self {
            SourceKind::AllMedia => SourceKind::AllMedia,
            SourceKind::AllTracks => SourceKind::AllTracks,
            SourceKind::AllVideos => SourceKind::AllVideos,
            SourceKind::RecentlyAdded => SourceKind::RecentlyAdded,
            SourceKind::RecentlyPlayed => SourceKind::RecentlyPlayed,
            SourceKind::PlaybackQueue => SourceKind::PlaybackQueue,
            SourceKind::UserPlaylist(id, name) => SourceKind::UserPlaylist(*id, name.clone()),
            SourceKind::YouTubeChannel(id, name) => SourceKind::YouTubeChannel(*id, name.clone()),
        }
    }
}

/// The text the desktop lists show for a missing tag.
pub open spec fn paren_unknown() -> Seq<char> {
    "(Unknown)"@
}

/// An optional tag, or `(Unknown)` when it is missing.
pub fn str_or_unknown(s: &Option<String>) -> (r: String)
    ensures
        r@ == match *s {
            Some(t) => t@,
            None => paren_unknown(),
        },
{
    match s {
        Some(t) => t.clone(),
        None => to_owned_string("(Unknown)"),
    }
}

/// An entry of the browse grid: an item, or an album.
#[derive(Clone, Debug)]
pub enum BrowseItem {
    Media(MediaItem),
    Album { artist: String, album: String, representative_filename: String },
}

/// The key a grid entry's picture is cached under: a video's thumbnail
/// URL, a track's file, an album's file.
pub open spec fn cache_key_spec(item: BrowseItem) -> Option<Seq<char>> {
    match item {
        BrowseItem::Media(MediaItem::Video(v)) => Some(video_thumbnail_url(v)),
        BrowseItem::Media(MediaItem::Track(t)) => Some(t.filename@),
        BrowseItem::Album { representative_filename, .. } => Some(representative_filename@),
    }
}

/// The key a grid entry's picture is cached under.
pub fn browse_item_cache_key(item: &BrowseItem) -> (r: Option<String>)
    ensures
        match r {
            Some(k) => cache_key_spec(*item) == Some(k@),
            None => cache_key_spec(*item) is None,
        },
{
    match item {
        BrowseItem::Media(m) => match m.thumbnail_url() {
            Some(url) => Some(url),
            None => match m.track_filename() {
                Some(f) => Some(to_owned_string(f)),
                None => None,
            },
        },
        BrowseItem::Album { representative_filename, .. } => Some(representative_filename.clone()),
    }
}

/// The key a grid entry is played by: a track's file, a video's id; an
/// album has none.
pub open spec fn play_key_spec(item: BrowseItem) -> Option<Seq<char>> {
    match item {
        BrowseItem::Media(MediaItem::Track(t)) => Some(t.filename@),
        BrowseItem::Media(MediaItem::Video(v)) => Some(v.video_id@),
        BrowseItem::Album { .. } => None,
    }
}

/// The key a grid entry is played by.
pub fn browse_item_play_key(item: &BrowseItem) -> (r: Option<String>)
    ensures
        match r {
            Some(k) => play_key_spec(*item) == Some(k@),
            None => play_key_spec(*item) is None,
        },
{
    match item {
        BrowseItem::Media(m) => match m.track_filename() {
            Some(f) => Some(to_owned_string(f)),
            None => match m.youtube_video_id() {
                Some(v) => Some(to_owned_string(v)),
                None => None,
            },
        },
        BrowseItem::Album { .. } => None,
    }
}

/// Whether a grid entry matches a search: an empty query matches all;
/// otherwise the lowercased query must occur in the lowercased title,
/// artist or album of an item, or artist or album of an album.
pub open spec fn browse_matches(item: BrowseItem, query: Seq<char>) -> bool {
    if query.len() == 0 {
        true
    } else {
        let q = unicode_lowercase(query);
        match item {
            BrowseItem::Media(m) => seq_contains(unicode_lowercase(item_title(m)), q) || seq_contains(
                unicode_lowercase(item_artist(m)),
                q,
            ) || seq_contains(unicode_lowercase(item_album(m)), q),
            BrowseItem::Album { artist, album, .. } => seq_contains(unicode_lowercase(artist@), q)
                || seq_contains(unicode_lowercase(album@), q),
        }
    }
}

/// Whether a grid entry matches a search.
pub fn item_matches_search(item: &BrowseItem, query: &str) -> (r: bool)
    ensures
        r == browse_matches(*item, query@),
{
    if query.is_empty() {
        return true;
    }
    let q = to_lowercase(query);
    match item {
        BrowseItem::Media(m) => {
            let t = to_lowercase(m.title());
            let a = to_lowercase(m.artist());
            let b = to_lowercase(m.album());
            str_contains(t.as_str(), q.as_str()) || str_contains(a.as_str(), q.as_str()) || str_contains(
                b.as_str(),
                q.as_str(),
            )
        },
        BrowseItem::Album { artist, album, .. } => {
            let a = to_lowercase(artist.as_str());
            let b = to_lowercase(album.as_str());
            str_contains(a.as_str(), q.as_str()) || str_contains(b.as_str(), q.as_str())
        },
    }
}

/// A copy of a grid entry.
pub fn copy_browse_item(item: &BrowseItem) -> (r: BrowseItem)
    ensures
        r == *item,
{
    match item {
        BrowseItem::Media(m) => BrowseItem::Media(m.duplicate()),
        BrowseItem::Album { artist, album, representative_filename } => BrowseItem::Album {
            artist: artist.clone(),
            album: album.clone(),
            representative_filename: representative_filename.clone(),
        },
    }
}

/// The entries of a list that match a search, in order.
pub open spec fn matching_entries(items: Seq<BrowseItem>, query: Seq<char>) -> Seq<BrowseItem> {
    items.filter(|i: BrowseItem| browse_matches(i, query))
}

/// The entries that match a search, in order.
pub fn filter_browse_items(items: &Vec<BrowseItem>, query: &str) -> (r: Vec<BrowseItem>)
    ensures
        r@ == matching_entries(items@, query@),
{
    let mut r: Vec<BrowseItem> = Vec::new();
    let mut i: usize = 0;
    while i < items.len()
        invariant
            i <= items@.len(),
            r@ == matching_entries(items@.take(i as int), query@),
        decreases items@.len() - i,
    {
        proof {
            assert(items@.take(i + 1).drop_last() =~= items@.take(i as int));
            reveal_with_fuel(Seq::filter, 1);
        }
        if item_matches_search(&items[i], query) {
            r.push(copy_browse_item(&items[i]));
        }
        assert(r@ =~= matching_entries(items@.take(i + 1), query@));
        i = i + 1;
    }
    assert(items@.take(items@.len() as int) =~= items@);
    r
}

/// The grid entries of the albums (artist, album, a file of the album).
pub fn album_browse_items(albums: Vec<(String, String, String)>) -> (r: Vec<BrowseItem>)
    ensures
        r@.len() == albums@.len(),
        forall|i: int|
            0 <= i < r@.len() ==> ((#[trigger] r@[i]) matches BrowseItem::Album { artist, album, representative_filename }
                && artist@ == albums@[i].0@ && album@ == albums@[i].1@ && representative_filename@ == albums@[i].2@),
{
    let mut r: Vec<BrowseItem> = Vec::new();
    let mut i: usize = 0;
    while i < albums.len()
        invariant
            i <= albums@.len(),
            r@.len() == i,
            forall|k: int|
                0 <= k < i ==> ((#[trigger] r@[k]) matches BrowseItem::Album { artist, album, representative_filename }
                    && artist@ == albums@[k].0@ && album@ == albums@[k].1@ && representative_filename@
                    == albums@[k].2@),
        decreases albums@.len() - i,
    {
        let a = &albums[i];
        r.push(BrowseItem::Album { artist: a.0.clone(), album: a.1.clone(), representative_filename: a.2.clone() });
        i = i + 1;
    }
    r
}

/// The most entries the grid adds at a time.
pub const PAGE_SIZE: usize = 200;

/// The next page after `shown` of `total` entries: where it ends, and how
/// many remain after it.
pub fn next_page(shown: usize, total: usize) -> (r: (usize, usize))
    requires
        shown <= total,
    ensures
        r.0 == (if shown + PAGE_SIZE <= total { shown + PAGE_SIZE } else { total as int }),
        r.1 == total - r.0,
{
    let end = if total - shown >= PAGE_SIZE {
        shown + PAGE_SIZE
    } else {
        total
    };
    (end, total - end)
}

/// The label of the button that shows more: shown only while entries
/// remain.
pub fn show_more_label(remaining: usize) -> (r: Option<String>)
    ensures
        remaining == 0 ==> r is None,
        remaining > 0 ==> (r matches Some(l) && l@ == "Show More ("@ + nat_decimal(remaining as nat) + " remaining)"@),
{
    if remaining == 0 {
        return None;
    }
    let mut s = to_owned_string("Show More (");
    push_nat_decimal(&mut s, remaining as u64);
    push_str(&mut s, " remaining)");
    Some(s)
}

/// The indices of the grid entries whose play key is one of `keys`.
pub open spec fn entries_with_keys(items: Seq<BrowseItem>, keys: Seq<Seq<char>>) -> Seq<usize>
    decreases items.len(),
{
    if items.len() == 0 {
        Seq::empty()
    } else {
        let rest = entries_with_keys(items.drop_last(), keys);
        if play_key_spec(items.last()) matches Some(k) && keys.contains(k) {
            rest.push((items.len() - 1) as usize)
        } else {
            rest
        }
    }
}

/// The indices of the grid entries whose play key is one of `keys` (the
/// entries to draw again once their pictures arrived).
pub fn indices_with_play_keys(items: &Vec<BrowseItem>, keys: &Vec<String>) -> (r: Vec<usize>)
    ensures
        r@ == entries_with_keys(items@, keys@.map_values(|k: String| k@)),
{
    let ghost kv = keys@.map_values(|k: String| k@);
    let mut r: Vec<usize> = Vec::new();
    let mut i: usize = 0;
    while i < items.len()
        invariant
            i <= items@.len(),
            kv == keys@.map_values(|k: String| k@),
            r@ == entries_with_keys(items@.take(i as int), kv),
        decreases items@.len() - i,
    {
        proof {
            assert(items@.take(i + 1).drop_last() =~= items@.take(i as int));
            assert(items@.take(i + 1).last() == items@[i as int]);
        }
        match browse_item_play_key(&items[i]) {
            Some(k) => {
                let mut found = false;
                let mut j: usize = 0;
                while j < keys.len()
                    invariant
                        j <= keys@.len(),
                        kv == keys@.map_values(|k: String| k@),
                        found == exists|m: int| 0 <= m < j && kv[m] == k@,
                    decreases keys@.len() - j,
                {
                    assert(kv[j as int] == keys@[j as int]@);
                    if str_eq(keys[j].as_str(), k.as_str()) {
                        found = true;
                    }
                    proof {
                        if !found {
                            assert forall|m: int| 0 <= m < j + 1 implies kv[m] != k@ by {
                                if m < j {
                                    assert(!(0 <= m < j && kv[m] == k@));
                                }
                            }
                        }
                    }
                    j = j + 1;
                }
                proof {
                    if kv.contains(k@) {
                        let m = choose|m: int| 0 <= m < kv.len() && kv[m] == k@;
                        assert(exists|m: int| 0 <= m < keys@.len() && kv[m] == k@);
                    }
                }
                if found {
                    r.push(i);
                }
            },
            None => {},
        }
        i = i + 1;
    }
    assert(items@.take(items@.len() as int) =~= items@);
    r
}

/// The heading of an album's page: `artist — album`.
pub fn album_heading(artist: &str, album: &str) -> (r: String)
    ensures
        r@ == artist@ + " — "@ + album@,
{
    let mut s = to_owned_string(artist);
    push_str(&mut s, " — ");
    push_str(&mut s, album);
    s
}

/// A row of an album's page: the track number (or nothing), the title (or
/// `Unknown`) and the duration as `m:ss` (or nothing).
pub fn album_track_row(t: &Track) -> (r: (String, String, String))
    ensures
        r.0@ == match t.track {
            Some(n) => n@,
            None => Seq::empty(),
        },
        r.1@ == or_unknown(t.title),
        r.2@ == match t.duration_seconds {
            Some(d) => crate::media::duration_text(d as int),
            None => Seq::empty(),
        },
{
    let num = match &t.track {
        Some(n) => n.clone(),
        None => String::new(),
    };
    let title = to_owned_string(str_or_unknown_ref(&t.title));
    let duration = match t.duration_seconds {
        Some(d) => format_duration_secs(d),
        None => String::new(),
    };
    (num, title, duration)
}

/// How many gone files the prompt names before it counts the rest.
pub const STALE_PREVIEW_COUNT: usize = 10;

/// How a gone file is named in the prompt: its file name, else the whole
/// path.
pub open spec fn stale_name(path: Seq<char>) -> Seq<char> {
    match file_name_of(path) {
        Some(n) => n,
        None => path,
    }
}

/// The names of the first gone files, one per line.
pub open spec fn stale_preview(files: Seq<Seq<char>>) -> Seq<char>
    decreases files.len(),
{
    if files.len() == 0 {
        Seq::empty()
    } else if files.len() == 1 {
        stale_name(files[0])
    } else {
        stale_preview(files.drop_last()) + seq!['\n'] + stale_name(files.last())
    }
}

/// The prompt shown when a scan found tracks whose files are gone: the
/// question, and the first ten names, followed by how many more there are.
pub open spec fn stale_prompt_spec(files: Seq<Seq<char>>) -> (Seq<char>, Seq<char>) {
    let n = files.len();
    let preview = stale_preview(files.take(if n > 10 { 10 } else { n as int }));
    (
        nat_decimal(n) + " tracks no longer found on disk. Remove from library?"@,
        if n > 10 {
            preview + "\n...and "@ + nat_decimal((n - 10) as nat) + " more"@
        } else {
            preview
        },
    )
}

/// The prompt shown when a scan found tracks whose files are gone.
pub fn stale_prompt(files: &Vec<String>) -> (r: (String, String))
    ensures
        (r.0@, r.1@) == stale_prompt_spec(files@.map_values(|f: String| f@)),
{
    let ghost fv = files@.map_values(|f: String| f@);
    let n = files.len();
    let shown = if n > STALE_PREVIEW_COUNT {
        STALE_PREVIEW_COUNT
    } else {
        n
    };
    let mut preview = String::new();
    let mut i: usize = 0;
    while i < shown
        invariant
            i <= shown <= files@.len(),
            fv == files@.map_values(|f: String| f@),
            preview@ == stale_preview(fv.take(i as int)),
        decreases shown - i,
    {
        let f = files[i].as_str();
        let name = match crate::paths::file_name(f) {
            Some(v) => crate::text::string_from_chars(&v),
            None => to_owned_string(f),
        };
        proof {
            assert(fv.take(i + 1).drop_last() =~= fv.take(i as int));
            assert(fv.take(i + 1).last() == f@);
            assert(name@ == stale_name(f@));
            if i == 0 {
                assert(fv.take(1) =~= seq![f@]);
            }
        }
        if i > 0 {
            push_char(&mut preview, '\n');
        }
        push_str(&mut preview, name.as_str());
        proof {
            if i == 0 {
                assert(preview@ =~= stale_preview(fv.take(1)));
            } else {
                assert(preview@ =~= stale_preview(fv.take(i + 1)));
            }
        }
        i = i + 1;
    }
    let mut message = String::new();
    push_nat_decimal(&mut message, n as u64);
    push_str(&mut message, " tracks no longer found on disk. Remove from library?");
    let detail = if n > STALE_PREVIEW_COUNT {
        let mut d = preview;
        push_str(&mut d, "\n...and ");
        push_nat_decimal(&mut d, (n - STALE_PREVIEW_COUNT) as u64);
        push_str(&mut d, " more");
        d
    } else {
        preview
    };
    (message, detail)
}

/// The grid search: an empty query keeps every entry; otherwise an album
/// entry is kept exactly when its lowercased artist or album name contains
/// the lowercased query, and an item exactly when its lowercased title,
/// artist or album does.
pub proof fn law_browse_search(artist: String, album: String, file: String, m: MediaItem, query: Seq<char>)
    ensures
        query.len() == 0 ==> browse_matches(BrowseItem::Album { artist, album, representative_filename: file }, query)
            && browse_matches(BrowseItem::Media(m), query),
        query.len() > 0 ==> (browse_matches(
            BrowseItem::Album { artist, album, representative_filename: file },
            query,
        ) <==> (seq_contains(unicode_lowercase(artist@), unicode_lowercase(query)) || seq_contains(
            unicode_lowercase(album@),
            unicode_lowercase(query),
        ))),
        query.len() > 0 ==> (browse_matches(BrowseItem::Media(m), query) <==> (seq_contains(
            unicode_lowercase(item_title(m)),
            unicode_lowercase(query),
        ) || seq_contains(unicode_lowercase(item_artist(m)), unicode_lowercase(query)) || seq_contains(
            unicode_lowercase(item_album(m)),
            unicode_lowercase(query),
        ))),
{
}

} // verus!
