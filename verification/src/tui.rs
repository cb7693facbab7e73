//! The terminal front end's state and its decisions: navigation, track
//! selection, search, scrolling, the context and playlist menus, what a
//! key or a click does, and what plays next. The terminal, the audio
//! output and the database stay with the caller, which performs what these
//! decisions ask for.
use vstd::prelude::*;
use crate::media::{
    item_album, item_artist, item_title, item_track_filename, item_youtube_id, MediaItem,
    Playlist, Track,
};
use crate::settings::RepeatMode;
use crate::text::{
    push_char, push_str, seq_contains, str_contains, str_eq, to_lowercase, to_owned_string,
    unicode_lowercase,
};

verus! {

/// The panel that has the keyboard.
#[derive(Clone, Copy, Debug, PartialEq, Eq, Structural)]
pub enum Panel {
    Navigation,
    TrackList,
}

/// The list shown in the track panel.
#[derive(Clone, Copy, Debug, PartialEq, Eq, Structural)]
pub enum NavSection {
    AllTracks,
    Playlists,
    Queue,
    RecentlyPlayed,
    RecentlyAdded,
}

/// What the keyboard drives: the lists, or a menu, input or help screen.
#[derive(Clone, Copy, Debug, PartialEq, Eq, Structural)]
pub enum UiMode {
    Normal,
    ContextMenu,
    PlaylistSelect,
    NewPlaylistInput,
    PlaylistContextMenu,
    RenamePlaylistInput,
    Help,
}

/// The menu opened on a track.
pub struct ContextMenu {
    pub track_idx: usize,
    pub selected: usize,
    pub items: Vec<&'static str>,
}

/// The menu opened on a playlist.
pub struct PlaylistMenu {
    pub playlist_id: i32,
    pub playlist_name: String,
    pub selected: usize,
    pub items: Vec<&'static str>,
}

/// The state of the terminal front end, apart from the audio output.
pub struct App {
    pub tracks: Vec<Track>,
    pub playlists: Vec<Playlist>,
    pub displayed_items: Vec<MediaItem>,
    pub nav_selected: Option<usize>,
    pub track_selected: Option<usize>,
    pub active_panel: Panel,
    pub current_nav: NavSection,
    pub current_playlist_id: Option<i32>,
    pub shuffle_enabled: bool,
    pub repeat_mode: RepeatMode,
    pub search_query: String,
    pub is_searching: bool,
    pub filtered_indices: Vec<usize>,
    pub should_quit: bool,
    pub status_message: Option<String>,
    pub scroll_offset: usize,
    pub visible_height: usize,
    pub ui_mode: UiMode,
    pub context_menu: Option<ContextMenu>,
    pub playlist_select_idx: usize,
    pub new_playlist_name: String,
    pub playlist_menu: Option<PlaylistMenu>,
    pub rename_playlist_name: String,
}

/// The entries of the navigation panel before the playlists.
pub open spec fn fixed_nav_items() -> Seq<Seq<char>> {
    seq!["All Tracks"@, "Queue"@, "Recently Played"@, "Recently Added"@]
}

/// What the caller loads after a navigation entry was selected.
#[derive(Clone, Copy, Debug, PartialEq, Eq, Structural)]
pub enum NavLoad {
    /// Nothing: the list shown is already up to date.
    Shown,
    /// The playback queue.
    Queue,
    /// The recently played list, cut to `limit`.
    RecentlyPlayed { limit: i64 },
    /// The recently added list, cut to `limit`.
    RecentlyAdded { limit: i64 },
    /// The items of the playlist with this id.
    Playlist { id: i32 },
}

/// The tracks as items, in order.
pub open spec fn track_items(tracks: Seq<Track>) -> Seq<MediaItem> {
    tracks.map_values(|t: Track| MediaItem::Track(t))
}

/// The view of an optional string.
pub open spec fn opt_text(o: Option<String>) -> Option<Seq<char>> {
    match o {
        Some(s) => Some(s@),
        None => None,
    }
}

/// The tracks as items.
fn items_of_tracks(tracks: &Vec<Track>) -> (r: Vec<MediaItem>)
    ensures
        r@ == track_items(tracks@),
{
    let mut r: Vec<MediaItem> = Vec::new();
    let mut i: usize = 0;
    while i < tracks.len()
        invariant
            i <= tracks@.len(),
            r@ == track_items(tracks@.take(i as int)),
        decreases tracks@.len() - i,
    {
        r.push(MediaItem::Track(tracks[i].duplicate()));
        assert(r@ =~= track_items(tracks@.take(i + 1)));
        i = i + 1;
    }
    assert(tracks@.take(tracks@.len() as int) =~= tracks@);
    r
}

/// The entries of the track menu.
pub open spec fn context_menu_entries() -> Seq<Seq<char>> {
    seq!["Add to queue"@, "Add to playlist"@, "Create new playlist"@]
}

/// The entries of the playlist menu.
pub open spec fn playlist_menu_entries() -> Seq<Seq<char>> {
    seq!["Rename playlist"@, "Delete playlist"@]
}

/// What the caller does after an entry of the track menu was chosen.
#[derive(Clone, Copy, Debug, PartialEq, Eq, Structural)]
pub enum ContextAction {
    /// Nothing more.
    Nothing,
    /// Add the shown item at this index to the queue.
    AddToQueue { track_idx: usize },
    /// Read the playlists and offer them.
    ChoosePlaylist,
}

/// How creating a playlist went.
pub enum NewPlaylistOutcome {
    /// The playlist could not be created.
    CreateFailed { error: String },
    /// The playlist was created; `added` tells how adding the track went,
    /// when the list had it, and `playlists` are the playlists read back.
    Created { added: Option<Result<(), String>>, playlists: Vec<Playlist> },
}

/// A text without its last character, if it has one.
pub open spec fn without_last(s: Seq<char>) -> Seq<char> {
    if s.len() == 0 {
        s
    } else {
        s.drop_last()
    }
}

/// A copy of a string without its last character (`String::pop`).
pub fn remove_last_char(s: &String) -> (r: String)
    ensures
        r@ == without_last(s@),
{
    let cs = crate::text::chars_of(s.as_str());
    if cs.len() == 0 {
        return s.clone();
    }
    let mut kept: Vec<char> = Vec::new();
    let mut i: usize = 0;
    while i < cs.len() - 1
        invariant
            cs@.len() > 0,
            i + 1 <= cs@.len(),
            kept@ == cs@.take(i as int),
        decreases cs@.len() - i,
    {
        kept.push(cs[i]);
        i = i + 1;
        assert(kept@ =~= cs@.take(i as int));
    }
    assert(kept@ =~= cs@.drop_last());
    crate::text::string_from_chars(&kept)
}

/// The view of an optional string slice.
pub open spec fn opt_str_view(o: Option<&str>) -> Option<Seq<char>> {
    match o {
        Some(s) => Some(s@),
        None => None,
    }
}

/// The first index, from `start` on, of the entry playing.
pub open spec fn first_index_from(items: Seq<MediaItem>, video: Option<Seq<char>>, track: Option<Seq<char>>, start: int) -> Option<usize>
    decreases items.len() - start,
{
    if start < 0 || start >= items.len() {
        None
    } else if is_playing_entry(items[start], track, video) {
        Some(start as usize)
    } else {
        first_index_from(items, video, track, start + 1)
    }
}

/// Whether an entry is the one playing: the playing video's entry, else,
/// when no video plays, the playing track's.
pub open spec fn is_playing_entry(item: MediaItem, track: Option<Seq<char>>, video: Option<Seq<char>>) -> bool {
    match video {
        Some(v) => item_youtube_id(item) == Some(v),
        None => match track {
            Some(t) => item_track_filename(item) == Some(t),
            None => false,
        },
    }
}

/// The first position in the shown list of the entry playing.
pub open spec fn playing_position(items: Seq<MediaItem>, track: Option<Seq<char>>, video: Option<Seq<char>>) -> Option<usize> {
    first_index_from(items, video, track, 0)
}

/// A position found lies in the list, and holds the playing entry, and no
/// earlier entry does.
proof fn lemma_first_index_from(items: Seq<MediaItem>, track: Option<Seq<char>>, video: Option<Seq<char>>, start: int)
    requires
        0 <= start <= items.len(),
        items.len() <= usize::MAX,
    ensures
        match first_index_from(items, video, track, start) {
            Some(p) => start <= p < items.len() && is_playing_entry(items[p as int], track, video) && forall|
                k: int,
            | start <= k < p ==> !is_playing_entry(#[trigger] items[k], track, video),
            None => forall|k: int| start <= k < items.len() ==> !is_playing_entry(#[trigger] items[k], track, video),
        },
    decreases items.len() - start,
{
    if start < items.len() {
        lemma_first_index_from(items, track, video, start + 1);
        if !is_playing_entry(items[start], track, video) {
            assert(first_index_from(items, video, track, start) == first_index_from(items, video, track, start + 1));
            match first_index_from(items, video, track, start + 1) {
                Some(p) => {
                    assert forall|k: int| start <= k < p implies !is_playing_entry(#[trigger] items[k], track, video) by {
                        if k > start {
                        }
                    }
                },
                None => {
                    assert forall|k: int| start <= k < items.len() implies !is_playing_entry(
                        #[trigger] items[k],
                        track,
                        video,
                    ) by {
                        if k > start {
                        }
                    }
                },
            }
        }
    }
}

/// The playing position lies in the list.
proof fn lemma_position_in_range(items: Seq<MediaItem>, track: Option<Seq<char>>, video: Option<Seq<char>>)
    requires
        items.len() <= usize::MAX,
    ensures
        playing_position(items, track, video) matches Some(p) ==> p < items.len(),
{
    lemma_first_index_from(items, track, video, 0);
}

/// An empty list has no playing position.
proof fn lemma_no_position_in_empty(items: Seq<MediaItem>, track: Option<Seq<char>>, video: Option<Seq<char>>)
    requires
        items.len() == 0,
    ensures
        playing_position(items, track, video) is None,
{
}

/// What plays next once the queue gave nothing.
#[derive(Clone, Copy, Debug, PartialEq, Eq, Structural)]
pub enum NextStep {
    /// The playing track again.
    ReplayTrack,
    /// The playing video again.
    ReplayVideo,
    /// The shown entry at this index.
    Play { index: usize },
    /// Nothing more: the track stops being the one playing.
    Stop,
    /// Nothing: the playing entry is not in the shown list.
    Nothing,
}

/// What plays next, given the repeat mode, shuffle, what plays, where it
/// stands in the shown list of `len` entries, and the shuffle draw.
pub open spec fn next_step_spec(
    repeat: RepeatMode,
    shuffle: bool,
    track_playing: bool,
    video_playing: bool,
    position: Option<usize>,
    len: nat,
    draw: usize,
) -> NextStep {
    if repeat == RepeatMode::One && track_playing {
        NextStep::ReplayTrack
    } else if repeat == RepeatMode::One && video_playing {
        NextStep::ReplayVideo
    } else {
        match position {
            Some(c) => if shuffle {
                NextStep::Play { index: draw }
            } else if c + 1 < len {
                NextStep::Play { index: (c + 1) as usize }
            } else if repeat == RepeatMode::All {
                NextStep::Play { index: 0 }
            } else {
                NextStep::Stop
            },
            None => NextStep::Nothing,
        }
    }
}

/// Whether an item matches a lowercased query: its title, artist or
/// album, lowercased, contains the query.
pub open spec fn item_matches(item: MediaItem, query: Seq<char>) -> bool {
    seq_contains(unicode_lowercase(item_title(item)), query) || seq_contains(
        unicode_lowercase(item_artist(item)),
        query,
    ) || seq_contains(unicode_lowercase(item_album(item)), query)
}

/// The indices, in order, of the items that match a lowercased query.
pub open spec fn matching_indices(items: Seq<MediaItem>, query: Seq<char>) -> Seq<usize>
    decreases items.len(),
{
    if items.len() == 0 {
        Seq::empty()
    } else {
        let rest = matching_indices(items.drop_last(), query);
        if item_matches(items.last(), query) {
            rest.push((items.len() - 1) as usize)
        } else {
            rest
        }
    }
}

/// Whether the scroll position can be computed without overflow or
/// underflow: the cursor above the view, or the view's end representable
/// and, when the cursor is below it, a view at least one row high.
pub open spec fn scroll_computable(selected: usize, offset: usize, height: usize) -> bool {
    selected < offset || (offset + height <= usize::MAX && (selected >= offset + height ==> height > 0))
}

/// The scroll position that keeps the cursor's entry visible: the
/// cursor's row when it lies above the view, the row that makes it the
/// last visible one when it lies below, else unchanged.
pub open spec fn scroll_for(selected: usize, offset: usize, height: usize) -> usize {
    if selected < offset {
        selected
    } else if selected >= offset + height {
        if selected >= height - 1 {
            (selected - (height - 1)) as usize
        } else {
            0
        }
    } else {
        offset
    }
}

/// The scroll position that keeps the cursor's entry visible.
pub fn compute_scroll(selected: usize, offset: usize, height: usize) -> (r: usize)
    requires
        scroll_computable(selected, offset, height),
    ensures
        r == scroll_for(selected, offset, height),
{
    if selected < offset {
        selected
    } else if selected >= offset + height {
        let back = height - 1;
        if selected >= back {
            selected - back
        } else {
            0
        }
    } else {
        offset
    }
}

/// The entries from `start`, at most `count` of them.
pub open spec fn window<T>(s: Seq<T>, start: int, count: int) -> Seq<T> {
    if start >= s.len() {
        Seq::empty()
    } else if start + count >= s.len() {
        s.subrange(start, s.len() as int)
    } else {
        s.subrange(start, start + count)
    }
}

/// Where a window that starts at `start` ends.
fn window_end(len: usize, start: usize, count: usize) -> (r: usize)
    ensures
        r <= len,
        start <= len ==> start <= r,
        start <= len ==> r == (if start + count >= len { len as int } else { start + count }),
{
    if start >= len {
        len
    } else if count >= len - start {
        len
    } else {
        start + count
    }
}

/// The items at the given indices, skipping indices past the end.
pub open spec fn items_at(indices: Seq<usize>, items: Seq<MediaItem>) -> Seq<MediaItem>
    decreases indices.len(),
{
    if indices.len() == 0 {
        Seq::empty()
    } else {
        let rest = items_at(indices.drop_last(), items);
        if indices.last() < items.len() {
            rest.push(items[indices.last() as int])
        } else {
            rest
        }
    }
}

impl App {
    /// The length of the list the track cursor moves in: the search
    /// results while a search has some, else the shown items.
    pub open spec fn cursor_len(&self) -> nat {
        if self.is_searching && self.filtered_indices@.len() > 0 {
            self.filtered_indices@.len()
        } else {
            self.displayed_items@.len()
        }
    }

    /// A front end showing all `tracks`, the first entry of the navigation
    /// and the first track selected, with shuffle and repeat as the settings
    /// have them.
    pub fn new(tracks: Vec<Track>, playlists: Vec<Playlist>, shuffle_enabled: bool, repeat_mode: RepeatMode) -> (r: App)
        ensures
            r.tracks@ == tracks@,
            r.playlists@ == playlists@,
            r.displayed_items@ == track_items(tracks@),
            r.nav_selected == Some(0usize),
            r.track_selected == if tracks@.len() > 0 {
                Some(0usize)
            } else {
                None
            },
            r.active_panel == Panel::TrackList,
            r.current_nav == NavSection::AllTracks,
            r.current_playlist_id is None,
            r.shuffle_enabled == shuffle_enabled,
            r.repeat_mode == repeat_mode,
            r.search_query@.len() == 0,
            !r.is_searching,
            r.filtered_indices@.len() == 0,
            !r.should_quit,
            r.status_message is None,
            r.scroll_offset == 0,
            r.visible_height == 20,
            r.ui_mode == UiMode::Normal,
            r.context_menu is None,
            r.playlist_select_idx == 0,
            r.new_playlist_name@.len() == 0,
            r.playlist_menu is None,
            r.rename_playlist_name@.len() == 0,
    {
        let displayed_items = items_of_tracks(&tracks);
        let track_selected = if displayed_items.len() > 0 {
            Some(0)
        } else {
            None
        };
        App {
            tracks,
            playlists,
            displayed_items,
            nav_selected: Some(0),
            track_selected,
            active_panel: Panel::TrackList,
            current_nav: NavSection::AllTracks,
            current_playlist_id: None,
            shuffle_enabled,
            repeat_mode,
            search_query: String::new(),
            is_searching: false,
            filtered_indices: Vec::new(),
            should_quit: false,
            status_message: None,
            scroll_offset: 0,
            visible_height: 20,
            ui_mode: UiMode::Normal,
            context_menu: None,
            playlist_select_idx: 0,
            new_playlist_name: String::new(),
            playlist_menu: None,
            rename_playlist_name: String::new(),
        }
    }

    /// The number of entries of the navigation panel: the fixed ones and
    /// one per playlist.
    pub fn nav_item_count(&self) -> (r: usize)
        requires
            self.playlists@.len() + 4 <= usize::MAX,
        ensures
            r == fixed_nav_items().len() + self.playlists@.len(),
    {
        4 + self.playlists.len()
    }

    /// The name of a navigation entry: a fixed entry's name, `♫ ` and a
    /// playlist's name, or `Unknown` past the end.
    pub fn nav_item_name(&self, idx: usize) -> (r: String)
        ensures
            idx < 4 ==> r@ == fixed_nav_items()[idx as int],
            4 <= idx < 4 + self.playlists@.len() ==> r@ == seq!['♫', ' '] + self.playlists@[idx - 4].name@,
            idx >= 4 + self.playlists@.len() ==> r@ == "Unknown"@,
    {
        if idx == 0 {
            to_owned_string("All Tracks")
        } else if idx == 1 {
            to_owned_string("Queue")
        } else if idx == 2 {
            to_owned_string("Recently Played")
        } else if idx == 3 {
            to_owned_string("Recently Added")
        } else if idx - 4 < self.playlists.len() {
            let mut s = String::new();
            push_char(&mut s, '♫');
            push_char(&mut s, ' ');
            push_str(&mut s, self.playlists[idx - 4].name.as_str());
            assert(s@ =~= seq!['♫', ' '] + self.playlists@[idx - 4].name@);
            s
        } else {
            to_owned_string("Unknown")
        }
    }

    /// Moves the navigation cursor down one entry, unless it is on the
    /// last.
    pub fn nav_down(&mut self)
        requires
            old(self).playlists@.len() + 4 <= usize::MAX,
        ensures
            ({
                let i = match old(self).nav_selected {
                    Some(i) => i as int,
                    None => 0,
                };
                *final(self) == (App {
                    nav_selected: if i + 1 < 4 + old(self).playlists@.len() {
                        Some((i + 1) as usize)
                    } else {
                        old(self).nav_selected
                    },
                    ..*old(self)
                })
            }),
    {
        let len = self.nav_item_count();
        if len == 0 {
            return;
        }
        let i = match self.nav_selected {
            Some(i) => i,
            None => 0,
        };
        if i < len - 1 {
            self.nav_selected = Some(i + 1);
        }
    }

    /// Moves the navigation cursor up one entry, unless it is on the first.
    pub fn nav_up(&mut self)
        requires
            old(self).playlists@.len() + 4 <= usize::MAX,
        ensures
            ({
                let i = match old(self).nav_selected {
                    Some(i) => i as int,
                    None => 0,
                };
                *final(self) == (App {
                    nav_selected: if i > 0 {
                        Some((i - 1) as usize)
                    } else {
                        old(self).nav_selected
                    },
                    ..*old(self)
                })
            }),
    {
        let len = self.nav_item_count();
        if len == 0 {
            return;
        }
        let i = match self.nav_selected {
            Some(i) => i,
            None => 0,
        };
        if i > 0 {
            self.nav_selected = Some(i - 1);
        }
    }

    /// The length of the list the track cursor moves in.
    fn cursor_list_len(&self) -> (r: usize)
        ensures
            r == self.cursor_len(),
    {
        if self.is_searching && self.filtered_indices.len() > 0 {
            self.filtered_indices.len()
        } else {
            self.displayed_items.len()
        }
    }

    /// Moves the track cursor down one entry, unless the list is empty or
    /// the cursor is on its last entry.
    pub fn track_down(&mut self)
        ensures
            ({
                let i = match old(self).track_selected {
                    Some(i) => i as int,
                    None => 0,
                };
                *final(self) == (App {
                    track_selected: if i + 1 < old(self).cursor_len() {
                        Some((i + 1) as usize)
                    } else {
                        old(self).track_selected
                    },
                    ..*old(self)
                })
            }),
    {
        let len = self.cursor_list_len();
        if len == 0 {
            return;
        }
        let i = match self.track_selected {
            Some(i) => i,
            None => 0,
        };
        if i < len - 1 {
            self.track_selected = Some(i + 1);
        }
    }

    /// Moves the track cursor up one entry, unless the list is empty or the
    /// cursor is on its first entry.
    pub fn track_up(&mut self)
        ensures
            ({
                let i = match old(self).track_selected {
                    Some(i) => i as int,
                    None => 0,
                };
                *final(self) == (App {
                    track_selected: if i > 0 && old(self).cursor_len() > 0 {
                        Some((i - 1) as usize)
                    } else {
                        old(self).track_selected
                    },
                    ..*old(self)
                })
            }),
    {
        let len = self.cursor_list_len();
        if len == 0 {
            return;
        }
        let i = match self.track_selected {
            Some(i) => i,
            None => 0,
        };
        if i > 0 {
            self.track_selected = Some(i - 1);
        }
    }
    /// Selects the entry under the navigation cursor. A fixed entry or a
    /// playlist sets the section shown and asks for its items to be
    /// loaded; all tracks are shown at once, from the library in memory. A
    /// cursor past the playlists loads nothing. Where nothing is left to
    /// load, the track cursor goes to the first item and the list scrolls to
    /// the top; otherwise `show_loaded` does that once the items are there.
    pub fn select_nav(&mut self) -> (r: NavLoad)
        ensures
            ({
                let sel = match old(self).nav_selected {
                    Some(i) => i as int,
                    None => 0,
                };
                &&& sel == 0 ==> r == NavLoad::Shown && final(self).current_nav == NavSection::AllTracks
                    && final(self).current_playlist_id is None && final(self).displayed_items@ == track_items(
                    old(self).tracks@,
                )
                &&& sel == 1 ==> r == NavLoad::Queue && final(self).current_nav == NavSection::Queue
                    && final(self).current_playlist_id is None
                &&& sel == 2 ==> r == NavLoad::RecentlyPlayed { limit: 100 } && final(self).current_nav
                    == NavSection::RecentlyPlayed && final(self).current_playlist_id is None
                &&& sel == 3 ==> r == NavLoad::RecentlyAdded { limit: 100 } && final(self).current_nav
                    == NavSection::RecentlyAdded && final(self).current_playlist_id is None
                &&& 4 <= sel < 4 + old(self).playlists@.len() ==> r == NavLoad::Playlist {
                    id: old(self).playlists@[sel - 4].id,
                } && final(self).current_nav == NavSection::Playlists && final(self).current_playlist_id
                    == Some(old(self).playlists@[sel - 4].id)
                &&& sel >= 4 + old(self).playlists@.len() ==> r == NavLoad::Shown && final(self).current_nav
                    == old(self).current_nav && final(self).current_playlist_id == old(self).current_playlist_id
                &&& sel != 0 ==> final(self).displayed_items@ == old(self).displayed_items@
                &&& r == NavLoad::Shown ==> final(self).track_selected == (if final(self).displayed_items@.len()
                    == 0 {
                    None
                } else {
                    Some(0usize)
                }) && final(self).scroll_offset == 0
                &&& r != NavLoad::Shown ==> final(self).track_selected == old(self).track_selected
                    && final(self).scroll_offset == old(self).scroll_offset
                &&& *final(self) == (App {
                    current_nav: final(self).current_nav,
                    current_playlist_id: final(self).current_playlist_id,
                    displayed_items: final(self).displayed_items,
                    track_selected: final(self).track_selected,
                    scroll_offset: final(self).scroll_offset,
                    ..*old(self)
                })
            }),
    {
        let selected = match self.nav_selected {
            Some(i) => i,
            None => 0,
        };
        let load = if selected == 0 {
            self.load_all_tracks();
            NavLoad::Shown
        } else if selected == 1 {
            self.current_nav = NavSection::Queue;
            self.current_playlist_id = None;
            NavLoad::Queue
        } else if selected == 2 {
            self.current_nav = NavSection::RecentlyPlayed;
            self.current_playlist_id = None;
            NavLoad::RecentlyPlayed { limit: 100 }
        } else if selected == 3 {
            self.current_nav = NavSection::RecentlyAdded;
            self.current_playlist_id = None;
            NavLoad::RecentlyAdded { limit: 100 }
        } else if selected - 4 < self.playlists.len() {
            let id = self.playlists[selected - 4].id;
            self.current_nav = NavSection::Playlists;
            self.current_playlist_id = Some(id);
            NavLoad::Playlist { id }
        } else {
            NavLoad::Shown
        };
        if load == NavLoad::Shown {
            self.reset_track_cursor();
        }
        load
    }

    /// Puts the track cursor on the first item, if any, and scrolls to the
    /// top.
    fn reset_track_cursor(&mut self)
        ensures
            *final(self) == (App {
                track_selected: if old(self).displayed_items@.len() == 0 {
                    None
                } else {
                    Some(0usize)
                },
                scroll_offset: 0,
                ..*old(self)
            }),
    {
        self.track_selected = if self.displayed_items.len() == 0 {
            None
        } else {
            Some(0)
        };
        self.scroll_offset = 0;
    }

    /// Shows all tracks of the library.
    pub fn load_all_tracks(&mut self)
        ensures
            final(self).displayed_items@ == track_items(old(self).tracks@),
            *final(self) == (App {
                current_nav: NavSection::AllTracks,
                current_playlist_id: None,
                displayed_items: final(self).displayed_items,
                ..*old(self)
            }),
    {
        self.current_nav = NavSection::AllTracks;
        self.current_playlist_id = None;
        self.displayed_items = items_of_tracks(&self.tracks);
    }

    /// Shows the items loaded for the selected entry, the track cursor on
    /// the first and the list scrolled to the top.
    pub fn show_loaded(&mut self, items: Vec<MediaItem>)
        ensures
            final(self).displayed_items@ == items@,
            *final(self) == (App {
                displayed_items: final(self).displayed_items,
                track_selected: if items@.len() == 0 {
                    None
                } else {
                    Some(0usize)
                },
                scroll_offset: 0,
                ..*old(self)
            }),
    {
        self.displayed_items = items;
        self.reset_track_cursor();
    }

    /// A playlist could not be loaded: says so, shows nothing, and resets
    /// the track cursor.
    pub fn show_playlist_load_error(&mut self, err: &str)
        ensures
            opt_text(final(self).status_message) == Some("Failed to load playlist: "@ + err@),
            final(self).displayed_items@.len() == 0,
            *final(self) == (App {
                status_message: final(self).status_message,
                displayed_items: final(self).displayed_items,
                track_selected: None,
                scroll_offset: 0,
                ..*old(self)
            }),
    {
        let mut msg = to_owned_string("Failed to load playlist: ");
        push_str(&mut msg, err);
        self.status_message = Some(msg);
        self.displayed_items = Vec::new();
        self.reset_track_cursor();
    }

    /// The index in the shown items of the entry under the track cursor:
    /// through the search results while a search has some.
    pub fn get_selected_track_idx(&self) -> (r: Option<usize>)
        ensures
            r == if self.is_searching && self.filtered_indices@.len() > 0 {
                match self.track_selected {
                    Some(i) => if i < self.filtered_indices@.len() {
                        Some(self.filtered_indices@[i as int])
                    } else {
                        None
                    },
                    None => None,
                }
            } else {
                self.track_selected
            },
    {
        if self.is_searching && self.filtered_indices.len() > 0 {
            match self.track_selected {
                Some(i) => if i < self.filtered_indices.len() {
                    Some(self.filtered_indices[i])
                } else {
                    None
                },
                None => None,
            }
        } else {
            self.track_selected
        }
    }

    /// Switches shuffle and says which way it went.
    pub fn toggle_shuffle(&mut self)
        ensures
            opt_text(final(self).status_message) == Some(
                if final(self).shuffle_enabled {
                    "Shuffle: On"@
                } else {
                    "Shuffle: Off"@
                },
            ),
            *final(self) == (App {
                shuffle_enabled: !old(self).shuffle_enabled,
                status_message: final(self).status_message,
                ..*old(self)
            }),
    {
        self.shuffle_enabled = !self.shuffle_enabled;
        self.status_message = Some(
            if self.shuffle_enabled {
                to_owned_string("Shuffle: On")
            } else {
                to_owned_string("Shuffle: Off")
            },
        );
    }

    /// Moves to the next repeat mode (off, all, one) and says which.
    pub fn cycle_repeat(&mut self)
        ensures
            final(self).repeat_mode == crate::settings::spec_next_repeat_mode(old(self).repeat_mode),
            opt_text(final(self).status_message) == Some(
                match final(self).repeat_mode {
                    RepeatMode::Off => "Repeat: Off"@,
                    RepeatMode::All => "Repeat: All"@,
                    RepeatMode::One => "Repeat: One"@,
                },
            ),
            *final(self) == (App {
                repeat_mode: final(self).repeat_mode,
                status_message: final(self).status_message,
                ..*old(self)
            }),
    {
        self.repeat_mode = self.repeat_mode.cycled();
        self.status_message = Some(
            match self.repeat_mode {
                RepeatMode::Off => to_owned_string("Repeat: Off"),
                RepeatMode::All => to_owned_string("Repeat: All"),
                RepeatMode::One => to_owned_string("Repeat: One"),
            },
        );
    }

    /// Gives the keyboard to the other panel.
    pub fn toggle_panel(&mut self)
        ensures
            *final(self) == (App {
                active_panel: match old(self).active_panel {
                    Panel::Navigation => Panel::TrackList,
                    Panel::TrackList => Panel::Navigation,
                },
                ..*old(self)
            }),
    {
        self.active_panel = match self.active_panel {
            Panel::Navigation => Panel::TrackList,
            Panel::TrackList => Panel::Navigation,
        };
    }

    /// Starts a search with an empty query.
    pub fn start_search(&mut self)
        ensures
            final(self).search_query@.len() == 0,
            final(self).filtered_indices@.len() == 0,
            *final(self) == (App {
                is_searching: true,
                search_query: final(self).search_query,
                filtered_indices: final(self).filtered_indices,
                ..*old(self)
            }),
    {
        self.is_searching = true;
        self.search_query = String::new();
        self.filtered_indices = Vec::new();
    }

    /// Ends the search, forgetting the query and its results.
    pub fn cancel_search(&mut self)
        ensures
            final(self).search_query@.len() == 0,
            final(self).filtered_indices@.len() == 0,
            *final(self) == (App {
                is_searching: false,
                search_query: final(self).search_query,
                filtered_indices: final(self).filtered_indices,
                ..*old(self)
            }),
    {
        self.is_searching = false;
        self.search_query = String::new();
        self.filtered_indices = Vec::new();
    }

    /// Types a character into the query, searches again, and puts the
    /// cursor on the first result, if any.
    pub fn update_search(&mut self, c: char)
        ensures
            final(self).search_query@ == old(self).search_query@.push(c),
            final(self).filtered_indices@ == matching_indices(
                old(self).displayed_items@,
                unicode_lowercase(final(self).search_query@),
            ),
            *final(self) == (App {
                search_query: final(self).search_query,
                filtered_indices: final(self).filtered_indices,
                track_selected: if final(self).filtered_indices@.len() == 0 {
                    None
                } else {
                    Some(0usize)
                },
                ..*old(self)
            }),
    {
        push_char(&mut self.search_query, c);
        self.filter_tracks();
        self.track_selected = if self.filtered_indices.len() == 0 {
            None
        } else {
            Some(0)
        };
    }

    /// Deletes the last character of the query. An empty query shows the
    /// whole list, the cursor on its first item; otherwise the search runs
    /// again and the cursor goes to the first result.
    pub fn search_backspace(&mut self)
        ensures
            final(self).search_query@ == without_last(old(self).search_query@),
            final(self).search_query@.len() == 0 ==> final(self).filtered_indices@.len() == 0
                && final(self).track_selected == (if old(self).displayed_items@.len() == 0 {
                None
            } else {
                Some(0usize)
            }),
            final(self).search_query@.len() > 0 ==> final(self).filtered_indices@ == matching_indices(
                old(self).displayed_items@,
                unicode_lowercase(final(self).search_query@),
            ) && final(self).track_selected == (if final(self).filtered_indices@.len() == 0 {
                None
            } else {
                Some(0usize)
            }),
            *final(self) == (App {
                search_query: final(self).search_query,
                filtered_indices: final(self).filtered_indices,
                track_selected: final(self).track_selected,
                ..*old(self)
            }),
    {
        self.search_query = remove_last_char(&self.search_query);
        if self.search_query.as_str().is_empty() {
            self.filtered_indices = Vec::new();
            self.track_selected = if self.displayed_items.len() == 0 {
                None
            } else {
                Some(0)
            };
        } else {
            self.filter_tracks();
            self.track_selected = if self.filtered_indices.len() == 0 {
                None
            } else {
                Some(0)
            };
        }
    }

    /// Runs the search: the indices of the shown items whose title, artist
    /// or album, lowercased, contains the lowercased query.
    pub fn filter_tracks(&mut self)
        ensures
            final(self).filtered_indices@ == matching_indices(
                old(self).displayed_items@,
                unicode_lowercase(old(self).search_query@),
            ),
            *final(self) == (App { filtered_indices: final(self).filtered_indices, ..*old(self) }),
    {
        let query = to_lowercase(self.search_query.as_str());
        let mut found: Vec<usize> = Vec::new();
        let mut i: usize = 0;
        while i < self.displayed_items.len()
            invariant
                i <= self.displayed_items@.len(),
                query@ == unicode_lowercase(self.search_query@),
                found@ == matching_indices(self.displayed_items@.take(i as int), query@),
            decreases self.displayed_items@.len() - i,
        {
            let item = &self.displayed_items[i];
            let title = to_lowercase(item.title());
            let artist = to_lowercase(item.artist());
            let album = to_lowercase(item.album());
            proof {
                assert(self.displayed_items@.take(i + 1).drop_last() =~= self.displayed_items@.take(i as int));
                assert(self.displayed_items@.take(i + 1).last() == *item);
            }
            if str_contains(title.as_str(), query.as_str()) || str_contains(artist.as_str(), query.as_str())
                || str_contains(album.as_str(), query.as_str()) {
                found.push(i);
            }
            i = i + 1;
        }
        assert(self.displayed_items@.take(self.displayed_items@.len() as int) =~= self.displayed_items@);
        self.filtered_indices = found;
    }

    /// The number of entries the track list shows: the search results
    /// while a search has some, none while a search has none, else all
    /// items.
    pub fn get_total_items(&self) -> (r: usize)
        ensures
            r == if self.is_searching && self.filtered_indices@.len() > 0 {
                self.filtered_indices@.len()
            } else if self.is_searching {
                0
            } else {
                self.displayed_items@.len()
            },
    {
        if self.is_searching && self.filtered_indices.len() > 0 {
            self.filtered_indices.len()
        } else if self.is_searching {
            0
        } else {
            self.displayed_items.len()
        }
    }

    /// Sets how many rows the track list has room for.
    pub fn set_visible_height(&mut self, height: usize)
        ensures
            *final(self) == (App { visible_height: height, ..*old(self) }),
    {
        self.visible_height = height;
    }

    /// Scrolls the track list just enough to show the entry under the
    /// cursor.
    pub fn update_scroll_for_selection(&mut self)
        requires
            scroll_computable(
                match old(self).track_selected {
                    Some(i) => i,
                    None => 0,
                },
                old(self).scroll_offset,
                old(self).visible_height,
            ),
        ensures
            *final(self) == (App {
                scroll_offset: scroll_for(
                    match old(self).track_selected {
                        Some(i) => i,
                        None => 0,
                    },
                    old(self).scroll_offset,
                    old(self).visible_height,
                ),
                ..*old(self)
            }),
    {
        let selected = match self.track_selected {
            Some(i) => i,
            None => 0,
        };
        self.scroll_offset = compute_scroll(selected, self.scroll_offset, self.visible_height);
    }

    /// The entries the track list shows, from the scroll position that
    /// keeps the cursor's entry visible, and that position: up to
    /// `visible_height` search results (those whose index is in the list)
    /// while a search has some, none while a search has none, else up to
    /// `visible_height` items.
    pub fn get_visible_items(&self) -> (r: (Vec<&MediaItem>, usize))
        requires
            scroll_computable(
                match self.track_selected {
                    Some(i) => i,
                    None => 0,
                },
                self.scroll_offset,
                self.visible_height,
            ),
        ensures
            r.1 == scroll_for(
                match self.track_selected {
                    Some(i) => i,
                    None => 0,
                },
                self.scroll_offset,
                self.visible_height,
            ),
            r.0@.map_values(|x: &MediaItem| *x) == if self.is_searching && self.filtered_indices@.len() > 0 {
                items_at(window(self.filtered_indices@, r.1 as int, self.visible_height as int), self.displayed_items@)
            } else if self.is_searching {
                Seq::empty()
            } else {
                window(self.displayed_items@, r.1 as int, self.visible_height as int)
            },
    {
        let selected = match self.track_selected {
            Some(i) => i,
            None => 0,
        };
        let scroll = compute_scroll(selected, self.scroll_offset, self.visible_height);
        let mut out: Vec<&MediaItem> = Vec::new();
        if self.is_searching && self.filtered_indices.len() > 0 {
            let ghost w = window(self.filtered_indices@, scroll as int, self.visible_height as int);
            let end = window_end(self.filtered_indices.len(), scroll, self.visible_height);
            let start = if scroll <= end {
                scroll
            } else {
                end
            };
            let mut k: usize = start;
            proof {
                if scroll > self.filtered_indices@.len() {
                    assert(w =~= Seq::<usize>::empty());
                    assert(self.filtered_indices@.subrange(start as int, end as int) =~= Seq::<usize>::empty());
                }
                assert(self.filtered_indices@.subrange(start as int, start as int) =~= Seq::<usize>::empty());
            }
            while k < end
                invariant
                    start <= k <= end,
                    end <= self.filtered_indices@.len(),
                    w == self.filtered_indices@.subrange(start as int, end as int),
                    out@.map_values(|x: &MediaItem| *x) == items_at(
                        self.filtered_indices@.subrange(start as int, k as int),
                        self.displayed_items@,
                    ),
                decreases end - k,
            {
                let j = self.filtered_indices[k];
                proof {
                    let a = self.filtered_indices@.subrange(start as int, k + 1);
                    assert(a.drop_last() =~= self.filtered_indices@.subrange(start as int, k as int));
                    assert(a.last() == j);
                }
                if j < self.displayed_items.len() {
                    let ghost prev = out@;
                    out.push(&self.displayed_items[j]);
                    assert(out@.map_values(|x: &MediaItem| *x) =~= prev.map_values(|x: &MediaItem| *x).push(
                        self.displayed_items@[j as int],
                    ));
                }
                k = k + 1;
            }
        } else if !self.is_searching {
            let end = window_end(self.displayed_items.len(), scroll, self.visible_height);
            let start = if scroll <= end {
                scroll
            } else {
                end
            };
            let mut k: usize = start;
            assert(out@.map_values(|x: &MediaItem| *x) =~= self.displayed_items@.subrange(start as int, start as int));
            while k < end
                invariant
                    start <= k <= end,
                    end <= self.displayed_items@.len(),
                    out@.map_values(|x: &MediaItem| *x) == self.displayed_items@.subrange(start as int, k as int),
                decreases end - k,
            {
                let ghost prev = out@;
                out.push(&self.displayed_items[k]);
                assert(out@.map_values(|x: &MediaItem| *x) =~= prev.map_values(|x: &MediaItem| *x).push(
                    self.displayed_items@[k as int],
                ));
                assert(out@.map_values(|x: &MediaItem| *x) =~= self.displayed_items@.subrange(start as int, k + 1));
                k = k + 1;
            }
            proof {
                if scroll > self.displayed_items@.len() {
                    assert(out@.map_values(|x: &MediaItem| *x) =~= window(
                        self.displayed_items@,
                        scroll as int,
                        self.visible_height as int,
                    ));
                }
            }
        }
        (out, scroll)
    }

    /// Opens the menu of a track, its first entry selected.
    pub fn open_context_menu(&mut self, track_idx: usize)
        ensures
            final(self).context_menu matches Some(m) && m.track_idx == track_idx && m.selected == 0
                && m.items@.map_values(|x: &str| x@) == context_menu_entries(),
            *final(self) == (App {
                context_menu: final(self).context_menu,
                ui_mode: UiMode::ContextMenu,
                ..*old(self)
            }),
    {
        let items = vec!["Add to queue", "Add to playlist", "Create new playlist"];
        assert(items@.map_values(|x: &str| x@) =~= context_menu_entries());
        self.context_menu = Some(ContextMenu { track_idx, selected: 0, items });
        self.ui_mode = UiMode::ContextMenu;
    }

    /// Closes the track menu and whatever it opened.
    pub fn close_context_menu(&mut self)
        ensures
            final(self).new_playlist_name@.len() == 0,
            *final(self) == (App {
                context_menu: None,
                ui_mode: UiMode::Normal,
                playlist_select_idx: 0,
                new_playlist_name: final(self).new_playlist_name,
                ..*old(self)
            }),
    {
        self.context_menu = None;
        self.ui_mode = UiMode::Normal;
        self.playlist_select_idx = 0;
        self.new_playlist_name = String::new();
    }

    /// Moves up in the track menu, unless on its first entry.
    pub fn context_menu_up(&mut self)
        ensures
            match old(self).context_menu {
                Some(m) => final(self).context_menu matches Some(n) && n.track_idx == m.track_idx && n.items
                    == m.items && n.selected == (if m.selected > 0 {
                    (m.selected - 1) as usize
                } else {
                    m.selected
                }),
                None => final(self).context_menu is None,
            },
            *final(self) == (App { context_menu: final(self).context_menu, ..*old(self) }),
    {
        match &mut self.context_menu {
            Some(menu) => {
                if menu.selected > 0 {
                    menu.selected = menu.selected - 1;
                }
            },
            None => {},
        }
    }

    /// Moves down in the track menu, unless on its last entry.
    pub fn context_menu_down(&mut self)
        ensures
            match old(self).context_menu {
                Some(m) => final(self).context_menu matches Some(n) && n.track_idx == m.track_idx && n.items
                    == m.items && n.selected == (if m.selected + 1 < m.items@.len() {
                    (m.selected + 1) as usize
                } else {
                    m.selected
                }),
                None => final(self).context_menu is None,
            },
            *final(self) == (App { context_menu: final(self).context_menu, ..*old(self) }),
    {
        match &mut self.context_menu {
            Some(menu) => {
                if menu.selected < menu.items.len() && menu.selected + 1 < menu.items.len() {
                    menu.selected = menu.selected + 1;
                }
            },
            None => {},
        }
    }

    /// Chooses the selected entry of the track menu: adding to the queue is
    /// the caller's to do (then `report_queued` and `close_context_menu`);
    /// adding to a playlist asks for the playlists (then
    /// `begin_playlist_select`); a new playlist asks for its name.
    pub fn context_menu_select(&mut self) -> (r: ContextAction)
        ensures
            match old(self).context_menu {
                None => r == ContextAction::Nothing && *final(self) == *old(self),
                Some(m) => if m.selected == 0 {
                    r == ContextAction::AddToQueue { track_idx: m.track_idx } && *final(self) == *old(self)
                } else if m.selected == 1 {
                    r == ContextAction::ChoosePlaylist && *final(self) == *old(self)
                } else if m.selected == 2 {
                    r == ContextAction::Nothing && final(self).new_playlist_name@.len() == 0
                        && *final(self) == (App {
                        new_playlist_name: final(self).new_playlist_name,
                        ui_mode: UiMode::NewPlaylistInput,
                        ..*old(self)
                    })
                } else {
                    r == ContextAction::Nothing && *final(self) == *old(self)
                },
            },
    {
        let (track_idx, selected) = match &self.context_menu {
            Some(menu) => (menu.track_idx, menu.selected),
            None => {
                return ContextAction::Nothing;
            },
        };
        if selected == 0 {
            ContextAction::AddToQueue { track_idx }
        } else if selected == 1 {
            ContextAction::ChoosePlaylist
        } else if selected == 2 {
            self.new_playlist_name = String::new();
            self.ui_mode = UiMode::NewPlaylistInput;
            ContextAction::Nothing
        } else {
            ContextAction::Nothing
        }
    }

    /// An item was added to the queue: says which.
    pub fn report_queued(&mut self, idx: usize)
        requires
            idx < old(self).displayed_items@.len(),
        ensures
            opt_text(final(self).status_message) == Some(
                "Added to queue: "@ + item_title(old(self).displayed_items@[idx as int]),
            ),
            *final(self) == (App { status_message: final(self).status_message, ..*old(self) }),
    {
        let mut msg = to_owned_string("Added to queue: ");
        push_str(&mut msg, self.displayed_items[idx].title());
        self.status_message = Some(msg);
    }

    /// Shows the playlists to choose from, the first selected.
    pub fn begin_playlist_select(&mut self, playlists: Vec<Playlist>)
        ensures
            *final(self) == (App {
                playlists: playlists,
                playlist_select_idx: 0,
                ui_mode: UiMode::PlaylistSelect,
                ..*old(self)
            }),
    {
        self.playlists = playlists;
        self.playlist_select_idx = 0;
        self.ui_mode = UiMode::PlaylistSelect;
    }

    /// Moves up among the playlists, unless on the first.
    pub fn playlist_select_up(&mut self)
        ensures
            *final(self) == (App {
                playlist_select_idx: if old(self).playlist_select_idx > 0 {
                    (old(self).playlist_select_idx - 1) as usize
                } else {
                    old(self).playlist_select_idx
                },
                ..*old(self)
            }),
    {
        if self.playlist_select_idx > 0 {
            self.playlist_select_idx = self.playlist_select_idx - 1;
        }
    }

    /// Moves down among the playlists, unless on the last.
    pub fn playlist_select_down(&mut self)
        ensures
            *final(self) == (App {
                playlist_select_idx: if old(self).playlist_select_idx + 1 < old(self).playlists@.len() {
                    (old(self).playlist_select_idx + 1) as usize
                } else {
                    old(self).playlist_select_idx
                },
                ..*old(self)
            }),
    {
        if self.playlist_select_idx < self.playlists.len() && self.playlist_select_idx + 1 < self.playlists.len() {
            self.playlist_select_idx = self.playlist_select_idx + 1;
        }
    }

    /// Confirms the chosen playlist: when the menu's track and the playlist
    /// exist, the caller adds the track (playlist index, track index) and
    /// then calls `report_added_to_playlist`; otherwise the menu closes.
    pub fn playlist_select_confirm(&mut self) -> (r: Option<(usize, usize)>)
        ensures
            match old(self).context_menu {
                Some(m) => if old(self).playlist_select_idx < old(self).playlists@.len() && m.track_idx
                    < old(self).displayed_items@.len() {
                    r == Some((old(self).playlist_select_idx, m.track_idx)) && *final(self) == *old(self)
                } else {
                    r is None && final(self).new_playlist_name@.len() == 0 && *final(self) == (App {
                        context_menu: None,
                        ui_mode: UiMode::Normal,
                        playlist_select_idx: 0,
                        new_playlist_name: final(self).new_playlist_name,
                        ..*old(self)
                    })
                },
                None => r is None && final(self).new_playlist_name@.len() == 0 && *final(self) == (App {
                    context_menu: None,
                    ui_mode: UiMode::Normal,
                    playlist_select_idx: 0,
                    new_playlist_name: final(self).new_playlist_name,
                    ..*old(self)
                }),
            },
    {
        let track_idx = match &self.context_menu {
            Some(menu) => menu.track_idx,
            None => {
                self.close_context_menu();
                return None;
            },
        };
        if self.playlist_select_idx < self.playlists.len() && track_idx < self.displayed_items.len() {
            Some((self.playlist_select_idx, track_idx))
        } else {
            self.close_context_menu();
            None
        }
    }

    /// The caller tried to add an item to a playlist: says how it went and
    /// closes the menu.
    pub fn report_added_to_playlist(&mut self, playlist_idx: usize, track_idx: usize, outcome: Result<(), String>)
        requires
            playlist_idx < old(self).playlists@.len(),
            track_idx < old(self).displayed_items@.len(),
        ensures
            opt_text(final(self).status_message) == Some(
                match outcome {
                    Ok(()) => "Added '"@ + item_title(old(self).displayed_items@[track_idx as int]) + "' to '"@
                        + old(self).playlists@[playlist_idx as int].name@ + "'"@,
                    Err(e) => "Error: "@ + e@,
                },
            ),
            final(self).new_playlist_name@.len() == 0,
            *final(self) == (App {
                status_message: final(self).status_message,
                context_menu: None,
                ui_mode: UiMode::Normal,
                playlist_select_idx: 0,
                new_playlist_name: final(self).new_playlist_name,
                ..*old(self)
            }),
    {
        let msg = match outcome {
            Ok(()) => {
                let mut m = to_owned_string("Added '");
                push_str(&mut m, self.displayed_items[track_idx].title());
                push_str(&mut m, "' to '");
                push_str(&mut m, self.playlists[playlist_idx].name.as_str());
                push_str(&mut m, "'");
                m
            },
            Err(e) => {
                let mut m = to_owned_string("Error: ");
                push_str(&mut m, e.as_str());
                m
            },
        };
        self.status_message = Some(msg);
        self.close_context_menu();
    }

    /// Types a character into the new playlist's name.
    pub fn new_playlist_input(&mut self, c: char)
        ensures
            final(self).new_playlist_name@ == old(self).new_playlist_name@.push(c),
            *final(self) == (App { new_playlist_name: final(self).new_playlist_name, ..*old(self) }),
    {
        push_char(&mut self.new_playlist_name, c);
    }

    /// Deletes the last character of the new playlist's name.
    pub fn new_playlist_backspace(&mut self)
        ensures
            final(self).new_playlist_name@ == without_last(old(self).new_playlist_name@),
            *final(self) == (App { new_playlist_name: final(self).new_playlist_name, ..*old(self) }),
    {
        self.new_playlist_name = remove_last_char(&self.new_playlist_name);
    }

    /// Confirms the new playlist's name: an empty name is refused with a
    /// message; without a track menu the menu closes; otherwise the caller
    /// creates the playlist with that name, adds the menu's track when the
    /// list has it, and calls `report_new_playlist`.
    pub fn new_playlist_confirm(&mut self) -> (r: Option<(String, usize)>)
        ensures
            old(self).new_playlist_name@.len() == 0 ==> r is None && opt_text(final(self).status_message)
                == Some("Playlist name cannot be empty"@) && *final(self) == (App {
                status_message: final(self).status_message,
                ..*old(self)
            }),
            old(self).new_playlist_name@.len() > 0 ==> match old(self).context_menu {
                Some(m) => r matches Some((name, idx)) && name@ == old(self).new_playlist_name@ && idx
                    == m.track_idx && *final(self) == *old(self),
                None => r is None && final(self).new_playlist_name@.len() == 0 && *final(self) == (App {
                    context_menu: None,
                    ui_mode: UiMode::Normal,
                    playlist_select_idx: 0,
                    new_playlist_name: final(self).new_playlist_name,
                    ..*old(self)
                }),
            },
    {
        if self.new_playlist_name.as_str().is_empty() {
            self.status_message = Some(to_owned_string("Playlist name cannot be empty"));
            return None;
        }
        match &self.context_menu {
            Some(menu) => Some((self.new_playlist_name.clone(), menu.track_idx)),
            None => {
                self.close_context_menu();
                None
            },
        }
    }

    /// The caller tried to create the playlist (and to add the track, when
    /// the list had it): says how it went, takes the playlists read back
    /// after a creation, and closes the menu.
    pub fn report_new_playlist(&mut self, outcome: NewPlaylistOutcome)
        ensures
            match outcome {
                NewPlaylistOutcome::CreateFailed { error } => opt_text(final(self).status_message) == Some(
                    "Failed to create playlist: "@ + error@,
                ) && final(self).playlists == old(self).playlists,
                NewPlaylistOutcome::Created { added, playlists } => final(self).playlists == playlists
                    && match added {
                    Some(Ok(())) => opt_text(final(self).status_message) == Some(
                        "Created '"@ + old(self).new_playlist_name@ + "' and added track"@,
                    ),
                    Some(Err(e)) => opt_text(final(self).status_message) == Some(
                        "Created playlist but failed to add track: "@ + e@,
                    ),
                    None => final(self).status_message == old(self).status_message,
                },
            },
            final(self).new_playlist_name@.len() == 0,
            *final(self) == (App {
                status_message: final(self).status_message,
                playlists: final(self).playlists,
                context_menu: None,
                ui_mode: UiMode::Normal,
                playlist_select_idx: 0,
                new_playlist_name: final(self).new_playlist_name,
                ..*old(self)
            }),
    {
        match outcome {
            NewPlaylistOutcome::CreateFailed { error } => {
                let mut m = to_owned_string("Failed to create playlist: ");
                push_str(&mut m, error.as_str());
                self.status_message = Some(m);
            },
            NewPlaylistOutcome::Created { added, playlists } => {
                match added {
                    Some(Ok(())) => {
                        let mut m = to_owned_string("Created '");
                        push_str(&mut m, self.new_playlist_name.as_str());
                        push_str(&mut m, "' and added track");
                        self.status_message = Some(m);
                    },
                    Some(Err(e)) => {
                        let mut m = to_owned_string("Created playlist but failed to add track: ");
                        push_str(&mut m, e.as_str());
                        self.status_message = Some(m);
                    },
                    None => {},
                }
                self.playlists = playlists;
            },
        }
        self.close_context_menu();
    }

    /// Opens the menu of a playlist, its first entry selected and the
    /// rename field holding the current name.
    pub fn open_playlist_menu(&mut self, playlist_id: i32, playlist_name: String)
        ensures
            final(self).playlist_menu matches Some(m) && m.playlist_id == playlist_id && m.playlist_name@
                == playlist_name@ && m.selected == 0 && m.items@.map_values(|x: &str| x@)
                == playlist_menu_entries(),
            final(self).rename_playlist_name@ == playlist_name@,
            *final(self) == (App {
                playlist_menu: final(self).playlist_menu,
                rename_playlist_name: final(self).rename_playlist_name,
                ui_mode: UiMode::PlaylistContextMenu,
                ..*old(self)
            }),
    {
        let items = vec!["Rename playlist", "Delete playlist"];
        assert(items@.map_values(|x: &str| x@) =~= playlist_menu_entries());
        self.playlist_menu = Some(
            PlaylistMenu { playlist_id, playlist_name: playlist_name.clone(), selected: 0, items },
        );
        self.rename_playlist_name = playlist_name;
        self.ui_mode = UiMode::PlaylistContextMenu;
    }

    /// Closes the playlist menu and its rename field.
    pub fn close_playlist_menu(&mut self)
        ensures
            final(self).rename_playlist_name@.len() == 0,
            *final(self) == (App {
                playlist_menu: None,
                ui_mode: UiMode::Normal,
                rename_playlist_name: final(self).rename_playlist_name,
                ..*old(self)
            }),
    {
        self.playlist_menu = None;
        self.ui_mode = UiMode::Normal;
        self.rename_playlist_name = String::new();
    }

    /// Moves up in the playlist menu, unless on its first entry.
    pub fn playlist_menu_up(&mut self)
        ensures
            match old(self).playlist_menu {
                Some(m) => final(self).playlist_menu matches Some(n) && n.playlist_id == m.playlist_id
                    && n.playlist_name == m.playlist_name && n.items == m.items && n.selected == (if m.selected
                    > 0 {
                    (m.selected - 1) as usize
                } else {
                    m.selected
                }),
                None => final(self).playlist_menu is None,
            },
            *final(self) == (App { playlist_menu: final(self).playlist_menu, ..*old(self) }),
    {
        match &mut self.playlist_menu {
            Some(menu) => {
                if menu.selected > 0 {
                    menu.selected = menu.selected - 1;
                }
            },
            None => {},
        }
    }

    /// Moves down in the playlist menu, unless on its last entry.
    pub fn playlist_menu_down(&mut self)
        ensures
            match old(self).playlist_menu {
                Some(m) => final(self).playlist_menu matches Some(n) && n.playlist_id == m.playlist_id
                    && n.playlist_name == m.playlist_name && n.items == m.items && n.selected == (if m.selected
                    + 1 < m.items@.len() {
                    (m.selected + 1) as usize
                } else {
                    m.selected
                }),
                None => final(self).playlist_menu is None,
            },
            *final(self) == (App { playlist_menu: final(self).playlist_menu, ..*old(self) }),
    {
        match &mut self.playlist_menu {
            Some(menu) => {
                if menu.selected < menu.items.len() && menu.selected + 1 < menu.items.len() {
                    menu.selected = menu.selected + 1;
                }
            },
            None => {},
        }
    }

    /// Chooses the selected entry of the playlist menu: renaming asks for
    /// the new name; deleting is the caller's to do, for the playlist id
    /// returned, and then `report_deleted`.
    pub fn playlist_menu_select(&mut self) -> (r: Option<i32>)
        ensures
            match old(self).playlist_menu {
                None => r is None && *final(self) == *old(self),
                Some(m) => if m.selected == 0 {
                    r is None && *final(self) == (App { ui_mode: UiMode::RenamePlaylistInput, ..*old(self) })
                } else if m.selected == 1 {
                    r == Some(m.playlist_id) && *final(self) == *old(self)
                } else {
                    r is None && *final(self) == *old(self)
                },
            },
    {
        let (playlist_id, selected) = match &self.playlist_menu {
            Some(menu) => (menu.playlist_id, menu.selected),
            None => {
                return None;
            },
        };
        if selected == 0 {
            self.ui_mode = UiMode::RenamePlaylistInput;
            None
        } else if selected == 1 {
            Some(playlist_id)
        } else {
            None
        }
    }

    /// The caller tried to delete a playlist: on success, says so, takes
    /// the playlists read back and, when the navigation cursor now lies
    /// past the entries, puts it on the first and shows all tracks; on
    /// failure, says why. The menu closes.
    pub fn report_deleted(&mut self, outcome: Result<Vec<Playlist>, String>)
        requires
            outcome matches Ok(p) ==> p@.len() + 4 <= usize::MAX,
        ensures
            final(self).rename_playlist_name@.len() == 0,
            match outcome {
                Ok(p) => {
                    &&& opt_text(final(self).status_message) == Some("Playlist deleted"@)
                    &&& final(self).playlists == p
                    &&& if old(self).nav_selected matches Some(sel) && sel >= 4 + p@.len() {
                        final(self).nav_selected == Some(0usize) && final(self).current_nav
                            == NavSection::AllTracks && final(self).current_playlist_id is None
                            && final(self).displayed_items@ == track_items(old(self).tracks@)
                    } else {
                        final(self).nav_selected == old(self).nav_selected && final(self).current_nav
                            == old(self).current_nav && final(self).current_playlist_id
                            == old(self).current_playlist_id && final(self).displayed_items
                            == old(self).displayed_items
                    }
                },
                Err(e) => {
                    &&& opt_text(final(self).status_message) == Some("Failed to delete: "@ + e@)
                    &&& final(self).playlists == old(self).playlists
                    &&& final(self).nav_selected == old(self).nav_selected
                    &&& final(self).current_nav == old(self).current_nav
                    &&& final(self).current_playlist_id == old(self).current_playlist_id
                    &&& final(self).displayed_items == old(self).displayed_items
                },
            },
            *final(self) == (App {
                status_message: final(self).status_message,
                playlists: final(self).playlists,
                nav_selected: final(self).nav_selected,
                current_nav: final(self).current_nav,
                current_playlist_id: final(self).current_playlist_id,
                displayed_items: final(self).displayed_items,
                playlist_menu: None,
                ui_mode: UiMode::Normal,
                rename_playlist_name: final(self).rename_playlist_name,
                ..*old(self)
            }),
    {
        match outcome {
            Ok(p) => {
                self.status_message = Some(to_owned_string("Playlist deleted"));
                self.playlists = p;
                let nav_count = self.nav_item_count();
                match self.nav_selected {
                    Some(sel) => {
                        if sel >= nav_count {
                            self.nav_selected = Some(0);
                            self.load_all_tracks();
                        }
                    },
                    None => {},
                }
            },
            Err(e) => {
                let mut m = to_owned_string("Failed to delete: ");
                push_str(&mut m, e.as_str());
                self.status_message = Some(m);
            },
        }
        self.close_playlist_menu();
    }

    /// Types a character into the playlist's new name.
    pub fn rename_playlist_input(&mut self, c: char)
        ensures
            final(self).rename_playlist_name@ == old(self).rename_playlist_name@.push(c),
            *final(self) == (App { rename_playlist_name: final(self).rename_playlist_name, ..*old(self) }),
    {
        push_char(&mut self.rename_playlist_name, c);
    }

    /// Deletes the last character of the playlist's new name.
    pub fn rename_playlist_backspace(&mut self)
        ensures
            final(self).rename_playlist_name@ == without_last(old(self).rename_playlist_name@),
            *final(self) == (App { rename_playlist_name: final(self).rename_playlist_name, ..*old(self) }),
    {
        self.rename_playlist_name = remove_last_char(&self.rename_playlist_name);
    }

    /// Confirms the new name: an empty name is refused with a message;
    /// without a playlist menu the menu closes; otherwise the caller renames
    /// the playlist (id, name) and calls `report_renamed`.
    pub fn rename_playlist_confirm(&mut self) -> (r: Option<(i32, String)>)
        ensures
            old(self).rename_playlist_name@.len() == 0 ==> r is None && opt_text(final(self).status_message)
                == Some("Name cannot be empty"@) && *final(self) == (App {
                status_message: final(self).status_message,
                ..*old(self)
            }),
            old(self).rename_playlist_name@.len() > 0 ==> match old(self).playlist_menu {
                Some(m) => r matches Some((id, name)) && id == m.playlist_id && name@
                    == old(self).rename_playlist_name@ && *final(self) == *old(self),
                None => r is None && final(self).rename_playlist_name@.len() == 0 && *final(self) == (App {
                    playlist_menu: None,
                    ui_mode: UiMode::Normal,
                    rename_playlist_name: final(self).rename_playlist_name,
                    ..*old(self)
                }),
            },
    {
        if self.rename_playlist_name.as_str().is_empty() {
            self.status_message = Some(to_owned_string("Name cannot be empty"));
            return None;
        }
        match &self.playlist_menu {
            Some(menu) => Some((menu.playlist_id, self.rename_playlist_name.clone())),
            None => {
                self.close_playlist_menu();
                None
            },
        }
    }

    /// The caller tried to rename a playlist: on success, says so and takes
    /// the playlists read back; on failure, says why. The menu closes.
    pub fn report_renamed(&mut self, outcome: Result<Vec<Playlist>, String>)
        ensures
            final(self).rename_playlist_name@.len() == 0,
            match outcome {
                Ok(p) => opt_text(final(self).status_message) == Some(
                    "Renamed to '"@ + old(self).rename_playlist_name@ + "'"@,
                ) && final(self).playlists == p,
                Err(e) => opt_text(final(self).status_message) == Some("Failed to rename: "@ + e@)
                    && final(self).playlists == old(self).playlists,
            },
            *final(self) == (App {
                status_message: final(self).status_message,
                playlists: final(self).playlists,
                playlist_menu: None,
                ui_mode: UiMode::Normal,
                rename_playlist_name: final(self).rename_playlist_name,
                ..*old(self)
            }),
    {
        match outcome {
            Ok(p) => {
                let mut m = to_owned_string("Renamed to '");
                push_str(&mut m, self.rename_playlist_name.as_str());
                push_str(&mut m, "'");
                self.status_message = Some(m);
                self.playlists = p;
            },
            Err(e) => {
                let mut m = to_owned_string("Failed to rename: ");
                push_str(&mut m, e.as_str());
                self.status_message = Some(m);
            },
        }
        self.close_playlist_menu();
    }

    /// Shows the help screen.
    pub fn show_help(&mut self)
        ensures
            *final(self) == (App { ui_mode: UiMode::Help, ..*old(self) }),
    {
        self.ui_mode = UiMode::Help;
    }

    /// Closes the help screen.
    pub fn close_help(&mut self)
        ensures
            *final(self) == (App { ui_mode: UiMode::Normal, ..*old(self) }),
    {
        self.ui_mode = UiMode::Normal;
    }

    /// Where the playing track or video stands in the shown list: the
    /// first entry with the playing video's id, else, when no video plays,
    /// the first entry with the playing track's file.
    pub fn current_playing_index(&self, playing_track: Option<&str>, playing_video: Option<&str>) -> (r: Option<usize>)
        ensures
            r == playing_position(
                self.displayed_items@,
                opt_str_view(playing_track),
                opt_str_view(playing_video),
            ),
    {
        let ghost tv = opt_str_view(playing_track);
        let ghost vv = opt_str_view(playing_video);
        let _count = self.displayed_items.len();
        proof {
            lemma_first_index_from(self.displayed_items@, tv, vv, 0);
        }
        let mut i: usize = 0;
        while i < self.displayed_items.len()
            invariant
                i <= self.displayed_items@.len(),
                tv == opt_str_view(playing_track),
                vv == opt_str_view(playing_video),
                forall|k: int| 0 <= k < i ==> !is_playing_entry(#[trigger] self.displayed_items@[k], tv, vv),
                match first_index_from(self.displayed_items@, vv, tv, 0) {
                    Some(p) => 0 <= p < self.displayed_items@.len() && is_playing_entry(
                        self.displayed_items@[p as int],
                        tv,
                        vv,
                    ) && forall|k: int| 0 <= k < p ==> !is_playing_entry(#[trigger] self.displayed_items@[k], tv, vv),
                    None => forall|k: int|
                        0 <= k < self.displayed_items@.len() ==> !is_playing_entry(
                            #[trigger] self.displayed_items@[k],
                            tv,
                            vv,
                        ),
                },
            decreases self.displayed_items@.len() - i,
        {
            let item = &self.displayed_items[i];
            let hit = match playing_video {
                Some(v) => match item.youtube_video_id() {
                    Some(id) => str_eq(id, v),
                    None => false,
                },
                None => match playing_track {
                    Some(t) => match item.track_filename() {
                        Some(f) => str_eq(f, t),
                        None => false,
                    },
                    None => false,
                },
            };
            assert(hit == is_playing_entry(self.displayed_items@[i as int], tv, vv));
            if hit {
                return Some(i);
            }
            i = i + 1;
        }
        None
    }

    /// What plays next once the queue gave nothing, given the shuffle draw
    /// `draw`: with repeat one, the playing track again, else the playing
    /// video again; else, when the playing entry is in the shown list, the
    /// entry at `draw` when shuffling, the next entry, the first again with
    /// repeat all, or nothing more (stop); else nothing.
    pub fn next_step_with_draw(&self, playing_track: Option<&str>, playing_video: Option<&str>, draw: usize) -> (r: NextStep)
        requires
            self.shuffle_enabled ==> draw < self.displayed_items@.len(),
        ensures
            r == next_step_spec(
                self.repeat_mode,
                self.shuffle_enabled,
                playing_track is Some,
                playing_video is Some,
                playing_position(
                    self.displayed_items@,
                    opt_str_view(playing_track),
                    opt_str_view(playing_video),
                ),
                self.displayed_items@.len(),
                draw,
            ),
    {
        if self.repeat_mode == RepeatMode::One {
            if playing_track.is_some() {
                return NextStep::ReplayTrack;
            }
            if playing_video.is_some() {
                return NextStep::ReplayVideo;
            }
        }
        let _count = self.displayed_items.len();
        proof {
            lemma_position_in_range(self.displayed_items@, opt_str_view(playing_track), opt_str_view(playing_video));
        }
        match self.current_playing_index(playing_track, playing_video) {
            Some(current) => {
                let len = self.displayed_items.len();
                if self.shuffle_enabled {
                    NextStep::Play { index: draw }
                } else if current + 1 < len {
                    NextStep::Play { index: current + 1 }
                } else if self.repeat_mode == RepeatMode::All {
                    NextStep::Play { index: 0 }
                } else {
                    NextStep::Stop
                }
            },
            None => NextStep::Nothing,
        }
    }

    /// What plays next once the queue gave nothing; when shuffling, the
    /// entry is drawn uniformly from the whole list.
    pub fn next_step(&self, playing_track: Option<&str>, playing_video: Option<&str>) -> (r: NextStep)
        ensures
            exists|draw: usize|
                (self.shuffle_enabled && self.displayed_items@.len() > 0 ==> draw < self.displayed_items@.len())
                    && r == #[trigger] next_step_spec(
                    self.repeat_mode,
                    self.shuffle_enabled,
                    playing_track is Some,
                    playing_video is Some,
                    playing_position(
                        self.displayed_items@,
                        opt_str_view(playing_track),
                        opt_str_view(playing_video),
                    ),
                    self.displayed_items@.len(),
                    draw,
                ),
            r matches NextStep::Play { index } ==> index < self.displayed_items@.len(),
    {
        let len = self.displayed_items.len();
        let draw = if self.shuffle_enabled && len > 0 {
            crate::playback::random_below(len)
        } else {
            0
        };
        if self.shuffle_enabled && len == 0 {
            proof {
                lemma_no_position_in_empty(
                    self.displayed_items@,
                    opt_str_view(playing_track),
                    opt_str_view(playing_video),
                );
            }
            let ghost spec0 = next_step_spec(
                self.repeat_mode,
                self.shuffle_enabled,
                playing_track is Some,
                playing_video is Some,
                playing_position(self.displayed_items@, opt_str_view(playing_track), opt_str_view(playing_video)),
                self.displayed_items@.len(),
                0,
            );
            if self.repeat_mode == RepeatMode::One {
                if playing_track.is_some() {
                    assert(spec0 == NextStep::ReplayTrack);
                    return NextStep::ReplayTrack;
                }
                if playing_video.is_some() {
                    assert(spec0 == NextStep::ReplayVideo);
                    return NextStep::ReplayVideo;
                }
            }
            assert(spec0 == NextStep::Nothing);
            return NextStep::Nothing;
        }
        let r = self.next_step_with_draw(playing_track, playing_video, draw);
        assert(r == next_step_spec(
            self.repeat_mode,
            self.shuffle_enabled,
            playing_track is Some,
            playing_video is Some,
            playing_position(self.displayed_items@, opt_str_view(playing_track), opt_str_view(playing_video)),
            self.displayed_items@.len(),
            draw,
        ));
        proof {
            lemma_position_in_range(
                self.displayed_items@,
                opt_str_view(playing_track),
                opt_str_view(playing_video),
            );
        }
        r
    }

    /// What plays before: the entry before the playing one in the shown
    /// list, the last from the first; nothing when the playing entry is not
    /// in the list.
    pub fn prev_index(&self, playing_track: Option<&str>, playing_video: Option<&str>) -> (r: Option<usize>)
        ensures
            r == match playing_position(
                self.displayed_items@,
                opt_str_view(playing_track),
                opt_str_view(playing_video),
            ) {
                Some(c) => Some(
                    if c > 0 {
                        (c - 1) as usize
                    } else {
                        (self.displayed_items@.len() - 1) as usize
                    },
                ),
                None => None,
            },
    {
        let _count = self.displayed_items.len();
        proof {
            lemma_position_in_range(
                self.displayed_items@,
                opt_str_view(playing_track),
                opt_str_view(playing_video),
            );
        }
        match self.current_playing_index(playing_track, playing_video) {
            Some(c) => Some(
                if c > 0 {
                    c - 1
                } else {
                    self.displayed_items.len() - 1
                },
            ),
            None => None,
        }
    }

    /// Puts the track cursor on an entry.
    pub fn select_track(&mut self, idx: usize)
        ensures
            *final(self) == (App { track_selected: Some(idx), ..*old(self) }),
    {
        self.track_selected = Some(idx);
    }

}

/// A key the terminal reported as pressed.
#[derive(Clone, Copy, Debug, PartialEq, Eq, Structural)]
pub enum Key {
    Esc,
    Enter,
    Backspace,
    Tab,
    Up,
    Down,
    Char(char),
    Other,
}

/// What a key press asks the front end to do.
#[derive(Clone, Copy, Debug, PartialEq, Eq, Structural)]
pub enum Command {
    Quit,
    StartSearch,
    CancelSearch,
    SearchInput(char),
    SearchBackspace,
    /// Play the selected result and end the search.
    PlaySelectedEndSearch,
    TogglePanel,
    TogglePause,
    PlaySelected,
    SelectNav,
    NavUp,
    NavDown,
    TrackUp,
    TrackDown,
    PlayNext,
    PlayPrev,
    Stop,
    ToggleShuffle,
    CycleRepeat,
    QueueSelected,
    /// Put the navigation cursor on this entry and select it.
    JumpToNav(usize),
    Nothing,
}

/// What a key press asks for: while searching, Esc cancels, Enter plays
/// the selection and ends the search, Backspace deletes, a character is
/// typed, Up and Down move the track cursor. Otherwise `q` quits, `/`
/// searches, Tab switches panels, space pauses what plays (or plays the
/// selection), Enter selects in the focused panel, Up/`k` and Down/`j` move
/// in it, `n` and `p` play the next and previous, `s` stops what plays (or
/// switches shuffle), `S` switches shuffle, `r` cycles repeat, `a` queues
/// the selection, and `1` to `5` jump to a navigation entry.
pub open spec fn command_spec(is_searching: bool, panel: Panel, now_playing: bool, key: Key) -> Command {
    if is_searching {
        match key {
            Key::Esc => Command::CancelSearch,
            Key::Enter => Command::PlaySelectedEndSearch,
            Key::Backspace => Command::SearchBackspace,
            Key::Char(c) => Command::SearchInput(c),
            Key::Up => Command::TrackUp,
            Key::Down => Command::TrackDown,
            _ => Command::Nothing,
        }
    } else {
        let nav = panel == Panel::Navigation;
        match key {
            Key::Tab => Command::TogglePanel,
            Key::Enter => if nav {
                Command::SelectNav
            } else {
                Command::PlaySelected
            },
            Key::Up => if nav {
                Command::NavUp
            } else {
                Command::TrackUp
            },
            Key::Down => if nav {
                Command::NavDown
            } else {
                Command::TrackDown
            },
            Key::Char(c) => if c == 'q' {
                Command::Quit
            } else if c == '/' {
                Command::StartSearch
            } else if c == ' ' {
                if now_playing {
                    Command::TogglePause
                } else {
                    Command::PlaySelected
                }
            } else if c == 'k' {
                if nav {
                    Command::NavUp
                } else {
                    Command::TrackUp
                }
            } else if c == 'j' {
                if nav {
                    Command::NavDown
                } else {
                    Command::TrackDown
                }
            } else if c == 'n' {
                Command::PlayNext
            } else if c == 'p' {
                Command::PlayPrev
            } else if c == 's' {
                if now_playing {
                    Command::Stop
                } else {
                    Command::ToggleShuffle
                }
            } else if c == 'S' {
                Command::ToggleShuffle
            } else if c == 'r' {
                Command::CycleRepeat
            } else if c == 'a' {
                Command::QueueSelected
            } else if '1' <= c <= '5' {
                Command::JumpToNav(((c as u32) - ('1' as u32)) as usize)
            } else {
                Command::Nothing
            },
            _ => Command::Nothing,
        }
    }
}

/// What a key press asks for, given whether a search runs, the focused
/// panel and whether a track plays.
pub fn command_for_key(is_searching: bool, panel: Panel, now_playing: bool, key: Key) -> (r: Command)
    ensures
        r == command_spec(is_searching, panel, now_playing, key),
{
    if is_searching {
        return match key {
            Key::Esc => Command::CancelSearch,
            Key::Enter => Command::PlaySelectedEndSearch,
            Key::Backspace => Command::SearchBackspace,
            Key::Char(c) => Command::SearchInput(c),
            Key::Up => Command::TrackUp,
            Key::Down => Command::TrackDown,
            _ => Command::Nothing,
        };
    }
    let nav = panel == Panel::Navigation;
    match key {
        Key::Tab => Command::TogglePanel,
        Key::Enter => if nav {
            Command::SelectNav
        } else {
            Command::PlaySelected
        },
        Key::Up => if nav {
            Command::NavUp
        } else {
            Command::TrackUp
        },
        Key::Down => if nav {
            Command::NavDown
        } else {
            Command::TrackDown
        },
        Key::Char(c) => if c == 'q' {
            Command::Quit
        } else if c == '/' {
            Command::StartSearch
        } else if c == ' ' {
            if now_playing {
                Command::TogglePause
            } else {
                Command::PlaySelected
            }
        } else if c == 'k' {
            if nav {
                Command::NavUp
            } else {
                Command::TrackUp
            }
        } else if c == 'j' {
            if nav {
                Command::NavDown
            } else {
                Command::TrackDown
            }
        } else if c == 'n' {
            Command::PlayNext
        } else if c == 'p' {
            Command::PlayPrev
        } else if c == 's' {
            if now_playing {
                Command::Stop
            } else {
                Command::ToggleShuffle
            }
        } else if c == 'S' {
            Command::ToggleShuffle
        } else if c == 'r' {
            Command::CycleRepeat
        } else if c == 'a' {
            Command::QueueSelected
        } else if '1' <= c && c <= '5' {
            Command::JumpToNav(((c as u32) - ('1' as u32)) as usize)
        } else {
            Command::Nothing
        },
        _ => Command::Nothing,
    }
}

/// A mouse event, as far as the front end reads it.
#[derive(Clone, Copy, Debug, PartialEq, Eq, Structural)]
pub enum MouseKind {
    Down,
    ScrollDown,
    ScrollUp,
    Other,
}

/// What a mouse event asks the front end to do.
#[derive(Clone, Copy, Debug, PartialEq, Eq, Structural)]
pub enum MouseAction {
    /// Focus the navigation panel, put its cursor on this entry and select
    /// it.
    SelectNav(usize),
    /// Focus the track panel and put its cursor on this entry.
    SelectTrack(usize),
    /// Focus the navigation panel only.
    FocusNavigation,
    /// Focus the track panel only.
    FocusTrackList,
    NavUp,
    NavDown,
    TrackUp,
    TrackDown,
    Nothing,
}

/// The first row of the lists (below the now-playing box and the progress
/// bar).
pub const MAIN_CONTENT_START: u16 = 5;

/// The width of the navigation panel, border included.
pub const NAV_PANEL_WIDTH: u16 = 20;

/// What a mouse event at (`col`, `row`) in a terminal `height` rows high
/// asks for. A click between the top boxes and the help bar focuses the
/// panel under it; in the navigation panel, below its border, it selects
/// the entry of that row when there is one; in the track panel, below its
/// border and header, it moves the cursor to the entry of that row when
/// there is one. The wheel moves the cursor of the focused panel.
pub open spec fn mouse_spec(
    kind: MouseKind,
    col: u16,
    row: u16,
    height: u16,
    panel: Panel,
    nav_count: usize,
    cursor_len: usize,
) -> MouseAction {
    match kind {
        MouseKind::Down => {
            let end = if height >= 1 {
                height - 1
            } else {
                0
            };
            if MAIN_CONTENT_START <= row < end {
                let content_row = row - MAIN_CONTENT_START;
                if col < NAV_PANEL_WIDTH {
                    if content_row >= 1 && content_row - 1 < nav_count {
                        MouseAction::SelectNav((content_row - 1) as usize)
                    } else {
                        MouseAction::FocusNavigation
                    }
                } else {
                    if content_row >= 3 && content_row - 3 < cursor_len {
                        MouseAction::SelectTrack((content_row - 3) as usize)
                    } else {
                        MouseAction::FocusTrackList
                    }
                }
            } else {
                MouseAction::Nothing
            }
        },
        MouseKind::ScrollDown => if panel == Panel::Navigation {
            MouseAction::NavDown
        } else {
            MouseAction::TrackDown
        },
        MouseKind::ScrollUp => if panel == Panel::Navigation {
            MouseAction::NavUp
        } else {
            MouseAction::TrackUp
        },
        MouseKind::Other => MouseAction::Nothing,
    }
}

/// What a mouse event asks for, given the focused panel, the number of
/// navigation entries and the length of the list the track cursor moves in.
pub fn mouse_action(
    kind: MouseKind,
    col: u16,
    row: u16,
    height: u16,
    panel: Panel,
    nav_count: usize,
    cursor_len: usize,
) -> (r: MouseAction)
    ensures
        r == mouse_spec(kind, col, row, height, panel, nav_count, cursor_len),
{
    match kind {
        MouseKind::Down => {
            let end: u16 = if height >= 1 {
                height - 1
            } else {
                0
            };
            if MAIN_CONTENT_START <= row && row < end {
                let content_row: u16 = row - MAIN_CONTENT_START;
                if col < NAV_PANEL_WIDTH {
                    if content_row >= 1 && ((content_row - 1) as usize) < nav_count {
                        MouseAction::SelectNav((content_row - 1) as usize)
                    } else {
                        MouseAction::FocusNavigation
                    }
                } else {
                    if content_row >= 3 && ((content_row - 3) as usize) < cursor_len {
                        MouseAction::SelectTrack((content_row - 3) as usize)
                    } else {
                        MouseAction::FocusTrackList
                    }
                }
            } else {
                MouseAction::Nothing
            }
        },
        MouseKind::ScrollDown => if panel == Panel::Navigation {
            MouseAction::NavDown
        } else {
            MouseAction::TrackDown
        },
        MouseKind::ScrollUp => if panel == Panel::Navigation {
            MouseAction::NavUp
        } else {
            MouseAction::TrackUp
        },
        MouseKind::Other => MouseAction::Nothing,
    }
}

/// Whether a track's play is to be counted now: not counted yet, its
/// duration known, and at least half of it played (in nanoseconds).
pub fn track_play_due(play_counted: bool, duration_nanos: Option<u128>, elapsed_nanos: u128) -> (r: bool)
    ensures
        r == match duration_nanos {
            Some(d) => !play_counted && elapsed_nanos >= d / 2,
            None => false,
        },
{
    if play_counted {
        return false;
    }
    match duration_nanos {
        Some(d) => elapsed_nanos >= d / 2,
        None => false,
    }
}

/// Whether a video's play is to be counted now: not counted yet, not
/// paused, its duration known, and at least half of it played, the
/// duration read as an unsigned number of seconds.
pub fn video_play_due(play_counted: bool, paused: bool, duration_seconds: Option<i32>, elapsed_secs: u64) -> (r: bool)
    ensures
        r == match duration_seconds {
            Some(d) => !play_counted && !paused && elapsed_secs >= (d as u64) / 2,
            None => false,
        },
{
    if play_counted || paused {
        return false;
    }
    match duration_seconds {
        Some(d) => elapsed_secs >= (d as u64) / 2,
        None => false,
    }
}

/// How long a video has played: the time played before the last pause,
/// and, unless paused, the time since the last resume.
pub fn youtube_elapsed_secs(accumulated_secs: u64, paused: bool, running_secs: u64) -> (r: u64)
    requires
        !paused ==> accumulated_secs + running_secs <= u64::MAX,
    ensures
        r == if paused {
            accumulated_secs as int
        } else {
            accumulated_secs + running_secs
        },
{
    if paused {
        accumulated_secs
    } else {
        accumulated_secs + running_secs
    }
}

/// Scrolling keeps the cursor's entry in view: the new position is at or
/// above the cursor, and the cursor lies within the `height` rows shown
/// from it.
pub proof fn law_scroll_keeps_cursor_visible(selected: usize, offset: usize, height: usize)
    requires
        height > 0,
        scroll_computable(selected, offset, height),
    ensures
        scroll_for(selected, offset, height) <= selected < scroll_for(selected, offset, height) + height,
{
}

/// The search finds exactly the matching items: every index it lists is
/// an item that matches, the indices rise, and every matching item is
/// listed.
pub proof fn law_search_finds_matches(items: Seq<MediaItem>, query: Seq<char>)
    requires
        items.len() <= usize::MAX,
    ensures
        forall|k: int|
            0 <= k < matching_indices(items, query).len() ==> (#[trigger] matching_indices(items, query)[k])
                < items.len() && item_matches(items[matching_indices(items, query)[k] as int], query),
        forall|a: int, b: int|
            0 <= a < b < matching_indices(items, query).len() ==> #[trigger] matching_indices(items, query)[a]
                < #[trigger] matching_indices(items, query)[b],
        forall|i: int|
            0 <= i < items.len() && item_matches(#[trigger] items[i], query) ==> matching_indices(
                items,
                query,
            ).contains(i as usize),
    decreases items.len(),
{
    if items.len() > 0 {
        let rest = items.drop_last();
        law_search_finds_matches(rest, query);
        let m = matching_indices(items, query);
        let mr = matching_indices(rest, query);
        assert forall|k: int| 0 <= k < mr.len() implies (#[trigger] mr[k]) < rest.len() by {
        }
        assert forall|i: int| 0 <= i < items.len() && item_matches(#[trigger] items[i], query) implies m.contains(
            i as usize,
        ) by {
            if i < items.len() - 1 {
                assert(rest[i] == items[i]);
                assert(mr.contains(i as usize));
                let k = choose|k: int| 0 <= k < mr.len() && mr[k] == i as usize;
                assert(m[k] == mr[k]);
            } else {
                assert(m[m.len() - 1] == i as usize);
            }
        }
        assert forall|k: int| 0 <= k < m.len() implies (#[trigger] m[k]) < items.len() && item_matches(
            items[m[k] as int],
            query,
        ) by {
            if k < mr.len() {
                assert(m[k] == mr[k]);
                assert(rest[mr[k] as int] == items[mr[k] as int]);
            }
        }
    }
}

/// Moving the track cursor keeps it on an entry of the list it moves in.
pub proof fn law_track_cursor_stays_in_list(before: App, after: App, down: bool)
    requires
        before.cursor_len() > 0,
        before.track_selected matches Some(i) ==> i < before.cursor_len(),
        ({
            let i = match before.track_selected {
                Some(i) => i as int,
                None => 0,
            };
            if down {
                after == (App {
                    track_selected: if i + 1 < before.cursor_len() {
                        Some((i + 1) as usize)
                    } else {
                        before.track_selected
                    },
                    ..before
                })
            } else {
                after == (App {
                    track_selected: if i > 0 && before.cursor_len() > 0 {
                        Some((i - 1) as usize)
                    } else {
                        before.track_selected
                    },
                    ..before
                })
            }
        }),
    ensures
        after.cursor_len() == before.cursor_len(),
        after.track_selected matches Some(i) ==> i < after.cursor_len(),
{
}

/// Switching panels twice gives the keyboard back to the panel that had
/// it.
pub proof fn law_toggle_panel_twice(a: App, b: App, c: App)
    requires
        b == (App {
            active_panel: match a.active_panel {
                Panel::Navigation => Panel::TrackList,
                Panel::TrackList => Panel::Navigation,
            },
            ..a
        }),
        c == (App {
            active_panel: match b.active_panel {
                Panel::Navigation => Panel::TrackList,
                Panel::TrackList => Panel::Navigation,
            },
            ..b
        }),
    ensures
        c == a,
        b.active_panel != a.active_panel,
{
}

/// The search finds an entry exactly when its lowercased title, artist or
/// album contains the lowercased query: `filter_tracks` lists the indices
/// of `matching_indices(displayed, lowercase(query))`.
pub proof fn law_search_by_title_artist_or_album(items: Seq<MediaItem>, query: Seq<char>)
    requires
        items.len() <= usize::MAX,
    ensures
        forall|i: int|
            0 <= i < items.len() ==> (#[trigger] matching_indices(items, query).contains(i as usize) <==> (
            seq_contains(unicode_lowercase(item_title(items[i])), query) || seq_contains(
                unicode_lowercase(item_artist(items[i])),
                query,
            ) || seq_contains(unicode_lowercase(item_album(items[i])), query))),
        forall|k: int|
            0 <= k < matching_indices(items, query).len() ==> (#[trigger] matching_indices(items, query)[k])
                < items.len(),
{
    law_search_finds_matches(items, query);
    let m = matching_indices(items, query);
    assert forall|i: int|
        0 <= i < items.len() implies (#[trigger] m.contains(i as usize) <==> (seq_contains(
        unicode_lowercase(item_title(items[i])),
        query,
    ) || seq_contains(unicode_lowercase(item_artist(items[i])), query) || seq_contains(
        unicode_lowercase(item_album(items[i])),
        query,
    ))) by {
        if m.contains(i as usize) {
            let k = choose|k: int| 0 <= k < m.len() && m[k] == i as usize;
            assert(item_matches(items[m[k] as int], query));
        }
        if item_matches(items[i], query) {
            assert(m.contains(i as usize));
        }
    }
}

/// With repeat-one the playing entry plays again: the track when one is
/// playing, else the video when one is playing, whatever the shuffle, the
/// list and the draw.
pub proof fn law_repeat_one_replays_what_plays(
    shuffle: bool,
    video_playing: bool,
    position: Option<usize>,
    len: nat,
    draw: usize,
)
    ensures
        next_step_spec(RepeatMode::One, shuffle, true, video_playing, position, len, draw) == NextStep::ReplayTrack,
        next_step_spec(RepeatMode::One, shuffle, false, true, position, len, draw) == NextStep::ReplayVideo,
{
}

/// Without repeat-one, or with it but nothing playing: an entry not in the
/// list gives nothing; shuffle plays the drawn entry; otherwise the entry
/// after the playing one plays, and after the last entry the first plays
/// again with repeat-all and playback stops otherwise.
pub proof fn law_next_step_moves_on(
    repeat: RepeatMode,
    shuffle: bool,
    track_playing: bool,
    video_playing: bool,
    c: usize,
    len: nat,
    draw: usize,
)
    requires
        repeat != RepeatMode::One || (!track_playing && !video_playing),
    ensures
        next_step_spec(repeat, shuffle, track_playing, video_playing, None, len, draw) == NextStep::Nothing,
        shuffle ==> next_step_spec(repeat, shuffle, track_playing, video_playing, Some(c), len, draw)
            == (NextStep::Play { index: draw }),
        !shuffle && c + 1 < len ==> next_step_spec(repeat, shuffle, track_playing, video_playing, Some(c), len, draw)
            == (NextStep::Play { index: (c + 1) as usize }),
        !shuffle && c + 1 >= len && repeat == RepeatMode::All ==> next_step_spec(
            repeat,
            shuffle,
            track_playing,
            video_playing,
            Some(c),
            len,
            draw,
        ) == (NextStep::Play { index: 0 }),
        !shuffle && c + 1 >= len && repeat != RepeatMode::All ==> next_step_spec(
            repeat,
            shuffle,
            track_playing,
            video_playing,
            Some(c),
            len,
            draw,
        ) == NextStep::Stop,
{
}

} // verus!
