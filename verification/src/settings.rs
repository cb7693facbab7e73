//! Player settings: repeat mode, the list of music folders, the saved view
//! state and the desktop front end's layout settings.
use vstd::prelude::*;
use vstd::string::*;
use crate::text::{chars_eq, chars_of, str_eq};

verus! {

/// What happens when the end of the current list is reached.
#[derive(Clone, Copy, Debug, PartialEq, Eq, Structural)]
pub enum RepeatMode {
    Off,
    All,
    One,
}

impl Default for RepeatMode {
    fn default() -> (r: RepeatMode)
        ensures
            r == RepeatMode::All,
    {
        RepeatMode::All
    }
}

/// The repeat mode that follows `m` when the user cycles through them:
/// off, all, one, off again.
pub open spec fn spec_next_repeat_mode(m: RepeatMode) -> RepeatMode {
    match m {
        RepeatMode::Off => RepeatMode::All,
        RepeatMode::All => RepeatMode::One,
        RepeatMode::One => RepeatMode::Off,
    }
}

/// The lowercase name of a repeat mode (`off`, `all`, `one`).
pub open spec fn repeat_mode_text(m: RepeatMode) -> Seq<char> {
    match m {
        RepeatMode::Off => seq!['o', 'f', 'f'],
        RepeatMode::All => seq!['a', 'l', 'l'],
        RepeatMode::One => seq!['o', 'n', 'e'],
    }
}

/// The repeat mode a request names: `off` and `one` name theirs, anything
/// else means all.
pub open spec fn repeat_mode_from_text(s: Seq<char>) -> RepeatMode {
    if s == seq!['o', 'f', 'f'] {
        RepeatMode::Off
    } else if s == seq!['o', 'n', 'e'] {
        RepeatMode::One
    } else {
        RepeatMode::All
    }
}

impl RepeatMode {
    /// The next mode in the cycle off, all, one.
    pub fn cycled(self) -> (r: RepeatMode)
        ensures
            r == spec_next_repeat_mode(self),
    {
        match self {
            RepeatMode::Off => RepeatMode::All,
            RepeatMode::All => RepeatMode::One,
            RepeatMode::One => RepeatMode::Off,
        }
    }

    /// The lowercase name of the mode.
    pub fn name(self) -> (r: &'static str)
        ensures
            r@ == repeat_mode_text(self),
    {
        match self {
            RepeatMode::Off => {
                proof {
                    reveal_strlit("off");
                }
                "off"
            },
            RepeatMode::All => {
                proof {
                    reveal_strlit("all");
                }
                "all"
            },
            RepeatMode::One => {
                proof {
                    reveal_strlit("one");
                }
                "one"
            },
        }
    }

    /// The mode a request names: `off`, `one`, anything else is all.
    pub fn from_name(s: &str) -> (r: RepeatMode)
        ensures
            r == repeat_mode_from_text(s@),
    {
        proof {
            reveal_strlit("off");
            reveal_strlit("one");
            assert("off"@ =~= seq!['o', 'f', 'f']);
            assert("one"@ =~= seq!['o', 'n', 'e']);
        }
        if str_eq(s, "off") {
            RepeatMode::Off
        } else if str_eq(s, "one") {
            RepeatMode::One
        } else {
            RepeatMode::All
        }
    }
}

/// Cycling through the repeat modes three times comes back to the start,
/// and each mode's name reads back as that mode.
pub proof fn law_repeat_mode_cycle_and_names(m: RepeatMode)
    ensures
        spec_next_repeat_mode(spec_next_repeat_mode(spec_next_repeat_mode(m))) == m,
        spec_next_repeat_mode(m) != m,
        repeat_mode_from_text(repeat_mode_text(m)) == m,
{
    assert(seq!['a', 'l', 'l'] != seq!['o', 'f', 'f']) by {
        assert(seq!['a', 'l', 'l'][0] != seq!['o', 'f', 'f'][0]);
    }
    assert(seq!['a', 'l', 'l'] != seq!['o', 'n', 'e']) by {
        assert(seq!['a', 'l', 'l'][0] != seq!['o', 'n', 'e'][0]);
    }
    assert(seq!['o', 'n', 'e'] != seq!['o', 'f', 'f']) by {
        assert(seq!['o', 'n', 'e'][1] != seq!['o', 'f', 'f'][1]);
    }
}

/// The views of a list of strings.
pub open spec fn string_views(v: Seq<String>) -> Seq<Seq<char>> {
    v.map_values(|s: String| s@)
}

/// `l` without any occurrence of `x`, the rest in order.
pub open spec fn without(l: Seq<Seq<char>>, x: Seq<char>) -> Seq<Seq<char>>
    decreases l.len(),
{
    if l.len() == 0 {
        l
    } else if l.last() == x {
        without(l.drop_last(), x)
    } else {
        without(l.drop_last(), x).push(l.last())
    }
}

/// `l` with `x` appended, unless `x` is already in it.
pub open spec fn with_added(l: Seq<Seq<char>>, x: Seq<char>) -> Seq<Seq<char>> {
    if l.contains(x) {
        l
    } else {
        l.push(x)
    }
}

/// Whether `s` occurs in `v`.
pub fn contains_string(v: &Vec<String>, s: &str) -> (r: bool)
    ensures
        r == string_views(v@).contains(s@),
{
    let sv = chars_of(s);
    let mut i: usize = 0;
    while i < v.len()
        invariant
            i <= v.len(),
            sv@ == s@,
            forall|j: int| 0 <= j < i ==> v@[j]@ != s@,
        decreases v.len() - i,
    {
        let e = chars_of(v[i].as_str());
        if chars_eq(&e, &sv) {
            assert(string_views(v@)[i as int] == s@);
            return true;
        }
        i = i + 1;
    }
    proof {
        if string_views(v@).contains(s@) {
            let k = choose|k: int| 0 <= k < string_views(v@).len() && string_views(v@)[k] == s@;
            assert(v@[k]@ == s@);
        }
    }
    false
}

/// `v` without any entry equal to `s`.
pub fn remove_all_strings(v: &Vec<String>, s: &str) -> (r: Vec<String>)
    ensures
        string_views(r@) == without(string_views(v@), s@),
{
    let sv = chars_of(s);
    let mut r: Vec<String> = Vec::new();
    let mut i: usize = 0;
    while i < v.len()
        invariant
            i <= v.len(),
            sv@ == s@,
            string_views(r@) == without(string_views(v@.take(i as int)), s@),
        decreases v.len() - i,
    {
        let e = chars_of(v[i].as_str());
        proof {
            assert(string_views(v@.take(i + 1)).drop_last() =~= string_views(v@.take(i as int)));
            assert(string_views(v@.take(i + 1)).last() == v@[i as int]@);
        }
        if !chars_eq(&e, &sv) {
            r.push(v[i].clone());
            assert(string_views(r@) =~= without(string_views(v@.take(i as int)), s@).push(v@[i as int]@));
        }
        i = i + 1;
    }
    assert(v@.take(v.len() as int) =~= v@);
    r
}

/// The settings every front end shares. The volume is kept beside them
/// by the front ends.
#[derive(Clone, Debug)]
pub struct CoreSettings {
    pub folders: Vec<String>,
    pub rescan_on_startup: bool,
    pub youtube_audio_only: bool,
    pub youtube_fetch_limit: usize,
    pub shuffle_enabled: bool,
    pub repeat_mode: RepeatMode,
    pub vaporwave_enabled: bool,
}

impl Default for CoreSettings {
    fn default() -> (r: CoreSettings)
        ensures
            r.folders@.len() == 0,
            !r.rescan_on_startup,
            r.youtube_audio_only,
            r.youtube_fetch_limit == 100,
            !r.shuffle_enabled,
            r.repeat_mode == RepeatMode::All,
            !r.vaporwave_enabled,
    {
        CoreSettings {
            folders: Vec::new(),
            rescan_on_startup: false,
            youtube_audio_only: true,
            youtube_fetch_limit: 100,
            shuffle_enabled: false,
            repeat_mode: RepeatMode::All,
            vaporwave_enabled: false,
        }
    }
}

impl CoreSettings {
    /// Adds a music folder, unless it is already listed.
    pub fn add_folder(&mut self, folder: String)
        ensures
            string_views(final(self).folders@) == with_added(string_views(old(self).folders@), folder@),
            final(self).rescan_on_startup == old(self).rescan_on_startup,
            final(self).youtube_audio_only == old(self).youtube_audio_only,
            final(self).youtube_fetch_limit == old(self).youtube_fetch_limit,
            final(self).shuffle_enabled == old(self).shuffle_enabled,
            final(self).repeat_mode == old(self).repeat_mode,
            final(self).vaporwave_enabled == old(self).vaporwave_enabled,
    {
        if !contains_string(&self.folders, folder.as_str()) {
            let ghost f = folder@;
            self.folders.push(folder);
            assert(string_views(self.folders@) =~= string_views(old(self).folders@).push(f));
        }
    }

    /// Removes every entry of a music folder.
    pub fn remove_folder(&mut self, folder: &str)
        ensures
            string_views(final(self).folders@) == without(string_views(old(self).folders@), folder@),
            final(self).rescan_on_startup == old(self).rescan_on_startup,
            final(self).youtube_audio_only == old(self).youtube_audio_only,
            final(self).youtube_fetch_limit == old(self).youtube_fetch_limit,
            final(self).shuffle_enabled == old(self).shuffle_enabled,
            final(self).repeat_mode == old(self).repeat_mode,
            final(self).vaporwave_enabled == old(self).vaporwave_enabled,
    {
        self.folders = remove_all_strings(&self.folders, folder);
    }
}

/// What the `folders` entry of a settings file holds: a list, or (in
/// older files, under `folder`) a single optional folder.
pub enum FoldersOrFolder {
    Folders(Vec<String>),
    Folder(Option<String>),
}

/// The folder list a settings entry stands for.
pub open spec fn folders_of(f: FoldersOrFolder) -> Seq<Seq<char>> {
    match f {
        FoldersOrFolder::Folders(v) => string_views(v@),
        FoldersOrFolder::Folder(Some(s)) => seq![s@],
        FoldersOrFolder::Folder(None) => Seq::empty(),
    }
}

/// The folder list a settings entry stands for: the list itself, the one
/// folder, or none.
pub fn deserialize_folders(f: FoldersOrFolder) -> (r: Vec<String>)
    ensures
        string_views(r@) == folders_of(f),
{
    match f {
        FoldersOrFolder::Folders(v) => v,
        FoldersOrFolder::Folder(Some(s)) => {
            let mut v: Vec<String> = Vec::new();
            v.push(s);
            assert(string_views(v@) =~= folders_of(f));
            v
        },
        FoldersOrFolder::Folder(None) => {
            let v: Vec<String> = Vec::new();
            assert(string_views(v@) =~= folders_of(f));
            v
        },
    }
}

proof fn lemma_without_not_contains(l: Seq<Seq<char>>, x: Seq<char>)
    ensures
        !without(l, x).contains(x),
        forall|y: Seq<char>| y != x ==> (without(l, x).contains(y) <==> l.contains(y)),
    decreases l.len(),
{
    if l.len() > 0 {
        lemma_without_not_contains(l.drop_last(), x);
        assert forall|y: Seq<char>| y != x implies (without(l, x).contains(y) <==> l.contains(y)) by {
            if l.contains(y) {
                let k = choose|k: int| 0 <= k < l.len() && l[k] == y;
                if k < l.len() - 1 {
                    assert(l.drop_last()[k] == y);
                    assert(l.drop_last().contains(y));
                    assert(without(l.drop_last(), x).contains(y));
                    let k2 = choose|k2: int| 0 <= k2 < without(l.drop_last(), x).len() && without(l.drop_last(), x)[k2] == y;
                    assert(without(l, x)[k2] == y);
                } else {
                    assert(without(l, x)[without(l, x).len() - 1] == y);
                }
            }
            if without(l, x).contains(y) {
                let k = choose|k: int| 0 <= k < without(l, x).len() && without(l, x)[k] == y;
                if l.last() != x && k == without(l, x).len() - 1 {
                    assert(l[l.len() - 1] == y);
                } else {
                    assert(without(l.drop_last(), x)[k] == y);
                    assert(without(l.drop_last(), x).contains(y));
                    assert(l.drop_last().contains(y));
                    let m = choose|m: int| 0 <= m < l.drop_last().len() && l.drop_last()[m] == y;
                    assert(l[m] == l.drop_last()[m]);
                }
            }
        }
        if without(l, x).contains(x) {
            let k = choose|k: int| 0 <= k < without(l, x).len() && without(l, x)[k] == x;
            if l.last() != x && k == without(l, x).len() - 1 {
            } else {
                assert(without(l.drop_last(), x)[k] == x);
            }
        }
    }
}

proof fn lemma_without_absent(l: Seq<Seq<char>>, x: Seq<char>)
    requires
        !l.contains(x),
    ensures
        without(l, x) == l,
    decreases l.len(),
{
    if l.len() > 0 {
        assert(!l.drop_last().contains(x)) by {
            if l.drop_last().contains(x) {
                let k = choose|k: int| 0 <= k < l.drop_last().len() && l.drop_last()[k] == x;
                assert(l[k] == x);
            }
        }
        lemma_without_absent(l.drop_last(), x);
        assert(l.last() != x);
        assert(without(l, x) =~= l);
    }
}

/// Adding a folder makes it listed, adding it again changes nothing,
/// removing it leaves no entry of it and keeps every other folder, and
/// adding a folder that was not listed and then removing it restores the
/// list.
pub proof fn law_folder_list(l: Seq<Seq<char>>, f: Seq<char>, g: Seq<char>)
    ensures
        with_added(l, f).contains(f),
        with_added(with_added(l, f), f) == with_added(l, f),
        !without(l, f).contains(f),
        g != f ==> (without(l, f).contains(g) <==> l.contains(g)),
        !l.contains(f) ==> without(with_added(l, f), f) == l,
{
    if !l.contains(f) {
        assert(l.push(f)[l.len() as int] == f);
        lemma_without_absent(l, f);
        assert(l.push(f).drop_last() =~= l);
    } else {
    }
    lemma_without_not_contains(l, f);
}

/// The view a front end reopens with: what was playing and where the user
/// was. The playback position is kept beside it by the front ends.
#[derive(Clone, Debug)]
pub struct AppState {
    pub playing_track: Option<String>,
    pub playing_video_id: Option<String>,
    pub nav_section: String,
    pub playlist_id: Option<i32>,
    pub channel_id: Option<i32>,
    pub nav_index: usize,
    pub track_index: usize,
    pub scroll_offset: usize,
    pub section_expanded: [bool; 3],
    pub active_panel: String,
}

/// The section a fresh state opens: all media.
pub open spec fn default_nav_section_text() -> Seq<char> {
    seq!['a', 'l', 'l', '_', 'm', 'e', 'd', 'i', 'a']
}

/// The section a fresh state opens.
pub fn default_nav_section() -> (r: String)
    ensures
        r@ == default_nav_section_text(),
{
    proof {
        reveal_strlit("all_media");
    }
    String::from_str("all_media")
}

/// Every sidebar section starts expanded.
pub fn default_section_expanded() -> (r: [bool; 3])
    ensures
        r@ == seq![true, true, true],
{
    let r = [true, true, true];
    assert(r@ =~= seq![true, true, true]);
    r
}

impl Default for AppState {
    fn default() -> (r: AppState)
        ensures
            r.playing_track is None,
            r.playing_video_id is None,
            r.nav_section@ == Seq::<char>::empty(),
            r.playlist_id is None,
            r.channel_id is None,
            r.nav_index == 0,
            r.track_index == 0,
            r.scroll_offset == 0,
            r.section_expanded@ == seq![false, false, false],
            r.active_panel@ == Seq::<char>::empty(),
    {
        let e = [false, false, false];
        assert(e@ =~= seq![false, false, false]);
        AppState {
            playing_track: None,
            playing_video_id: None,
            nav_section: String::new(),
            playlist_id: None,
            channel_id: None,
            nav_index: 0,
            track_index: 0,
            scroll_offset: 0,
            section_expanded: e,
            active_panel: String::new(),
        }
    }
}

impl AppState {
    /// The state a file with no entries reads as: all media, every section
    /// expanded, nothing playing.
    pub fn from_empty_file() -> (r: AppState)
        ensures
            r.playing_track is None,
            r.playing_video_id is None,
            r.nav_section@ == default_nav_section_text(),
            r.playlist_id is None,
            r.channel_id is None,
            r.nav_index == 0,
            r.track_index == 0,
            r.scroll_offset == 0,
            r.section_expanded@ == seq![true, true, true],
            r.active_panel@ == Seq::<char>::empty(),
    {
        AppState {
            playing_track: None,
            playing_video_id: None,
            nav_section: default_nav_section(),
            playlist_id: None,
            channel_id: None,
            nav_index: 0,
            track_index: 0,
            scroll_offset: 0,
            section_expanded: default_section_expanded(),
            active_panel: String::new(),
        }
    }
}

/// How tall the rows of the track lists are.
#[derive(Clone, Copy, Debug, PartialEq, Eq, Structural)]
pub enum RowHeight {
    Normal,
    Compact,
    UltraCompact,
}

impl Default for RowHeight {
    fn default() -> (r: RowHeight)
        ensures
            r == RowHeight::Normal,
    {
        RowHeight::Normal
    }
}

impl RowHeight {
    /// The row height in pixels: 24, 18 or 8.
    pub fn height_pixels(&self) -> (r: i32)
        ensures
            r == match *self {
                RowHeight::Normal => 24i32,
                RowHeight::Compact => 18i32,
                RowHeight::UltraCompact => 8i32,
            },
    {
        match self {
            RowHeight::Normal => 24,
            RowHeight::Compact => 18,
            RowHeight::UltraCompact => 8,
        }
    }

    /// Whether rows are shown compact (compact or ultra compact).
    pub fn is_compact(&self) -> (r: bool)
        ensures
            r == (*self != RowHeight::Normal),
    {
        match self {
            RowHeight::Normal => false,
            RowHeight::Compact => true,
            RowHeight::UltraCompact => true,
        }
    }
}

/// The desktop front end's settings: the shared ones and its layout.
#[derive(Clone, Debug)]
pub struct FmlSettings {
    pub core: CoreSettings,
    pub row_height: RowHeight,
    pub window_width: i32,
    pub window_height: i32,
    pub main_pane_position: i32,
    pub left_pane_position: i32,
    pub right_pane_position: i32,
}

impl Default for FmlSettings {
    fn default() -> (r: FmlSettings)
        ensures
            r.core.folders@.len() == 0,
            !r.core.rescan_on_startup,
            r.core.youtube_audio_only,
            r.core.youtube_fetch_limit == 100,
            !r.core.shuffle_enabled,
            r.core.repeat_mode == RepeatMode::All,
            !r.core.vaporwave_enabled,
            r.row_height == RowHeight::Normal,
            r.window_width == 1200,
            r.window_height == 600,
            r.main_pane_position == -1,
            r.left_pane_position == -1,
            r.right_pane_position == -1,
    {
        FmlSettings {
            core: CoreSettings::default(),
            row_height: RowHeight::Normal,
            window_width: 1200,
            window_height: 600,
            main_pane_position: -1,
            left_pane_position: -1,
            right_pane_position: -1,
        }
    }
}

impl FmlSettings {
    /// Adds a music folder, unless it is already listed.
    pub fn add_folder(&mut self, folder: String)
        ensures
            string_views(final(self).core.folders@) == with_added(string_views(old(self).core.folders@), folder@),
            final(self).row_height == old(self).row_height,
            final(self).window_width == old(self).window_width,
            final(self).window_height == old(self).window_height,
    {
        self.core.add_folder(folder);
    }

    /// Removes every entry of a music folder.
    pub fn remove_folder(&mut self, folder: &str)
        ensures
            string_views(final(self).core.folders@) == without(string_views(old(self).core.folders@), folder@),
            final(self).row_height == old(self).row_height,
            final(self).window_width == old(self).window_width,
            final(self).window_height == old(self).window_height,
    {
        self.core.remove_folder(folder);
    }
}

} // verus!
