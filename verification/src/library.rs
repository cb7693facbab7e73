//! The library's rules around its database: scanning progress, which
//! tracks are stale, album artists, queue and playlist positions, and the
//! recently played and recently added lists.
use vstd::prelude::*;
use crate::media::{
    clone_opt_string, item_added, item_last_played, or_unknown, str_or_unknown_ref, MediaItem,
    Timestamp, Track, YouTubeVideo,
};
use crate::text::{seq_starts_with, str_starts_with, to_owned_string};

verus! {

/// Progress of a library scan, as the scanner reports it.
#[derive(Clone, Debug)]
pub enum ScanProgress {
    StartingFolder { folder: String },
    FoundFile { total_found: usize, skipped: usize, current_file: String },
    ScannedFile {
        total_found: usize,
        skipped: usize,
        added: usize,
        updated: usize,
        current_file: String,
    },
    Complete {
        total_found: usize,
        skipped: usize,
        added: usize,
        updated: usize,
        stale_files: Vec<String>,
    },
}

/// What the scanner does with an audio file it found.
#[derive(Clone, Copy, Debug, PartialEq, Eq, Structural)]
pub enum ScanAction {
    /// The library has it with all its information.
    Skip,
    /// The library has it without a duration: read the duration again.
    UpdateDuration,
    /// The library lacks it: read its tags and add it.
    Insert,
}

/// The counters of a scan in progress.
#[derive(Clone, Copy, Debug, PartialEq, Eq, Structural)]
pub struct ScanCounters {
    pub total_found: usize,
    pub skipped: usize,
    pub added: usize,
    pub updated: usize,
}

impl ScanCounters {
    /// A scan that has found nothing yet.
    pub fn new() -> (r: ScanCounters)
        ensures
            r == (ScanCounters { total_found: 0, skipped: 0, added: 0, updated: 0 }),
    {
        ScanCounters { total_found: 0, skipped: 0, added: 0, updated: 0 }
    }

    /// The scanner found an audio file: count it, report it, and decide:
    /// skip a file the library has complete, update one it has without a
    /// duration, insert any other.
    pub fn found_file(&mut self, path: &str, in_library_complete: bool, in_library_incomplete: bool) -> (r: (
        ScanProgress,
        ScanAction,
    ))
        requires
            old(self).total_found < usize::MAX,
            old(self).skipped < usize::MAX,
        ensures
            final(self).total_found == old(self).total_found + 1,
            final(self).added == old(self).added,
            final(self).updated == old(self).updated,
            final(self).skipped == old(self).skipped + if in_library_complete { 1usize } else { 0usize },
            r.0 matches ScanProgress::FoundFile { total_found, skipped, current_file } && total_found
                == final(self).total_found && skipped == old(self).skipped && current_file@ == path@,
            r.1 == if in_library_complete {
                ScanAction::Skip
            } else if in_library_incomplete {
                ScanAction::UpdateDuration
            } else {
                ScanAction::Insert
            },
    {
        self.total_found = self.total_found + 1;
        let progress = ScanProgress::FoundFile {
            total_found: self.total_found,
            skipped: self.skipped,
            current_file: to_owned_string(path),
        };
        if in_library_complete {
            self.skipped = self.skipped + 1;
            return (progress, ScanAction::Skip);
        }
        if in_library_incomplete {
            (progress, ScanAction::UpdateDuration)
        } else {
            (progress, ScanAction::Insert)
        }
    }

    /// The scanner stored what it read of a file (`stored` tells whether
    /// the database took it): count a stored update or insert, and report.
    pub fn stored_file(&mut self, path: String, action: ScanAction, stored: bool) -> (r: ScanProgress)
        requires
            old(self).added < usize::MAX,
            old(self).updated < usize::MAX,
        ensures
            final(self).total_found == old(self).total_found,
            final(self).skipped == old(self).skipped,
            final(self).added == old(self).added + if stored && action == ScanAction::Insert {
                1usize
            } else {
                0usize
            },
            final(self).updated == old(self).updated + if stored && action == ScanAction::UpdateDuration {
                1usize
            } else {
                0usize
            },
            r matches ScanProgress::ScannedFile { total_found, skipped, added, updated, current_file }
                && total_found == final(self).total_found && skipped == final(self).skipped && added
                == final(self).added && updated == final(self).updated && current_file@ == path@,
    {
        if stored {
            match action {
                ScanAction::Insert => {
                    self.added = self.added + 1;
                },
                ScanAction::UpdateDuration => {
                    self.updated = self.updated + 1;
                },
                ScanAction::Skip => {},
            }
        }
        ScanProgress::ScannedFile {
            total_found: self.total_found,
            skipped: self.skipped,
            added: self.added,
            updated: self.updated,
            current_file: path,
        }
    }

    /// The final report of a scan.
    pub fn complete(&self, stale_files: Vec<String>) -> (r: ScanProgress)
        ensures
            r matches ScanProgress::Complete { total_found, skipped, added, updated, stale_files: s }
                && total_found == self.total_found && skipped == self.skipped && added == self.added
                && updated == self.updated && s == stale_files,
    {
        ScanProgress::Complete {
            total_found: self.total_found,
            skipped: self.skipped,
            added: self.added,
            updated: self.updated,
            stale_files,
        }
    }
}

/// Every file found is either skipped, or tried once: the counters never
/// say more files were skipped, added or updated than were found.
pub open spec fn counters_consistent(c: ScanCounters) -> bool {
    c.skipped + c.added + c.updated <= c.total_found
}

/// A scan's counters stay consistent through finding and storing files.
pub proof fn law_scan_counters_consistent(
    c: ScanCounters,
    found: ScanCounters,
    stored: ScanCounters,
    complete: bool,
    action: ScanAction,
    ok: bool,
)
    requires
        counters_consistent(c),
        found.total_found == c.total_found + 1,
        found.added == c.added,
        found.updated == c.updated,
        found.skipped == c.skipped + if complete { 1int } else { 0int },
        complete ==> action == ScanAction::Skip,
        stored.total_found == found.total_found,
        stored.skipped == found.skipped,
        stored.added == found.added + if ok && action == ScanAction::Insert { 1int } else { 0int },
        stored.updated == found.updated + if ok && action == ScanAction::UpdateDuration {
            1int
        } else {
            0int
        },
    ensures
        counters_consistent(found),
        counters_consistent(stored),
{
}

/// A file stored in the library is stale when it lies under one of the
/// scanned folders (by prefix) and no longer exists.
pub open spec fn is_stale(f: Seq<char>, folders: Seq<Seq<char>>, exists_on_disk: bool) -> bool {
    (exists|i: int| 0 <= i < folders.len() && seq_starts_with(f, folders[i])) && !exists_on_disk
}

/// Whether a file lies under one of the folders (by prefix).
pub fn under_any_folder(f: &str, folders: &Vec<String>) -> (r: bool)
    ensures
        r == exists|i: int| 0 <= i < folders@.len() && seq_starts_with(f@, #[trigger] folders@[i]@),
{
    let mut i: usize = 0;
    while i < folders.len()
        invariant
            i <= folders@.len(),
            forall|j: int| 0 <= j < i ==> !seq_starts_with(f@, #[trigger] folders@[j]@),
        decreases folders@.len() - i,
    {
        if str_starts_with(f, folders[i].as_str()) {
            return true;
        }
        i = i + 1;
    }
    false
}

/// The stale files among the library's files, in order: `exists_on_disk[i]`
/// tells whether `db_files[i]` still exists.
pub fn stale_files(db_files: Vec<String>, folders: &Vec<String>, exists_on_disk: &Vec<bool>) -> (r: Vec<String>)
    requires
        exists_on_disk@.len() == db_files@.len(),
    ensures
        r@.map_values(|s: String| s@) == stale_list(
            db_files@.map_values(|s: String| s@),
            folders@.map_values(|s: String| s@),
            exists_on_disk@,
        ),
{
    let ghost fv = folders@.map_values(|s: String| s@);
    let ghost dv = db_files@.map_values(|s: String| s@);
    let mut r: Vec<String> = Vec::new();
    let mut i: usize = 0;
    while i < db_files.len()
        invariant
            i <= db_files@.len(),
            exists_on_disk@.len() == db_files@.len(),
            fv == folders@.map_values(|s: String| s@),
            dv == db_files@.map_values(|s: String| s@),
            r@.map_values(|s: String| s@) == stale_list(dv.take(i as int), fv, exists_on_disk@.take(i as int)),
        decreases db_files@.len() - i,
    {
        let f = &db_files[i];
        let under = under_any_folder(f.as_str(), folders);
        proof {
            assert(dv.take(i + 1).drop_last() =~= dv.take(i as int));
            assert(exists_on_disk@.take(i + 1).drop_last() =~= exists_on_disk@.take(i as int));
            assert(dv.take(i + 1).last() == f@);
            assert(exists_on_disk@.take(i + 1).last() == exists_on_disk@[i as int]);
            assert(under == exists|j: int| 0 <= j < fv.len() && seq_starts_with(f@, fv[j])) by {
                if under {
                    let j = choose|j: int| 0 <= j < folders@.len() && seq_starts_with(f@, #[trigger] folders@[j]@);
                    assert(fv[j] == folders@[j]@);
                }
                if exists|j: int| 0 <= j < fv.len() && seq_starts_with(f@, fv[j]) {
                    let j = choose|j: int| 0 <= j < fv.len() && seq_starts_with(f@, fv[j]);
                    assert(fv[j] == folders@[j]@);
                }
            }
        }
        if under && !exists_on_disk[i] {
            r.push(f.clone());
            assert(r@.map_values(|s: String| s@) =~= stale_list(dv.take(i as int), fv, exists_on_disk@.take(i as int)).push(f@));
        }
        i = i + 1;
    }
    assert(dv.take(db_files@.len() as int) =~= dv);
    assert(exists_on_disk@.take(db_files@.len() as int) =~= exists_on_disk@);
    r
}

/// The stale files of a list, in order.
pub open spec fn stale_list(files: Seq<Seq<char>>, folders: Seq<Seq<char>>, exist: Seq<bool>) -> Seq<Seq<char>>
    decreases files.len(),
{
    if files.len() == 0 || exist.len() != files.len() {
        Seq::empty()
    } else {
        let rest = stale_list(files.drop_last(), folders, exist.drop_last());
        if is_stale(files.last(), folders, exist.last()) {
            rest.push(files.last())
        } else {
            rest
        }
    }
}

/// The file names of the tracks whose duration is known (`known`) or
/// unknown (`!known`), in order.
pub open spec fn filenames_by_duration(tracks: Seq<Track>, known: bool) -> Seq<Seq<char>>
    decreases tracks.len(),
{
    if tracks.len() == 0 {
        Seq::empty()
    } else {
        let rest = filenames_by_duration(tracks.drop_last(), known);
        if (tracks.last().duration_seconds is Some) == known {
            rest.push(tracks.last().filename@)
        } else {
            rest
        }
    }
}

/// Splits the library's tracks by whether their duration is known: the
/// scanner skips the first and reads the duration of the second again.
pub fn split_by_duration(tracks: &Vec<Track>) -> (r: (Vec<String>, Vec<String>))
    ensures
        r.0@.map_values(|s: String| s@) == filenames_by_duration(tracks@, true),
        r.1@.map_values(|s: String| s@) == filenames_by_duration(tracks@, false),
{
    let mut complete: Vec<String> = Vec::new();
    let mut incomplete: Vec<String> = Vec::new();
    let mut i: usize = 0;
    while i < tracks.len()
        invariant
            i <= tracks@.len(),
            complete@.map_values(|s: String| s@) == filenames_by_duration(tracks@.take(i as int), true),
            incomplete@.map_values(|s: String| s@) == filenames_by_duration(tracks@.take(i as int), false),
        decreases tracks@.len() - i,
    {
        let t = &tracks[i];
        proof {
            assert(tracks@.take(i + 1).drop_last() =~= tracks@.take(i as int));
            assert(tracks@.take(i + 1).last() == *t);
        }
        if t.duration_seconds.is_some() {
            complete.push(t.filename.clone());
            assert(complete@.map_values(|s: String| s@) =~= filenames_by_duration(tracks@.take(i as int), true).push(t.filename@));
        } else {
            incomplete.push(t.filename.clone());
            assert(incomplete@.map_values(|s: String| s@) =~= filenames_by_duration(tracks@.take(i as int), false).push(t.filename@));
        }
        i = i + 1;
    }
    assert(tracks@.take(tracks@.len() as int) =~= tracks@);
    (complete, incomplete)
}

/// Identifies an entry of a playlist when it is reordered.
#[derive(Clone, Debug)]
pub enum PlaylistItemIdentifier {
    Track(String),
    Video(i32),
}

impl PlaylistItemIdentifier {
    /// A copy of the identifier.
    pub fn clone_ident(&self) -> (r: PlaylistItemIdentifier)
        ensures
            r == *self,
    {
        match self {
            PlaylistItemIdentifier::Track(f) => PlaylistItemIdentifier::Track(f.clone()),
            PlaylistItemIdentifier::Video(v) => PlaylistItemIdentifier::Video(*v),
        }
    }
}

/// The album artist of a track, or else its artist.
pub open spec fn album_artist_or_artist_of(t: Track) -> Option<String> {
    match t.album_artist {
        Some(a) => Some(a),
        None => t.artist,
    }
}

/// The album artist of a track, or else its artist.
pub fn get_album_artist_or_artist(track: &Track) -> (r: Option<String>)
    ensures
        r == album_artist_or_artist_of(*track),
{
    match &track.album_artist {
        Some(a) => Some(a.clone()),
        None => clone_opt_string(&track.artist),
    }
}

/// The artist an album is listed under: the album artist, else the
/// artist, else `Unknown`.
pub open spec fn album_artist_text(t: Track) -> Seq<char> {
    or_unknown(album_artist_or_artist_of(t))
}

/// The artist an album is listed under.
pub fn album_artist_name(t: &Track) -> (r: String)
    ensures
        r@ == album_artist_text(*t),
{
    let a = get_album_artist_or_artist(t);
    to_owned_string(str_or_unknown_ref(&a))
}

/// The tracks of an album that are listed under `artist_query`, in order.
pub fn filter_album_tracks(tracks: &Vec<Track>, artist_query: &str) -> (r: Vec<Track>)
    ensures
        r@ == tracks@.filter(|t: Track| album_artist_text(t) == artist_query@),
{
    let mut r: Vec<Track> = Vec::new();
    let mut i: usize = 0;
    while i < tracks.len()
        invariant
            i <= tracks@.len(),
            r@ == tracks@.take(i as int).filter(|t: Track| album_artist_text(t) == artist_query@),
        decreases tracks@.len() - i,
    {
        let name = album_artist_name(&tracks[i]);
        proof {
            assert(tracks@.take(i + 1).drop_last() =~= tracks@.take(i as int));
            reveal_with_fuel(Seq::filter, 1);
        }
        if crate::text::str_eq(name.as_str(), artist_query) {
            r.push(tracks[i].duplicate());
        }
        assert(r@ =~= tracks@.take(i + 1).filter(|t: Track| album_artist_text(t) == artist_query@));
        i = i + 1;
    }
    assert(tracks@.take(tracks@.len() as int) =~= tracks@);
    r
}

/// The album title shown: the album tag, or `Unknown`.
pub fn album_title(t: &Track) -> (r: String)
    ensures
        r@ == or_unknown(t.album),
{
    to_owned_string(str_or_unknown_ref(&t.album))
}

/// The albums of the library as (artist, album, a file of the album): the
/// artist is the album artist, else the artist, else `Unknown`; the album
/// is the album tag, else `Unknown`.
pub fn get_distinct_album_items(albums: &Vec<Track>) -> (r: Vec<(String, String, String)>)
    ensures
        r@.len() == albums@.len(),
        forall|i: int|
            0 <= i < r@.len() ==> (#[trigger] r@[i]).0@ == album_artist_text(albums@[i]) && r@[i].1@
                == or_unknown(albums@[i].album) && r@[i].2@ == albums@[i].filename@,
{
    let mut r: Vec<(String, String, String)> = Vec::new();
    let mut i: usize = 0;
    while i < albums.len()
        invariant
            i <= albums@.len(),
            r@.len() == i,
            forall|j: int|
                0 <= j < i ==> (#[trigger] r@[j]).0@ == album_artist_text(albums@[j]) && r@[j].1@ == or_unknown(
                    albums@[j].album,
                ) && r@[j].2@ == albums@[j].filename@,
        decreases albums@.len() - i,
    {
        let t = &albums[i];
        r.push((album_artist_name(t), album_title(t), t.filename.clone()));
        i = i + 1;
    }
    r
}

/// Every track of the library, then every video.
pub fn all_media_from(tracks: Vec<Track>, videos: Vec<YouTubeVideo>) -> (r: Vec<MediaItem>)
    ensures
        r@ == tracks@.map_values(|t: Track| MediaItem::Track(t)) + videos@.map_values(
            |v: YouTubeVideo| MediaItem::Video(v),
        ),
{
    let mut r: Vec<MediaItem> = Vec::new();
    let mut i: usize = 0;
    while i < tracks.len()
        invariant
            i <= tracks@.len(),
            r@ == tracks@.take(i as int).map_values(|t: Track| MediaItem::Track(t)),
        decreases tracks@.len() - i,
    {
        r.push(MediaItem::Track(tracks[i].duplicate()));
        assert(r@ =~= tracks@.take(i + 1).map_values(|t: Track| MediaItem::Track(t)));
        i = i + 1;
    }
    let mut k: usize = 0;
    while k < videos.len()
        invariant
            k <= videos@.len(),
            i == tracks@.len(),
            r@ == tracks@.take(i as int).map_values(|t: Track| MediaItem::Track(t)) + videos@.take(
                k as int,
            ).map_values(|v: YouTubeVideo| MediaItem::Video(v)),
        decreases videos@.len() - k,
    {
        r.push(MediaItem::Video(videos[k].duplicate()));
        assert(r@ =~= tracks@.take(i as int).map_values(|t: Track| MediaItem::Track(t)) + videos@.take(
            k + 1,
        ).map_values(|v: YouTubeVideo| MediaItem::Video(v)));
        k = k + 1;
    }
    assert(tracks@.take(i as int) =~= tracks@);
    assert(videos@.take(k as int) =~= videos@);
    r
}

/// The item a queue or playlist row stands for: its track, else its
/// video; a row whose track and video are both gone stands for nothing.
pub open spec fn row_items(rows: Seq<(Option<Track>, Option<YouTubeVideo>)>) -> Seq<MediaItem>
    decreases rows.len(),
{
    if rows.len() == 0 {
        Seq::empty()
    } else {
        let rest = row_items(rows.drop_last());
        match rows.last() {
            (Some(t), _) => rest.push(MediaItem::Track(t)),
            (None, Some(v)) => rest.push(MediaItem::Video(v)),
            (None, None) => rest,
        }
    }
}

/// The items that queue or playlist rows stand for, in row order.
pub fn items_of_rows(rows: Vec<(Option<Track>, Option<YouTubeVideo>)>) -> (r: Vec<MediaItem>)
    ensures
        r@ == row_items(rows@),
{
    let mut r: Vec<MediaItem> = Vec::new();
    let mut i: usize = 0;
    while i < rows.len()
        invariant
            i <= rows@.len(),
            r@ == row_items(rows@.take(i as int)),
        decreases rows@.len() - i,
    {
        assert(rows@.take(i + 1).drop_last() =~= rows@.take(i as int));
        match &rows[i] {
            (Some(t), _) => r.push(MediaItem::Track(t.duplicate())),
            (None, Some(v)) => r.push(MediaItem::Video(v.duplicate())),
            (None, None) => {},
        }
        i = i + 1;
    }
    assert(rows@.take(rows@.len() as int) =~= rows@);
    r
}

/// The position a new queue entry takes: after the last one, 0 for an
/// empty queue.
pub fn next_queue_position(max_position: Option<i32>) -> (r: i32)
    requires
        max_position matches Some(m) ==> m < i32::MAX,
    ensures
        r == next_position(max_position, 0),
{
    match max_position {
        Some(m) => m + 1,
        None => 0,
    }
}

/// The position a new playlist entry takes: after the last one, 1 for an
/// empty playlist.
pub fn next_playlist_position(max_position: Option<i32>) -> (r: i32)
    requires
        max_position matches Some(m) ==> m < i32::MAX,
    ensures
        r == next_position(max_position, 1),
{
    match max_position {
        Some(m) => m + 1,
        None => 1,
    }
}

/// The queue plays first in, first out: a new entry's position comes after
/// every position already in the queue (the largest of them is `max`).
pub proof fn law_queue_appends_last(positions: Seq<i32>, max: i32)
    requires
        positions.contains(max),
        forall|i: int| 0 <= i < positions.len() ==> positions[i] <= max,
        max < i32::MAX,
    ensures
        forall|i: int| 0 <= i < positions.len() ==> positions[i] < next_position(Some(max), 0),
        next_position(None, 0) == 0,
{
}

/// The position after `max`, or `first` when there is none.
pub open spec fn next_position(max: Option<i32>, first: int) -> int {
    match max {
        Some(m) => m + 1,
        None => first,
    }
}

} // verus!
