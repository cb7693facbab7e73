//! The recently played and recently added lists: tracks and videos merged
//! and ordered newest first.
use vstd::prelude::*;
use crate::media::{item_last_played, MediaItem, Timestamp, Track, YouTubeVideo};

verus! {

broadcast use vstd::seq_lib::group_to_multiset_ensures;

/// `a` lies strictly before `b` in time: the fields compared in turn, from
/// the year down to the nanosecond.
pub open spec fn ts_before(a: Timestamp, b: Timestamp) -> bool {
    if a.year != b.year {
        a.year < b.year
    } else if a.month != b.month {
        a.month < b.month
    } else if a.day != b.day {
        a.day < b.day
    } else if a.hour != b.hour {
        a.hour < b.hour
    } else if a.minute != b.minute {
        a.minute < b.minute
    } else if a.second != b.second {
        a.second < b.second
    } else {
        a.nanosecond < b.nanosecond
    }
}

/// Whether `a` lies strictly before `b` in time.
pub fn timestamp_before(a: &Timestamp, b: &Timestamp) -> (r: bool)
    ensures
        r == ts_before(*a, *b),
{
    if a.year != b.year {
        a.year < b.year
    } else if a.month != b.month {
        a.month < b.month
    } else if a.day != b.day {
        a.day < b.day
    } else if a.hour != b.hour {
        a.hour < b.hour
    } else if a.minute != b.minute {
        a.minute < b.minute
    } else if a.second != b.second {
        a.second < b.second
    } else {
        a.nanosecond < b.nanosecond
    }
}

/// Time is a strict total order.
pub proof fn lemma_ts_order(a: Timestamp, b: Timestamp, c: Timestamp)
    ensures
        !ts_before(a, a),
        ts_before(a, b) ==> !ts_before(b, a),
        a != b ==> ts_before(a, b) || ts_before(b, a),
        ts_before(a, b) && ts_before(b, c) ==> ts_before(a, c),
        !ts_before(a, b) && !ts_before(b, c) ==> !ts_before(a, c),
{
}

/// An entry of a list to be ordered: the item and the time it is ordered by.
pub type Dated = (MediaItem, Timestamp);

/// Puts `x` into a list ordered newest first, after every entry that is
/// not older than it.
pub open spec fn insert_newest_first(s: Seq<Dated>, x: Dated) -> Seq<Dated>
    decreases s.len(),
{
    if s.len() == 0 {
        seq![x]
    } else if ts_before(s.last().1, x.1) {
        insert_newest_first(s.drop_last(), x).push(s.last())
    } else {
        s.push(x)
    }
}

/// The entries ordered newest first; entries of the same time keep their
/// order.
pub open spec fn newest_first(s: Seq<Dated>) -> Seq<Dated>
    decreases s.len(),
{
    if s.len() == 0 {
        s
    } else {
        insert_newest_first(newest_first(s.drop_last()), s.last())
    }
}

/// No entry is older than one after it.
pub open spec fn is_newest_first(s: Seq<Dated>) -> bool {
    forall|i: int, j: int| 0 <= i < j < s.len() ==> !ts_before(#[trigger] s[i].1, #[trigger] s[j].1)
}

/// Where `insert_newest_first` puts `x`: after `s.take(j)`, where every
/// entry from `j` on is older than `x` and the one before is not.
proof fn lemma_insert_at(s: Seq<Dated>, x: Dated, j: int)
    requires
        0 <= j <= s.len(),
        forall|k: int| j <= k < s.len() ==> ts_before(#[trigger] s[k].1, x.1),
        j > 0 ==> !ts_before(s[j - 1].1, x.1),
    ensures
        insert_newest_first(s, x) == s.take(j).push(x) + s.skip(j),
    decreases s.len(),
{
    if s.len() == 0 {
        assert(s.take(j).push(x) + s.skip(j) =~= seq![x]);
    } else if ts_before(s.last().1, x.1) {
        let t = s.drop_last();
        assert(j < s.len());
        assert forall|k: int| j <= k < t.len() implies ts_before(#[trigger] t[k].1, x.1) by {
            assert(t[k] == s[k]);
        }
        if j > 0 {
            assert(t[j - 1] == s[j - 1]);
        }
        lemma_insert_at(t, x, j);
        assert(s.take(j).push(x) + s.skip(j) =~= (t.take(j).push(x) + t.skip(j)).push(s.last()));
    } else {
        assert(j == s.len());
        assert(s.take(j).push(x) + s.skip(j) =~= s.push(x));
    }
}

/// Inserting keeps the entries, one more of `x`.
proof fn lemma_insert_multiset(s: Seq<Dated>, x: Dated)
    ensures
        insert_newest_first(s, x).to_multiset() =~= s.to_multiset().insert(x),
        insert_newest_first(s, x).len() == s.len() + 1,
    decreases s.len(),
{
    if s.len() == 0 {
        assert(seq![x] =~= Seq::<Dated>::empty().push(x));
    } else if ts_before(s.last().1, x.1) {
        let t = s.drop_last();
        lemma_insert_multiset(t, x);
        assert(s =~= t.push(s.last()));
    }
}

/// Inserting into a list ordered newest first keeps it so.
proof fn lemma_insert_ordered(s: Seq<Dated>, x: Dated)
    requires
        is_newest_first(s),
    ensures
        is_newest_first(insert_newest_first(s, x)),
        forall|k: int|
            0 <= k < insert_newest_first(s, x).len() ==> (#[trigger] insert_newest_first(s, x)[k] == x
                || s.contains(insert_newest_first(s, x)[k])),
    decreases s.len(),
{
    let r = insert_newest_first(s, x);
    if s.len() == 0 {
    } else if ts_before(s.last().1, x.1) {
        let t = s.drop_last();
        assert(is_newest_first(t)) by {
            assert forall|i: int, j: int| 0 <= i < j < t.len() implies !ts_before(
                #[trigger] t[i].1,
                #[trigger] t[j].1,
            ) by {
                assert(t[i] == s[i] && t[j] == s[j]);
            }
        }
        lemma_insert_ordered(t, x);
        let u = insert_newest_first(t, x);
        lemma_insert_multiset(t, x);
        assert forall|k: int| 0 <= k < u.len() implies !ts_before(#[trigger] u[k].1, s.last().1) by {
            if u[k] == x {
                lemma_ts_order(x.1, s.last().1, x.1);
            } else {
                assert(t.contains(u[k]));
                let m = choose|m: int| 0 <= m < t.len() && t[m] == u[k];
                assert(s[m] == t[m]);
                assert(!ts_before(s[m].1, s[s.len() - 1].1));
            }
        }
        assert forall|i: int, j: int| 0 <= i < j < r.len() implies !ts_before(
            #[trigger] r[i].1,
            #[trigger] r[j].1,
        ) by {
            if j < u.len() {
                assert(r[i] == u[i] && r[j] == u[j]);
            } else {
                assert(r[i] == u[i]);
                assert(r[j] == s.last());
            }
        }
        assert forall|k: int| 0 <= k < r.len() implies (#[trigger] r[k] == x || s.contains(r[k])) by {
            if k < u.len() {
                assert(r[k] == u[k]);
                if u[k] != x {
                    let m = choose|m: int| 0 <= m < t.len() && t[m] == u[k];
                    assert(s[m] == t[m]);
                }
            } else {
                assert(r[k] == s[s.len() - 1]);
            }
        }
    } else {
        assert forall|i: int, j: int| 0 <= i < j < r.len() implies !ts_before(
            #[trigger] r[i].1,
            #[trigger] r[j].1,
        ) by {
            if j < s.len() {
                assert(r[i] == s[i] && r[j] == s[j]);
            } else {
                assert(r[i] == s[i]);
                assert(r[j] == x);
                if i < s.len() - 1 {
                    assert(!ts_before(s[i].1, s[s.len() - 1].1));
                    lemma_ts_order(s[i].1, s[s.len() - 1].1, x.1);
                }
            }
        }
        assert forall|k: int| 0 <= k < r.len() implies (#[trigger] r[k] == x || s.contains(r[k])) by {
            if k < s.len() {
                assert(r[k] == s[k]);
            }
        }
    }
}

/// Ordering newest first gives a list ordered newest first, of the same
/// entries.
pub proof fn law_newest_first(s: Seq<Dated>)
    ensures
        is_newest_first(newest_first(s)),
        newest_first(s).to_multiset() =~= s.to_multiset(),
        newest_first(s).len() == s.len(),
    decreases s.len(),
{
    if s.len() > 0 {
        let t = s.drop_last();
        law_newest_first(t);
        lemma_insert_ordered(newest_first(t), s.last());
        lemma_insert_multiset(newest_first(t), s.last());
        assert(s =~= t.push(s.last()));
    }
}

/// Inserts an entry into a list ordered newest first, after every entry
/// that is not older than it.
fn insert_dated(v: &mut Vec<Dated>, x: Dated)
    ensures
        final(v)@ == insert_newest_first(old(v)@, x),
{
    let mut j: usize = v.len();
    while j > 0 && timestamp_before(&v[j - 1].1, &x.1)
        invariant
            j <= v@.len(),
            forall|k: int| j <= k < v@.len() ==> ts_before(#[trigger] v@[k].1, x.1),
        decreases j,
    {
        j = j - 1;
    }
    proof {
        lemma_insert_at(v@, x, j as int);
        assert(v@.insert(j as int, x) =~= v@.take(j as int).push(x) + v@.skip(j as int));
    }
    v.insert(j, x);
}

/// The entries ordered newest first; entries of the same time keep their
/// order.
pub fn order_newest_first(items: &Vec<Dated>) -> (r: Vec<Dated>)
    ensures
        r@ == newest_first(items@),
{
    let mut r: Vec<Dated> = Vec::new();
    let mut i: usize = 0;
    while i < items.len()
        invariant
            i <= items@.len(),
            r@ == newest_first(items@.take(i as int)),
        decreases items@.len() - i,
    {
        let x: Dated = (items[i].0.duplicate(), items[i].1);
        proof {
            assert(items@.take(i + 1).drop_last() =~= items@.take(i as int));
            assert(items@.take(i + 1).last() == x);
        }
        insert_dated(&mut r, x);
        i = i + 1;
    }
    assert(items@.take(items@.len() as int) =~= items@);
    r
}

/// The start of the Unix epoch, the time of a track whose added time is
/// unknown.
pub open spec fn epoch_spec() -> Timestamp {
    Timestamp { year: 1970, month: 1, day: 1, hour: 0, minute: 0, second: 0, nanosecond: 0 }
}

/// The start of the Unix epoch.
pub fn epoch() -> (r: Timestamp)
    ensures
        r == epoch_spec(),
{
    Timestamp { year: 1970, month: 1, day: 1, hour: 0, minute: 0, second: 0, nanosecond: 0 }
}

/// The tracks that were played, each dated by when it was last played.
pub open spec fn played_tracks(s: Seq<Track>) -> Seq<Dated>
    decreases s.len(),
{
    if s.len() == 0 {
        Seq::empty()
    } else {
        let rest = played_tracks(s.drop_last());
        match s.last().last_played {
            Some(t) => rest.push((MediaItem::Track(s.last()), t)),
            None => rest,
        }
    }
}

/// The videos that were played, each dated by when it was last played.
pub open spec fn played_videos(s: Seq<YouTubeVideo>) -> Seq<Dated>
    decreases s.len(),
{
    if s.len() == 0 {
        Seq::empty()
    } else {
        let rest = played_videos(s.drop_last());
        match s.last().last_played {
            Some(t) => rest.push((MediaItem::Video(s.last()), t)),
            None => rest,
        }
    }
}

/// The tracks dated by when they were added (the epoch where unknown).
pub open spec fn added_tracks(s: Seq<Track>) -> Seq<Dated> {
    s.map_values(
        |t: Track|
            (
                MediaItem::Track(t),
                match t.added {
                    Some(a) => a,
                    None => epoch_spec(),
                },
            ),
    )
}

/// The videos dated by when they were added (when they were fetched where
/// unknown).
pub open spec fn added_videos(s: Seq<YouTubeVideo>) -> Seq<Dated> {
    s.map_values(
        |v: YouTubeVideo|
            (
                MediaItem::Video(v),
                match v.added {
                    Some(a) => a,
                    None => v.fetched_at,
                },
            ),
    )
}

/// The first `limit` items of an ordered list, as a database `LIMIT`
/// gives them: none for a limit of 0, all of them for a negative limit.
pub open spec fn limited(s: Seq<Dated>, limit: i64) -> Seq<MediaItem> {
    let kept = if 0 <= limit < s.len() {
        s.take(limit as int)
    } else {
        s
    };
    kept.map_values(|e: Dated| e.0)
}

/// The items of an ordered list, cut to `limit` where it is not negative.
fn limit_items(s: Vec<Dated>, limit: i64) -> (r: Vec<MediaItem>)
    ensures
        r@ == limited(s@, limit),
{
    let n: usize = if 0 <= limit && (limit as u64) < (s.len() as u64) {
        limit as usize
    } else {
        s.len()
    };
    let mut r: Vec<MediaItem> = Vec::new();
    let mut i: usize = 0;
    while i < n
        invariant
            n <= s@.len(),
            n == (if 0 <= limit < s@.len() { limit as int } else { s@.len() as int }),
            i <= n,
            r@ == s@.take(i as int).map_values(|e: Dated| e.0),
        decreases n - i,
    {
        r.push(s[i].0.duplicate());
        assert(r@ =~= s@.take(i + 1).map_values(|e: Dated| e.0));
        i = i + 1;
    }
    assert(s@.take(n as int) =~= (if 0 <= limit < s@.len() { s@.take(limit as int) } else { s@ }));
    r
}

/// The recently played list: played tracks, then played videos, ordered
/// by when they were last played, newest first, and cut to `limit` where it
/// is not negative.
pub open spec fn recently_played_spec(tracks: Seq<Track>, videos: Seq<YouTubeVideo>, limit: i64) -> Seq<
    MediaItem,
> {
    limited(newest_first(played_tracks(tracks) + played_videos(videos)), limit)
}

/// The recently added list: tracks, then videos, ordered by when they were
/// added, newest first, and cut to `limit` where it is not negative.
pub open spec fn recently_added_spec(tracks: Seq<Track>, videos: Seq<YouTubeVideo>, limit: i64) -> Seq<
    MediaItem,
> {
    limited(newest_first(added_tracks(tracks) + added_videos(videos)), limit)
}

/// The recently played list of the given tracks and videos.
pub fn recently_played(tracks: &Vec<Track>, videos: &Vec<YouTubeVideo>, limit: i64) -> (r: Vec<MediaItem>)
    ensures
        r@ == recently_played_spec(tracks@, videos@, limit),
{
    let mut items: Vec<Dated> = Vec::new();
    let mut i: usize = 0;
    while i < tracks.len()
        invariant
            i <= tracks@.len(),
            items@ == played_tracks(tracks@.take(i as int)),
        decreases tracks@.len() - i,
    {
        assert(tracks@.take(i + 1).drop_last() =~= tracks@.take(i as int));
        assert(tracks@.take(i + 1).last() == tracks@[i as int]);
        match tracks[i].last_played {
            Some(t) => items.push((MediaItem::Track(tracks[i].duplicate()), t)),
            None => {},
        }
        i = i + 1;
    }
    assert(tracks@.take(tracks@.len() as int) =~= tracks@);
    let ghost head = items@;
    let mut k: usize = 0;
    while k < videos.len()
        invariant
            k <= videos@.len(),
            head == played_tracks(tracks@),
            items@ == head + played_videos(videos@.take(k as int)),
        decreases videos@.len() - k,
    {
        assert(videos@.take(k + 1).drop_last() =~= videos@.take(k as int));
        assert(videos@.take(k + 1).last() == videos@[k as int]);
        match videos[k].last_played {
            Some(t) => {
                items.push((MediaItem::Video(videos[k].duplicate()), t));
                assert(items@ =~= head + played_videos(videos@.take(k + 1)));
            },
            None => {},
        }
        k = k + 1;
    }
    assert(videos@.take(videos@.len() as int) =~= videos@);
    let sorted = order_newest_first(&items);
    limit_items(sorted, limit)
}

/// The recently added list of the given tracks and videos.
pub fn recently_added(tracks: &Vec<Track>, videos: &Vec<YouTubeVideo>, limit: i64) -> (r: Vec<MediaItem>)
    ensures
        r@ == recently_added_spec(tracks@, videos@, limit),
{
    let mut items: Vec<Dated> = Vec::new();
    let mut i: usize = 0;
    while i < tracks.len()
        invariant
            i <= tracks@.len(),
            items@ == added_tracks(tracks@.take(i as int)),
        decreases tracks@.len() - i,
    {
        let added = match tracks[i].added {
            Some(a) => a,
            None => epoch(),
        };
        items.push((MediaItem::Track(tracks[i].duplicate()), added));
        assert(items@ =~= added_tracks(tracks@.take(i + 1)));
        i = i + 1;
    }
    assert(tracks@.take(tracks@.len() as int) =~= tracks@);
    let ghost head = items@;
    let mut k: usize = 0;
    while k < videos.len()
        invariant
            k <= videos@.len(),
            head == added_tracks(tracks@),
            items@ == head + added_videos(videos@.take(k as int)),
        decreases videos@.len() - k,
    {
        let added = match videos[k].added {
            Some(a) => a,
            None => videos[k].fetched_at,
        };
        items.push((MediaItem::Video(videos[k].duplicate()), added));
        assert(items@ =~= head + added_videos(videos@.take(k + 1)));
        k = k + 1;
    }
    assert(videos@.take(videos@.len() as int) =~= videos@);
    let sorted = order_newest_first(&items);
    limit_items(sorted, limit)
}

/// Each played entry is dated by when its item was last played.
proof fn lemma_played_dated(tracks: Seq<Track>, videos: Seq<YouTubeVideo>)
    ensures
        forall|k: int|
            0 <= k < (played_tracks(tracks) + played_videos(videos)).len() ==> item_last_played(
                (#[trigger] (played_tracks(tracks) + played_videos(videos))[k]).0,
            ) == Some((played_tracks(tracks) + played_videos(videos))[k].1),
    decreases tracks.len() + videos.len(),
{
    if videos.len() > 0 {
        lemma_played_dated(tracks, videos.drop_last());
        let a = played_tracks(tracks);
        let b = played_videos(videos.drop_last());
        match videos.last().last_played {
            Some(t) => {
                assert(a + played_videos(videos) =~= (a + b).push((MediaItem::Video(videos.last()), t)));
            },
            None => {},
        }
    } else if tracks.len() > 0 {
        lemma_played_dated(tracks.drop_last(), videos);
        assert(played_videos(videos) =~= Seq::<Dated>::empty());
        assert(played_tracks(tracks) + played_videos(videos) =~= played_tracks(tracks));
        assert(played_tracks(tracks.drop_last()) + played_videos(videos) =~= played_tracks(tracks.drop_last()));
    }
}

/// The recently played list holds only items that were played, the most
/// recently played first.
pub proof fn law_recently_played_newest_first(tracks: Seq<Track>, videos: Seq<YouTubeVideo>, limit: i64)
    ensures
        forall|i: int|
            0 <= i < recently_played_spec(tracks, videos, limit).len() ==> (#[trigger] item_last_played(
                recently_played_spec(tracks, videos, limit)[i],
            )) is Some,
        forall|i: int, j: int|
            0 <= i < j < recently_played_spec(tracks, videos, limit).len() ==> !ts_before(
                (#[trigger] item_last_played(recently_played_spec(tracks, videos, limit)[i]))->0,
                (#[trigger] item_last_played(recently_played_spec(tracks, videos, limit)[j]))->0,
            ),
{
    let e = played_tracks(tracks) + played_videos(videos);
    let s = newest_first(e);
    let r = recently_played_spec(tracks, videos, limit);
    lemma_played_dated(tracks, videos);
    law_newest_first(e);
    assert forall|k: int| 0 <= k < s.len() implies item_last_played((#[trigger] s[k]).0) == Some(s[k].1) by {
        assert(s.to_multiset().count(s[k]) > 0);
        assert(e.contains(s[k]));
        let m = choose|m: int| 0 <= m < e.len() && e[m] == s[k];
        assert(item_last_played(e[m].0) == Some(e[m].1));
    }
    let kept = if 0 <= limit < s.len() {
        s.take(limit as int)
    } else {
        s
    };
    assert(r == kept.map_values(|x: Dated| x.0));
    assert forall|i: int| 0 <= i < r.len() implies item_last_played(#[trigger] r[i]) == Some(kept[i].1) by {
        assert(kept[i] == s[i]);
    }
    assert forall|i: int, j: int| 0 <= i < j < r.len() implies !ts_before(
        (#[trigger] item_last_played(r[i]))->0,
        (#[trigger] item_last_played(r[j]))->0,
    ) by {
        assert(kept[i] == s[i] && kept[j] == s[j]);
        assert(item_last_played(r[i]) == Some(s[i].1));
        assert(item_last_played(r[j]) == Some(s[j].1));
    }
}

/// When an item counts as added: its added time, else the epoch for a
/// track and the time it was fetched for a video.
pub open spec fn added_date(item: MediaItem) -> Timestamp {
    match item {
        MediaItem::Track(t) => match t.added {
            Some(a) => a,
            None => epoch_spec(),
        },
        MediaItem::Video(v) => match v.added {
            Some(a) => a,
            None => v.fetched_at,
        },
    }
}

/// The recently added list holds every track and video, cut to the limit
/// where it is not negative, the most recently added first.
pub proof fn law_recently_added_newest_first(tracks: Seq<Track>, videos: Seq<YouTubeVideo>, limit: i64)
    ensures
        forall|i: int, j: int|
            0 <= i < j < recently_added_spec(tracks, videos, limit).len() ==> !ts_before(
                added_date(#[trigger] recently_added_spec(tracks, videos, limit)[i]),
                added_date(#[trigger] recently_added_spec(tracks, videos, limit)[j]),
            ),
        limit < 0 ==> recently_added_spec(tracks, videos, limit).len() == tracks.len() + videos.len(),
        0 <= limit <= tracks.len() + videos.len() ==> recently_added_spec(tracks, videos, limit).len() == limit,
{
    let e = added_tracks(tracks) + added_videos(videos);
    let s = newest_first(e);
    let r = recently_added_spec(tracks, videos, limit);
    law_newest_first(e);
    assert forall|k: int| 0 <= k < e.len() implies added_date((#[trigger] e[k]).0) == e[k].1 by {
        if k < tracks.len() {
            assert(e[k] == added_tracks(tracks)[k]);
        } else {
            assert(e[k] == added_videos(videos)[k - tracks.len()]);
        }
    }
    assert forall|k: int| 0 <= k < s.len() implies added_date((#[trigger] s[k]).0) == s[k].1 by {
        assert(s.to_multiset().count(s[k]) > 0);
        assert(e.contains(s[k]));
        let m = choose|m: int| 0 <= m < e.len() && e[m] == s[k];
        assert(added_date(e[m].0) == e[m].1);
    }
    let kept = if 0 <= limit < s.len() {
        s.take(limit as int)
    } else {
        s
    };
    assert(r == kept.map_values(|x: Dated| x.0));
    assert forall|i: int, j: int| 0 <= i < j < r.len() implies !ts_before(
        added_date(#[trigger] r[i]),
        added_date(#[trigger] r[j]),
    ) by {
        assert(kept[i] == s[i] && kept[j] == s[j]);
        assert(added_date(r[i]) == s[i].1);
        assert(added_date(r[j]) == s[j].1);
    }
}

} // verus!
