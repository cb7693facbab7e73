//! The library's media model: local tracks, YouTube videos and the
//! `MediaItem` that stands for either, with the display rules the front ends
//! share (titles, fallbacks, durations, dates).
use vstd::prelude::*;
use vstd::string::*;
use crate::text::{
    all_digits, digit_char, digits_value, lemma_nat_decimal_reads_back,
    int_decimal, int_zero_padded, magnitude, nat_decimal, push_char, push_int_decimal,
    push_int_zero_padded, push_nat_padded, push_str, to_owned_string, zero_pad,
};

verus! {

/// A calendar date and time of day, as stored for tracks and videos.
#[derive(Clone, Copy, Debug, PartialEq, Eq, Structural)]
pub struct Timestamp {
    pub year: i32,
    pub month: u8,
    pub day: u8,
    pub hour: u8,
    pub minute: u8,
    pub second: u8,
    pub nanosecond: u32,
}

/// A local audio file in the library.
#[derive(Clone, Debug)]
pub struct Track {
    pub filename: String,
    pub title: Option<String>,
    pub artist: Option<String>,
    pub track: Option<String>,
    pub album: Option<String>,
    pub genre: Option<String>,
    pub album_artist: Option<String>,
    pub added: Option<Timestamp>,
    pub duration_seconds: Option<i32>,
    pub play_count: i32,
    pub last_played: Option<Timestamp>,
}

/// A video of a followed YouTube channel or playlist.
#[derive(Clone, Debug)]
pub struct YouTubeVideo {
    pub id: i32,
    pub video_id: String,
    pub channel_id: i32,
    pub title: String,
    pub duration_seconds: Option<i32>,
    pub thumbnail_url: Option<String>,
    pub published_at: Option<Timestamp>,
    pub fetched_at: Timestamp,
    pub play_count: i32,
    pub last_played: Option<Timestamp>,
    pub added: Option<Timestamp>,
}

/// A followed YouTube channel (or playlist).
#[derive(Clone, Debug)]
pub struct YouTubeChannel {
    pub id: i32,
    pub channel_id: String,
    pub name: String,
    pub handle: Option<String>,
    pub url: String,
    pub thumbnail_url: Option<String>,
    pub last_fetched: Option<Timestamp>,
    pub created_at: Timestamp,
}

/// A user playlist.
#[derive(Clone, Debug)]
pub struct Playlist {
    pub id: i32,
    pub name: String,
    pub created_at: Timestamp,
}

/// Anything the player can play: a local track or a YouTube video.
#[derive(Clone, Debug)]
pub enum MediaItem {
    Track(Track),
    Video(YouTubeVideo),
}

/// A copy of an optional string.
pub fn clone_opt_string(o: &Option<String>) -> (r: Option<String>)
    ensures
        r == *o,
{
    match o {
        Some(s) => Some(s.clone()),
        None => None,
    }
}

/// A copy of an optional string slice, owned.
pub fn opt_str_to_string(o: Option<&str>) -> (r: Option<String>)
    ensures
        r is Some <==> o is Some,
        r matches Some(s) ==> s@ == o->0@,
{
    match o {
        Some(s) => Some(to_owned_string(s)),
        None => None,
    }
}

impl Track {
    /// A copy of this track.
    pub fn duplicate(&self) -> (r: Track)
        ensures
            r == *self,
    {
        Track {
            filename: self.filename.clone(),
            title: clone_opt_string(&self.title),
            artist: clone_opt_string(&self.artist),
            track: clone_opt_string(&self.track),
            album: clone_opt_string(&self.album),
            genre: clone_opt_string(&self.genre),
            album_artist: clone_opt_string(&self.album_artist),
            added: self.added,
            duration_seconds: self.duration_seconds,
            play_count: self.play_count,
            last_played: self.last_played,
        }
    }
}

impl YouTubeVideo {
    /// A copy of this video.
    pub fn duplicate(&self) -> (r: YouTubeVideo)
        ensures
            r == *self,
    {
        YouTubeVideo {
            id: self.id,
            video_id: self.video_id.clone(),
            channel_id: self.channel_id,
            title: self.title.clone(),
            duration_seconds: self.duration_seconds,
            thumbnail_url: clone_opt_string(&self.thumbnail_url),
            published_at: self.published_at,
            fetched_at: self.fetched_at,
            play_count: self.play_count,
            last_played: self.last_played,
            added: self.added,
        }
    }
}

impl Playlist {
    /// A copy of this playlist.
    pub fn duplicate(&self) -> (r: Playlist)
        ensures
            r == *self,
    {
        Playlist { id: self.id, name: self.name.clone(), created_at: self.created_at }
    }
}

/// The text shown for a missing tag.
pub open spec fn unknown() -> Seq<char> {
    seq!['U', 'n', 'k', 'n', 'o', 'w', 'n']
}

/// An optional tag, or `Unknown` when it is missing.
pub open spec fn or_unknown(o: Option<String>) -> Seq<char> {
    match o {
        Some(s) => s@,
        None => unknown(),
    }
}

/// The `Unknown` placeholder.
pub fn unknown_str() -> (r: &'static str)
    ensures
        r@ == unknown(),
{
    let r = "Unknown";
    proof {
        reveal_strlit("Unknown");
    }
    r
}

/// The empty string slice.
pub fn empty_str() -> (r: &'static str)
    ensures
        r@ == Seq::<char>::empty(),
{
    let r = "";
    proof {
        reveal_strlit("");
    }
    r
}

/// An optional tag as a string slice, or `Unknown` when it is missing.
pub fn str_or_unknown_ref(o: &Option<String>) -> (r: &str)
    ensures
        r@ == or_unknown(*o),
{
    match o {
        Some(s) => s.as_str(),
        None => unknown_str(),
    }
}

/// Minutes of a duration, as Rust's `/` computes them (towards zero).
pub open spec fn minutes_part(t: int) -> int {
    if t >= 0 {
        t / 60
    } else {
        -((-t) / 60)
    }
}

/// Seconds of a duration, as Rust's `%` computes them (sign of `t`).
pub open spec fn seconds_part(t: int) -> int {
    t - 60 * minutes_part(t)
}

/// `m:ss`, as `format!("{}:{:02}", t / 60, t % 60)` prints it.
pub open spec fn duration_text(t: int) -> Seq<char> {
    int_decimal(minutes_part(t)) + seq![':'] + int_zero_padded(seconds_part(t), 2)
}

/// Formats a number of seconds as minutes and two-digit seconds
/// (`185` becomes `3:05`).
pub fn format_duration_secs(total_secs: i32) -> (r: String)
    ensures
        r@ == duration_text(total_secs as int),
{
    let mins: i32 = total_secs / 60;
    let secs: i32 = total_secs % 60;
    assert(mins as int == minutes_part(total_secs as int) && secs as int == seconds_part(total_secs as int)) by {
        if total_secs < 0 {
            assert((-(total_secs as int)) / 60 * 60 <= -(total_secs as int));
        }
    }
    let mut r = String::new();
    push_int_decimal(&mut r, mins as i64);
    push_char(&mut r, ':');
    push_int_zero_padded(&mut r, secs as i64, 2);
    assert(r@ =~= duration_text(total_secs as int));
    r
}

/// The duration text of a number of seconds that is not negative reads
/// back as that number: decimal minutes, a colon (the only one), then two
/// digits of seconds below 60, with minutes times 60 plus seconds the
/// total.
pub proof fn law_duration_text_reads_back(t: int)
    requires
        t >= 0,
    ensures
        ({
            let d = duration_text(t);
            let k = d.len() - 3;
            &&& k >= 1
            &&& d[k] == ':'
            &&& forall|i: int| 0 <= i < d.len() && i != k ==> #[trigger] d[i] != ':'
            &&& all_digits(d.subrange(0, k))
            &&& all_digits(d.subrange(k + 1, d.len() as int))
            &&& digits_value(d.subrange(k + 1, d.len() as int)) < 60
            &&& digits_value(d.subrange(0, k)) * 60 + digits_value(d.subrange(k + 1, d.len() as int)) == t
        }),
{
    let m = t / 60;
    let sec = t % 60;
    assert(minutes_part(t) == m && seconds_part(t) == sec);
    lemma_nat_decimal_reads_back(m as nat);
    lemma_nat_decimal_reads_back(sec as nat);
    let md = nat_decimal(m as nat);
    let sd = nat_decimal(sec as nat);
    let ss = zero_pad(sd, 2);
    if sec >= 10 {
        assert(sd.len() == 2) by {
            reveal_with_fuel(nat_decimal, 2);
        }
        assert(ss == sd);
    } else {
        assert(sd == seq![digit_char(sec as nat)]);
        assert(ss =~= seq!['0', sd[0]]);
        assert(ss.drop_last() =~= seq!['0']);
        assert(seq!['0'].drop_last() =~= Seq::<char>::empty());
        assert(sd.drop_last() =~= Seq::<char>::empty());
    }
    assert(ss.len() == 2);
    assert(all_digits(ss) && digits_value(ss) == sec) by {
        if sec < 10 {
            assert(digits_value(seq!['0']) == 0);
        }
    }
    let d = duration_text(t);
    assert(d =~= md + seq![':'] + ss);
    let k = d.len() - 3;
    assert(k == md.len());
    assert(d.subrange(0, k) =~= md);
    assert(d.subrange(k + 1, d.len() as int) =~= ss);
    assert forall|i: int| 0 <= i < d.len() && i != k implies #[trigger] d[i] != ':' by {
        if i < k {
            assert(d[i] == md[i]);
            assert('0' <= md[i] <= '9');
        } else {
            assert(d[i] == ss[i - k - 1]);
            assert('0' <= ss[i - k - 1] <= '9');
        }
    }
}

/// Two characters for a month or a day, as chrono's `%m`/`%d` write them.
pub open spec fn two_digits(v: u8) -> Seq<char> {
    seq![((48 + v / 10) as u32) as char, ((48 + v % 10) as u32) as char]
}

/// A year, as chrono's `%Y` writes it: four digits for years 0 to 9999,
/// otherwise an explicit sign and at least four digits.
pub open spec fn year_text(y: int) -> Seq<char> {
    if 0 <= y <= 9999 {
        zero_pad(nat_decimal(y as nat), 4)
    } else if y >= 0 {
        seq!['+'] + zero_pad(nat_decimal(y as nat), 4)
    } else {
        seq!['-'] + zero_pad(nat_decimal((-y) as nat), 4)
    }
}

/// A date as `%Y-%m-%d`.
pub open spec fn date_text(d: Timestamp) -> Seq<char> {
    year_text(d.year as int) + seq!['-'] + two_digits(d.month) + seq!['-'] + two_digits(d.day)
}

/// The two characters of a month or day.
pub fn push_two_digits(s: &mut String, v: u8)
    ensures
        final(s)@ == old(s)@ + two_digits(v),
{
    let tens: u8 = v / 10;
    let ones: u8 = v % 10;
    push_char(s, (48u8 + tens) as char);
    push_char(s, (48u8 + ones) as char);
    assert(final(s)@ =~= old(s)@ + two_digits(v));
}

/// Formats the date part of a timestamp as `YYYY-MM-DD`.
pub fn format_date(d: &Timestamp) -> (r: String)
    ensures
        r@ == date_text(*d),
{
    let mut r = String::new();
    let y = d.year;
    if 0 <= y && y <= 9999 {
        push_nat_padded(&mut r, y as u64, 4);
    } else if y >= 0 {
        push_char(&mut r, '+');
        push_nat_padded(&mut r, y as u64, 4);
    } else {
        push_char(&mut r, '-');
        push_nat_padded(&mut r, magnitude(y as i64), 4);
    }
    assert(r@ =~= year_text(y as int));
    push_char(&mut r, '-');
    push_two_digits(&mut r, d.month);
    push_char(&mut r, '-');
    push_two_digits(&mut r, d.day);
    assert(r@ =~= date_text(*d));
    r
}

/// The text shown for an optional date: the date, or `-`.
pub open spec fn opt_date_text(d: Option<Timestamp>) -> Seq<char> {
    match d {
        Some(t) => date_text(t),
        None => seq!['-'],
    }
}

/// Formats an optional date, or `-` when there is none.
pub fn format_opt_date(d: Option<Timestamp>) -> (r: String)
    ensures
        r@ == opt_date_text(d),
{
    match d {
        Some(t) => format_date(&t),
        None => {
            let mut r = String::new();
            push_char(&mut r, '-');
            assert(r@ =~= seq!['-']);
            r
        },
    }
}

/// The thumbnail YouTube serves for a video id.
pub open spec fn default_thumbnail_url(video_id: Seq<char>) -> Seq<char> {
    "https://i.ytimg.com/vi/"@ + video_id + "/mqdefault.jpg"@
}

/// The thumbnail YouTube serves for a video id.
pub fn default_thumbnail(video_id: &str) -> (r: String)
    ensures
        r@ == default_thumbnail_url(video_id@),
{
    let mut r = String::new();
    push_str(&mut r, "https://i.ytimg.com/vi/");
    push_str(&mut r, video_id);
    push_str(&mut r, "/mqdefault.jpg");
    assert(r@ =~= default_thumbnail_url(video_id@));
    r
}

/// The thumbnail of a video: its own, or YouTube's default one.
pub open spec fn video_thumbnail_url(v: YouTubeVideo) -> Seq<char> {
    match v.thumbnail_url {
        Some(u) => u@,
        None => default_thumbnail_url(v.video_id@),
    }
}

/// The thumbnail of a video: its own, or YouTube's default one.
pub fn video_thumbnail(v: &YouTubeVideo) -> (r: String)
    ensures
        r@ == video_thumbnail_url(*v),
{
    match &v.thumbnail_url {
        Some(u) => u.clone(),
        None => default_thumbnail(v.video_id.as_str()),
    }
}

/// The title shown for an item.
pub open spec fn item_title(item: MediaItem) -> Seq<char> {
    match item {
        MediaItem::Track(t) => or_unknown(t.title),
        MediaItem::Video(v) => v.title@,
    }
}

/// The artist shown for an item (videos have none).
pub open spec fn item_artist(item: MediaItem) -> Seq<char> {
    match item {
        MediaItem::Track(t) => or_unknown(t.artist),
        MediaItem::Video(_) => Seq::empty(),
    }
}

/// The album shown for an item (videos have none).
pub open spec fn item_album(item: MediaItem) -> Seq<char> {
    match item {
        MediaItem::Track(t) => or_unknown(t.album),
        MediaItem::Video(_) => Seq::empty(),
    }
}

/// The duration of an item, when known.
pub open spec fn item_duration(item: MediaItem) -> Option<i32> {
    match item {
        MediaItem::Track(t) => t.duration_seconds,
        MediaItem::Video(v) => v.duration_seconds,
    }
}

/// When an item was last played.
pub open spec fn item_last_played(item: MediaItem) -> Option<Timestamp> {
    match item {
        MediaItem::Track(t) => t.last_played,
        MediaItem::Video(v) => v.last_played,
    }
}

/// When an item was added.
pub open spec fn item_added(item: MediaItem) -> Option<Timestamp> {
    match item {
        MediaItem::Track(t) => t.added,
        MediaItem::Video(v) => v.added,
    }
}

/// The duration text of an item: `m:ss`, or `?:??` when unknown.
pub open spec fn item_duration_text(item: MediaItem) -> Seq<char> {
    match item_duration(item) {
        Some(s) => duration_text(s as int),
        None => seq!['?', ':', '?', '?'],
    }
}

/// The file of a track item.
pub open spec fn item_track_filename(item: MediaItem) -> Option<Seq<char>> {
    match item {
        MediaItem::Track(t) => Some(t.filename@),
        MediaItem::Video(_) => None,
    }
}

/// The YouTube id of a video item.
pub open spec fn item_youtube_id(item: MediaItem) -> Option<Seq<char>> {
    match item {
        MediaItem::Track(_) => None,
        MediaItem::Video(v) => Some(v.video_id@),
    }
}

impl MediaItem {
    /// A copy of this item.
    pub fn duplicate(&self) -> (r: MediaItem)
        ensures
            r == *self,
    {
        match self {
            MediaItem::Track(t) => MediaItem::Track(t.duplicate()),
            MediaItem::Video(v) => MediaItem::Video(v.duplicate()),
        }
    }

    /// The title: a track's title tag (or `Unknown`), a video's title.
    pub fn title(&self) -> (r: &str)
        ensures
            r@ == item_title(*self),
    {
        match self {
            MediaItem::Track(t) => str_or_unknown_ref(&t.title),
            MediaItem::Video(v) => v.title.as_str(),
        }
    }

    /// The artist: a track's artist tag (or `Unknown`); empty for a video.
    pub fn artist(&self) -> (r: &str)
        ensures
            r@ == item_artist(*self),
    {
        match self {
            MediaItem::Track(t) => str_or_unknown_ref(&t.artist),
            MediaItem::Video(_) => empty_str(),
        }
    }

    /// The artist, where a video shows the name of its channel from
    /// `channel_names` (id, name) or nothing when the channel is not listed.
    pub fn artist_with_channel_names(&self, channel_names: &Vec<(i32, String)>) -> (r: String)
        requires
            forall|i: int, j: int|
                0 <= i < j < channel_names@.len() ==> channel_names@[i].0 != channel_names@[j].0,
        ensures
            r@ == match *self {
                MediaItem::Track(t) => or_unknown(t.artist),
                MediaItem::Video(v) => channel_name_of(channel_names@, v.channel_id),
            },
    {
        match self {
            MediaItem::Track(t) => to_owned_string(str_or_unknown_ref(&t.artist)),
            MediaItem::Video(v) => lookup_channel_name(channel_names, v.channel_id),
        }
    }

    /// The album: a track's album tag (or `Unknown`); empty for a video.
    pub fn album(&self) -> (r: &str)
        ensures
            r@ == item_album(*self),
    {
        match self {
            MediaItem::Track(t) => str_or_unknown_ref(&t.album),
            MediaItem::Video(_) => empty_str(),
        }
    }

    /// The duration in seconds, when known.
    pub fn duration_seconds(&self) -> (r: Option<i32>)
        ensures
            r == item_duration(*self),
    {
        match self {
            MediaItem::Track(t) => t.duration_seconds,
            MediaItem::Video(v) => v.duration_seconds,
        }
    }

    /// The duration as `m:ss`, or `?:??` when unknown.
    pub fn duration_str(&self) -> (r: String)
        ensures
            r@ == item_duration_text(*self),
    {
        match self.duration_seconds() {
            Some(s) => format_duration_secs(s),
            None => {
                let mut r = String::new();
                push_str(&mut r, "?:??");
                proof {
                    reveal_strlit("?:??");
                }
                assert(r@ =~= seq!['?', ':', '?', '?']);
                r
            },
        }
    }

    /// When the item was last played.
    pub fn last_played(&self) -> (r: Option<Timestamp>)
        ensures
            r == item_last_played(*self),
    {
        match self {
            MediaItem::Track(t) => t.last_played,
            MediaItem::Video(v) => v.last_played,
        }
    }

    /// When the item was added to the library.
    pub fn added(&self) -> (r: Option<Timestamp>)
        ensures
            r == item_added(*self),
    {
        match self {
            MediaItem::Track(t) => t.added,
            MediaItem::Video(v) => v.added,
        }
    }

    /// How often the item has been played.
    pub fn play_count(&self) -> (r: i32)
        ensures
            r == match *self {
                MediaItem::Track(t) => t.play_count,
                MediaItem::Video(v) => v.play_count,
            },
    {
        match self {
            MediaItem::Track(t) => t.play_count,
            MediaItem::Video(v) => v.play_count,
        }
    }

    /// The last-played date as `YYYY-MM-DD`, or `-`.
    pub fn last_played_str(&self) -> (r: String)
        ensures
            r@ == opt_date_text(item_last_played(*self)),
    {
        format_opt_date(self.last_played())
    }

    /// The added date as `YYYY-MM-DD`, or `-`.
    pub fn added_str(&self) -> (r: String)
        ensures
            r@ == opt_date_text(item_added(*self)),
    {
        format_opt_date(self.added())
    }

    /// The track, when the item is one.
    pub fn as_track(&self) -> (r: Option<&Track>)
        ensures
            match *self {
                MediaItem::Track(t) => r == Some(&t),
                MediaItem::Video(_) => r is None,
            },
    {
        match self {
            MediaItem::Track(t) => Some(t),
            MediaItem::Video(_) => None,
        }
    }

    /// The video, when the item is one.
    pub fn as_video(&self) -> (r: Option<&YouTubeVideo>)
        ensures
            match *self {
                MediaItem::Track(_) => r is None,
                MediaItem::Video(v) => r == Some(&v),
            },
    {
        match self {
            MediaItem::Track(_) => None,
            MediaItem::Video(v) => Some(v),
        }
    }

    /// The thumbnail of a video item (its own or YouTube's default); none
    /// for a track.
    pub fn thumbnail_url(&self) -> (r: Option<String>)
        ensures
            match *self {
                MediaItem::Track(_) => r is None,
                MediaItem::Video(v) => r is Some && r->0@ == video_thumbnail_url(v),
            },
    {
        match self {
            MediaItem::Track(_) => None,
            MediaItem::Video(v) => Some(video_thumbnail(v)),
        }
    }

    /// The file of a track item.
    pub fn track_filename(&self) -> (r: Option<&str>)
        ensures
            r is Some <==> item_track_filename(*self) is Some,
            r matches Some(s) ==> Some(s@) == item_track_filename(*self),
    {
        match self {
            MediaItem::Track(t) => Some(t.filename.as_str()),
            MediaItem::Video(_) => None,
        }
    }

    /// The database id of a video item.
    pub fn video_db_id(&self) -> (r: Option<i32>)
        ensures
            r == match *self {
                MediaItem::Track(_) => None,
                MediaItem::Video(v) => Some(v.id),
            },
    {
        match self {
            MediaItem::Track(_) => None,
            MediaItem::Video(v) => Some(v.id),
        }
    }

    /// The YouTube id of a video item.
    pub fn youtube_video_id(&self) -> (r: Option<&str>)
        ensures
            r is Some <==> item_youtube_id(*self) is Some,
            r matches Some(s) ==> Some(s@) == item_youtube_id(*self),
    {
        match self {
            MediaItem::Track(_) => None,
            MediaItem::Video(v) => Some(v.video_id.as_str()),
        }
    }
}

/// The name listed for a channel id, or nothing when it is not listed.
pub open spec fn channel_name_of(names: Seq<(i32, String)>, id: i32) -> Seq<char> {
    if exists|i: int| 0 <= i < names.len() && names[i].0 == id {
        names[choose|i: int| 0 <= i < names.len() && names[i].0 == id].1@
    } else {
        Seq::empty()
    }
}

/// Looks up the name of a channel by its id.
pub fn lookup_channel_name(names: &Vec<(i32, String)>, id: i32) -> (r: String)
    requires
        forall|i: int, j: int| 0 <= i < j < names@.len() ==> names@[i].0 != names@[j].0,
    ensures
        r@ == channel_name_of(names@, id),
{
    let mut i: usize = 0;
    while i < names.len()
        invariant
            i <= names.len(),
            forall|j: int| 0 <= j < i ==> names@[j].0 != id,
            forall|a: int, b: int| 0 <= a < b < names@.len() ==> names@[a].0 != names@[b].0,
        decreases names.len() - i,
    {
        if names[i].0 == id {
            proof {
                assert(names@[i as int].0 == id);
                let k = choose|k: int| 0 <= k < names@.len() && names@[k].0 == id;
                if k < i {
                    assert(names@[k].0 != id);
                } else if k > i {
                    assert(names@[i as int].0 != names@[k].0);
                }
                assert(k == i);
            }
            return names[i].1.clone();
        }
        i = i + 1;
    }
    String::new()
}

} // verus!
