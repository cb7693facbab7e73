//! Following YouTube channels and playlists: which input names what, the
//! `yt-dlp` invocation, and how its per-video JSON records become channel
//! and video information.
use vstd::prelude::*;
use vstd::string::*;
use vstd::utf8::encode_utf8;
use crate::media::Timestamp;
use chrono::{Datelike, Timelike};
use crate::text::{
    chars_of, find_first, occurs_at, first_occurrence, push_str, seq_contains, seq_starts_with, str_contains,
    str_eq, str_starts_with, string_from_chars, to_owned_string,
};

verus! {

/// A followed channel or playlist, as `yt-dlp` describes it.
#[derive(Debug, Clone)]
pub struct ChannelInfo {
    pub channel_id: String,
    pub name: String,
    pub handle: Option<String>,
    pub url: String,
    pub thumbnail_url: Option<String>,
}

/// One video of a channel or playlist, as `yt-dlp` lists it.
#[derive(Debug, Clone)]
pub struct VideoInfo {
    pub video_id: String,
    pub title: String,
    pub duration_seconds: Option<i32>,
    pub thumbnail_url: Option<String>,
    pub published_at: Option<Timestamp>,
}

/// One JSON record of `yt-dlp --dump-json --flat-playlist`, the duration
/// already in whole seconds.
#[derive(Debug, Clone)]
pub struct YtDlpPlaylistEntry {
    pub id: Option<String>,
    pub title: Option<String>,
    pub duration_seconds: Option<i32>,
    pub thumbnail: Option<String>,
    pub upload_date: Option<String>,
    pub channel: Option<String>,
    pub channel_id: Option<String>,
    pub channel_url: Option<String>,
    pub uploader: Option<String>,
    pub uploader_id: Option<String>,
    pub uploader_url: Option<String>,
    pub playlist_channel: Option<String>,
    pub playlist_channel_id: Option<String>,
    pub playlist_uploader: Option<String>,
    pub playlist_uploader_id: Option<String>,
    pub playlist_webpage_url: Option<String>,
    pub playlist_title: Option<String>,
    pub playlist_id: Option<String>,
    pub entry_type: Option<String>,
}

/// The URL that a user's input names: a YouTube URL as it is, a handle
/// (`@name`), a channel id (`UC…`, more than 20 bytes) or a playlist id
/// (`PL…`, more than 10 bytes); anything else names nothing.
pub open spec fn youtube_url_of(url: Seq<char>) -> Option<Seq<char>> {
    if seq_contains(url, "youtube.com"@) || seq_contains(url, "youtu.be"@) {
        Some(url)
    } else if seq_starts_with(url, seq!['@']) {
        Some("https://www.youtube.com/"@ + url + "/videos"@)
    } else if seq_starts_with(url, seq!['U', 'C']) && encode_utf8(url).len() > 20 {
        Some("https://www.youtube.com/channel/"@ + url + "/videos"@)
    } else if seq_starts_with(url, seq!['P', 'L']) && encode_utf8(url).len() > 10 {
        Some("https://www.youtube.com/playlist?list="@ + url)
    } else {
        None
    }
}

/// The URL that a user's input names, if any.
pub fn parse_youtube_url(url: &str) -> (r: Option<String>)
    ensures
        r is Some <==> youtube_url_of(url@) is Some,
        r matches Some(s) ==> s@ == youtube_url_of(url@)->0,
{
    proof {
        reveal_strlit("@");
        reveal_strlit("UC");
        reveal_strlit("PL");
        assert("@"@ =~= seq!['@']);
        assert("UC"@ =~= seq!['U', 'C']);
        assert("PL"@ =~= seq!['P', 'L']);
    }
    if str_contains(url, "youtube.com") || str_contains(url, "youtu.be") {
        Some(to_owned_string(url))
    } else if str_starts_with(url, "@") {
        let mut s = String::new();
        push_str(&mut s, "https://www.youtube.com/");
        push_str(&mut s, url);
        push_str(&mut s, "/videos");
        Some(s)
    } else if str_starts_with(url, "UC") && url.as_bytes().len() > 20 {
        let mut s = String::new();
        push_str(&mut s, "https://www.youtube.com/channel/");
        push_str(&mut s, url);
        push_str(&mut s, "/videos");
        Some(s)
    } else if str_starts_with(url, "PL") && url.as_bytes().len() > 10 {
        let mut s = String::new();
        push_str(&mut s, "https://www.youtube.com/playlist?list=");
        push_str(&mut s, url);
        Some(s)
    } else {
        None
    }
}

/// A URL lists a playlist when it has a `list` query parameter.
pub open spec fn is_playlist_text(url: Seq<char>) -> bool {
    seq_contains(url, "playlist?list="@) || seq_contains(url, "&list="@)
}

/// Whether a URL lists a playlist.
pub fn is_playlist_url(url: &str) -> (r: bool)
    ensures
        r == is_playlist_text(url@),
{
    str_contains(url, "playlist?list=") || str_contains(url, "&list=")
}

/// The `@handle` in a channel URL: from the `@` after the first `/@` up to
/// the next `/` (or the end).
pub open spec fn handle_of(url: Seq<char>) -> Option<Seq<char>> {
    match first_occurrence(url, seq!['/', '@']) {
        Some(start) => {
            let rest = url.subrange(start + 1, url.len() as int);
            match first_occurrence(rest, seq!['/']) {
                Some(end) => Some(rest.subrange(0, end)),
                None => Some(rest),
            }
        },
        None => None,
    }
}

/// The `@handle` in a channel URL, if it has one.
pub fn extract_handle(url: &str) -> (r: Option<String>)
    ensures
        r is Some <==> handle_of(url@) is Some,
        r matches Some(s) ==> s@ == handle_of(url@)->0,
{
    let u = chars_of(url);
    let mut pat: Vec<char> = Vec::new();
    pat.push('/');
    pat.push('@');
    assert(pat@ =~= seq!['/', '@']);
    match find_first(&u, &pat) {
        Some(start) => {
            assert(occurs_at(u@, pat@, start as int));
            assert(pat@.len() == 2);
            let n = u.len();
            assert(start + 2 <= n);
            let mut rest: Vec<char> = Vec::new();
            let mut i: usize = start + 1;
            while i < u.len()
                invariant
                    start + 1 <= i <= u.len(),
                    rest@ == u@.subrange(start + 1, i as int),
                decreases u.len() - i,
            {
                rest.push(u[i]);
                i = i + 1;
                assert(rest@ =~= u@.subrange(start + 1, i as int));
            }
            let mut slash: Vec<char> = Vec::new();
            slash.push('/');
            assert(slash@ =~= seq!['/']);
            match find_first(&rest, &slash) {
                Some(end) => {
                    let mut h: Vec<char> = Vec::new();
                    let mut k: usize = 0;
                    while k < end
                        invariant
                            end <= rest.len(),
                            k <= end,
                            h@ == rest@.subrange(0, k as int),
                        decreases end - k,
                    {
                        h.push(rest[k]);
                        k = k + 1;
                        assert(h@ =~= rest@.subrange(0, k as int));
                    }
                    Some(string_from_chars(&h))
                },
                None => Some(string_from_chars(&rest)),
            }
        },
        None => None,
    }
}

/// A copy of an optional string.
fn copy_opt(o: &Option<String>) -> (r: Option<String>)
    ensures
        r == *o,
{
    match o {
        Some(s) => Some(s.clone()),
        None => None,
    }
}

/// The first of two optional strings that is present.
pub open spec fn or_opt(a: Option<String>, b: Option<String>) -> Option<String> {
    match a {
        Some(s) => Some(s),
        None => b,
    }
}

fn first_present(a: &Option<String>, b: &Option<String>) -> (r: Option<String>)
    ensures
        r == or_opt(*a, *b),
{
    match a {
        Some(s) => Some(s.clone()),
        None => copy_opt(b),
    }
}

/// An optional string, kept only when it is a handle (starts with `@`).
pub open spec fn as_handle(o: Option<String>) -> Option<String> {
    match o {
        Some(h) => if seq_starts_with(h@, seq!['@']) {
            Some(h)
        } else {
            None
        },
        None => None,
    }
}

fn keep_handle(o: &Option<String>) -> (r: Option<String>)
    ensures
        r == as_handle(*o),
{
    proof {
        reveal_strlit("@");
        assert("@"@ =~= seq!['@']);
    }
    match o {
        Some(h) => if str_starts_with(h.as_str(), "@") {
            Some(h.clone())
        } else {
            None
        },
        None => None,
    }
}

/// The text of an optional string, or a fallback.
pub open spec fn text_or(o: Option<String>, fallback: Seq<char>) -> Seq<char> {
    match o {
        Some(s) => s@,
        None => fallback,
    }
}

fn string_or(o: Option<String>, fallback: &str) -> (r: String)
    ensures
        r@ == text_or(o, fallback@),
{
    match o {
        Some(s) => s,
        None => to_owned_string(fallback),
    }
}

/// The id a channel record is known by: its channel id, else its
/// uploader id, else its playlist's channel id.
pub open spec fn entry_channel_id(e: YtDlpPlaylistEntry) -> Option<String> {
    or_opt(or_opt(e.channel_id, e.uploader_id), e.playlist_channel_id)
}

/// The channel or playlist a record describes, if it names one. For a
/// playlist: its id, title, the uploader's handle and the playlist page.
/// For a channel: its id, the first name given, the first URL given (else
/// the requested URL) and a handle from the uploader or the URL. Neither
/// comes with a thumbnail.
pub open spec fn channel_info_of(
    e: YtDlpPlaylistEntry,
    is_playlist: bool,
    parsed_url: Seq<char>,
) -> Option<(Seq<char>, Seq<char>, Option<Seq<char>>, Seq<char>, Option<Seq<char>>)> {
    if is_playlist {
        match e.playlist_id {
            Some(pl) => Some(
                (
                    pl@,
                    text_or(e.playlist_title, "Unknown Playlist"@),
                    match as_handle(e.playlist_uploader_id) {
                        Some(h) => Some(h@),
                        None => None,
                    },
                    text_or(e.playlist_webpage_url, parsed_url),
                    None,
                ),
            ),
            None => None,
        }
    } else {
        match entry_channel_id(e) {
            Some(id) => {
                let url = text_or(
                    or_opt(or_opt(e.channel_url, e.uploader_url), e.playlist_webpage_url),
                    parsed_url,
                );
                Some(
                    (
                        id@,
                        text_or(
                            or_opt(or_opt(or_opt(e.channel, e.uploader), e.playlist_channel), e.playlist_uploader),
                            "Unknown Channel"@,
                        ),
                        match as_handle(e.playlist_uploader_id) {
                            Some(h) => Some(h@),
                            None => handle_of(url),
                        },
                        url,
                        None,
                    ),
                )
            },
            None => None,
        }
    }
}

/// The view of a channel description: id, name, handle, URL, thumbnail.
pub open spec fn channel_view(c: ChannelInfo) -> (Seq<char>, Seq<char>, Option<Seq<char>>, Seq<char>, Option<Seq<char>>) {
    (
        c.channel_id@,
        c.name@,
        match c.handle {
            Some(h) => Some(h@),
            None => None,
        },
        c.url@,
        match c.thumbnail_url {
            Some(t) => Some(t@),
            None => None,
        },
    )
}

/// The id in a channel description (empty for none).
pub open spec fn followed_id(o: Option<(Seq<char>, Seq<char>, Option<Seq<char>>, Seq<char>, Option<Seq<char>>)>) -> Seq<char> {
    match o {
        Some((id, _, _, _, _)) => id,
        None => Seq::empty(),
    }
}

/// The name in a channel description (empty for none).
pub open spec fn followed_name(o: Option<(Seq<char>, Seq<char>, Option<Seq<char>>, Seq<char>, Option<Seq<char>>)>) -> Seq<char> {
    match o {
        Some((_, name, _, _, _)) => name,
        None => Seq::empty(),
    }
}

/// The URL in a channel description (empty for none).
pub open spec fn followed_url(o: Option<(Seq<char>, Seq<char>, Option<Seq<char>>, Seq<char>, Option<Seq<char>>)>) -> Seq<char> {
    match o {
        Some((_, _, _, url, _)) => url,
        None => Seq::empty(),
    }
}

/// The handle in a channel description.
pub open spec fn followed_handle(o: Option<(Seq<char>, Seq<char>, Option<Seq<char>>, Seq<char>, Option<Seq<char>>)>) -> Option<Seq<char>> {
    match o {
        Some((_, _, handle, _, _)) => handle,
        None => None,
    }
}

/// The thumbnail in a channel description.
pub open spec fn followed_thumbnail(o: Option<(Seq<char>, Seq<char>, Option<Seq<char>>, Seq<char>, Option<Seq<char>>)>) -> Option<Seq<char>> {
    match o {
        Some((_, _, _, _, thumbnail)) => thumbnail,
        None => None,
    }
}

/// What a record makes of the followed playlist or channel. A playlist
/// needs a playlist id, which is its id; it is named by the playlist's
/// title (`Unknown Playlist` without one), found at the playlist's page
/// (else the requested URL). A channel needs a channel id, an uploader id or
/// a playlist channel id, the first of them being its id; it is named by
/// the channel name, else the uploader, else the playlist channel, else the
/// playlist uploader (`Unknown Channel` without any), and found at the
/// channel URL, else the uploader URL, else the playlist page, else the
/// requested URL. Both take the playlist uploader id as handle when it
/// starts with `@`; otherwise a playlist has none and a channel takes the
/// one its URL names. Neither has a thumbnail.
pub proof fn law_followed_channel_fields(e: YtDlpPlaylistEntry, parsed_url: Seq<char>)
    ensures
        channel_info_of(e, true, parsed_url) is Some <==> e.playlist_id is Some,
        e.playlist_id is Some ==> followed_id(channel_info_of(e, true, parsed_url)) == e.playlist_id->0@,
        e.playlist_id is Some && e.playlist_title is Some ==> followed_name(channel_info_of(e, true, parsed_url))
            == e.playlist_title->0@,
        e.playlist_id is Some && e.playlist_title is None ==> followed_name(channel_info_of(e, true, parsed_url))
            == "Unknown Playlist"@,
        e.playlist_id is Some && e.playlist_webpage_url is Some ==> followed_url(channel_info_of(e, true, parsed_url)) == e.playlist_webpage_url->0@,
        e.playlist_id is Some && e.playlist_webpage_url is None ==> followed_url(channel_info_of(e, true, parsed_url))
            == parsed_url,
        channel_info_of(e, false, parsed_url) is Some <==> (e.channel_id is Some || e.uploader_id is Some
            || e.playlist_channel_id is Some),
        e.channel_id is Some ==> followed_id(channel_info_of(e, false, parsed_url)) == e.channel_id->0@,
        e.channel_id is None && e.uploader_id is Some ==> followed_id(channel_info_of(e, false, parsed_url))
            == e.uploader_id->0@,
        e.channel_id is None && e.uploader_id is None && e.playlist_channel_id is Some
            ==> followed_id(channel_info_of(e, false, parsed_url)) == e.playlist_channel_id->0@,
        channel_info_of(e, false, parsed_url) is Some && e.channel is Some ==> followed_name(channel_info_of(e, false, parsed_url)) == e.channel->0@,
        channel_info_of(e, false, parsed_url) is Some && e.channel is None && e.uploader is Some
            ==> followed_name(channel_info_of(e, false, parsed_url)) == e.uploader->0@,
        channel_info_of(e, false, parsed_url) is Some && e.channel is None && e.uploader is None
            && e.playlist_channel is Some ==> followed_name(channel_info_of(e, false, parsed_url)) == e.playlist_channel->0@,
        channel_info_of(e, false, parsed_url) is Some && e.channel is None && e.uploader is None
            && e.playlist_channel is None && e.playlist_uploader is Some ==> followed_name(channel_info_of(e, false, parsed_url)) == e.playlist_uploader->0@,
        channel_info_of(e, false, parsed_url) is Some && e.channel is None && e.uploader is None
            && e.playlist_channel is None && e.playlist_uploader is None ==> followed_name(channel_info_of(e, false, parsed_url)) == "Unknown Channel"@,
        e.playlist_id is Some && e.playlist_uploader_id is Some && seq_starts_with(e.playlist_uploader_id->0@, seq!['@'])
            ==> followed_handle(channel_info_of(e, true, parsed_url)) == Some(e.playlist_uploader_id->0@),
        e.playlist_id is Some && !(e.playlist_uploader_id is Some && seq_starts_with(e.playlist_uploader_id->0@, seq!['@']))
            ==> followed_handle(channel_info_of(e, true, parsed_url)) is None,
        channel_info_of(e, false, parsed_url) is Some && e.playlist_uploader_id is Some && seq_starts_with(
            e.playlist_uploader_id->0@,
            seq!['@'],
        ) ==> followed_handle(channel_info_of(e, false, parsed_url)) == Some(e.playlist_uploader_id->0@),
        channel_info_of(e, false, parsed_url) is Some && !(e.playlist_uploader_id is Some && seq_starts_with(
            e.playlist_uploader_id->0@,
            seq!['@'],
        )) ==> followed_handle(channel_info_of(e, false, parsed_url)) == handle_of(
            followed_url(channel_info_of(e, false, parsed_url)),
        ),
        channel_info_of(e, false, parsed_url) is Some && e.channel_url is Some ==> followed_url(
            channel_info_of(e, false, parsed_url),
        ) == e.channel_url->0@,
        channel_info_of(e, false, parsed_url) is Some && e.channel_url is None && e.uploader_url is Some
            ==> followed_url(channel_info_of(e, false, parsed_url)) == e.uploader_url->0@,
        channel_info_of(e, false, parsed_url) is Some && e.channel_url is None && e.uploader_url is None
            && e.playlist_webpage_url is Some ==> followed_url(channel_info_of(e, false, parsed_url))
            == e.playlist_webpage_url->0@,
        channel_info_of(e, false, parsed_url) is Some && e.channel_url is None && e.uploader_url is None
            && e.playlist_webpage_url is None ==> followed_url(channel_info_of(e, false, parsed_url)) == parsed_url,
        channel_info_of(e, true, parsed_url) is Some ==> followed_thumbnail(channel_info_of(e, true, parsed_url)) is None,
        channel_info_of(e, false, parsed_url) is Some ==> followed_thumbnail(channel_info_of(e, false, parsed_url)) is None,
{
}

/// The channel or playlist a `yt-dlp` record describes, if it names one.
pub fn channel_info_from_entry(e: &YtDlpPlaylistEntry, is_playlist: bool, parsed_url: &str) -> (r:
    Option<ChannelInfo>)
    ensures
        r is Some <==> channel_info_of(*e, is_playlist, parsed_url@) is Some,
        r matches Some(c) ==> channel_view(c) == channel_info_of(*e, is_playlist, parsed_url@)->0
            && c.thumbnail_url is None,
{
    if is_playlist {
        match &e.playlist_id {
            Some(pl) => {
                let name = string_or(copy_opt(&e.playlist_title), "Unknown Playlist");
                let url = string_or(copy_opt(&e.playlist_webpage_url), parsed_url);
                let handle = keep_handle(&e.playlist_uploader_id);
                Some(ChannelInfo { channel_id: pl.clone(), name, handle, url, thumbnail_url: None })
            },
            None => None,
        }
    } else {
        let id = first_present(&first_present(&e.channel_id, &e.uploader_id), &e.playlist_channel_id);
        match id {
            Some(id) => {
                let name = string_or(
                    first_present(
                        &first_present(&first_present(&e.channel, &e.uploader), &e.playlist_channel),
                        &e.playlist_uploader,
                    ),
                    "Unknown Channel",
                );
                let url = string_or(
                    first_present(&first_present(&e.channel_url, &e.uploader_url), &e.playlist_webpage_url),
                    parsed_url,
                );
                let handle = match keep_handle(&e.playlist_uploader_id) {
                    Some(h) => Some(h),
                    None => extract_handle(url.as_str()),
                };
                Some(ChannelInfo { channel_id: id, name, handle, url, thumbnail_url: None })
            },
            None => None,
        }
    }
}

/// What `chrono::NaiveDateTime::parse_from_str` reads from a text with a
/// format, when it reads a date and time.
pub uninterp spec fn chrono_parse_datetime(text: Seq<char>, format: Seq<char>) -> Option<Timestamp>;

/// Reads a date and time from a text with a format, through
/// `chrono::NaiveDateTime::parse_from_str`; `None` when chrono refuses it.
#[verifier::external_body]
fn parse_datetime(text: &str, format: &str) -> (r: Option<Timestamp>)
    ensures
        r == chrono_parse_datetime(text@, format@),
{
    let t = chrono::NaiveDateTime::parse_from_str(text, format).ok()?;
    Some(Timestamp {
        year: t.year(),
        month: t.month() as u8,
        day: t.day() as u8,
        hour: t.hour() as u8,
        minute: t.minute() as u8,
        second: t.second() as u8,
        nanosecond: t.nanosecond(),
    })
}

/// An upload date (`YYYYMMDD`) is midnight of that day: the date with
/// ` 00:00:00`, read as `%Y%m%d %H:%M:%S`.
pub open spec fn upload_date_of(d: Seq<char>) -> Option<Timestamp> {
    chrono_parse_datetime(d + " 00:00:00"@, "%Y%m%d %H:%M:%S"@)
}

/// Reads a `yt-dlp` upload date as midnight of that day.
pub fn parse_upload_date(d: &str) -> (r: Option<Timestamp>)
    ensures
        r == upload_date_of(d@),
{
    let mut text = to_owned_string(d);
    push_str(&mut text, " 00:00:00");
    parse_datetime(text.as_str(), "%Y%m%d %H:%M:%S")
}

/// The video a record lists: every record with an id that is not itself
/// a playlist; untitled videos are called `Unknown`.
pub open spec fn video_listed(e: YtDlpPlaylistEntry) -> bool {
    e.id is Some && !(e.entry_type matches Some(t) && t@ == "playlist"@)
}

/// Whether `v` is the video record `e` lists: its id, its title (else
/// `Unknown`), duration, thumbnail, and upload date read as midnight.
pub open spec fn is_video_of(v: VideoInfo, e: YtDlpPlaylistEntry) -> bool {
    &&& v.video_id@ == e.id->0@
    &&& v.title@ == text_or(e.title, "Unknown"@)
    &&& v.duration_seconds == e.duration_seconds
    &&& v.thumbnail_url == e.thumbnail
    &&& v.published_at == match e.upload_date {
        Some(d) => upload_date_of(d@),
        None => None,
    }
}

/// The video a `yt-dlp` record lists, if any.
pub fn video_from_entry(e: &YtDlpPlaylistEntry) -> (r: Option<VideoInfo>)
    ensures
        r is Some <==> video_listed(*e),
        r matches Some(v) ==> is_video_of(v, *e),
{
    match &e.id {
        Some(id) => {
            let is_playlist_record = match &e.entry_type {
                Some(t) => str_eq(t.as_str(), "playlist"),
                None => false,
            };
            if is_playlist_record {
                return None;
            }
            let published_at = match &e.upload_date {
                Some(d) => parse_upload_date(d.as_str()),
                None => None,
            };
            Some(
                VideoInfo {
                    video_id: id.clone(),
                    title: string_or(copy_opt(&e.title), "Unknown"),
                    duration_seconds: e.duration_seconds,
                    thumbnail_url: copy_opt(&e.thumbnail),
                    published_at,
                },
            )
        },
        None => None,
    }
}

/// The `yt-dlp` arguments for a URL: JSON records of the flat list, at most
/// the first 100 videos of a channel, all of a playlist.
pub open spec fn fetch_args_text(url: Seq<char>, is_playlist: bool) -> Seq<Seq<char>> {
    let base = seq!["--dump-json"@, "--flat-playlist"@, "--no-warnings"@];
    if is_playlist {
        base.push(url)
    } else {
        base + seq!["--playlist-end"@, "100"@, url]
    }
}

/// The `yt-dlp` arguments for a URL.
pub fn fetch_args(url: &str, is_playlist: bool) -> (r: Vec<String>)
    ensures
        r@.map_values(|s: String| s@) == fetch_args_text(url@, is_playlist),
{
    let mut r: Vec<String> = Vec::new();
    r.push(to_owned_string("--dump-json"));
    r.push(to_owned_string("--flat-playlist"));
    r.push(to_owned_string("--no-warnings"));
    if !is_playlist {
        r.push(to_owned_string("--playlist-end"));
        r.push(to_owned_string("100"));
    }
    r.push(to_owned_string(url));
    assert(r@.map_values(|s: String| s@) =~= fetch_args_text(url@, is_playlist));
    r
}

/// A fetch of a channel or playlist in progress: what the `yt-dlp` records
/// read so far have told.
pub struct ChannelFetch {
    pub parsed_url: String,
    pub is_playlist: bool,
    pub channel_info: Option<ChannelInfo>,
    pub videos: Vec<VideoInfo>,
}

impl ChannelFetch {
    /// Starts a fetch for a user's input: the URL it names and the
    /// `yt-dlp` arguments, or `Invalid YouTube URL`.
    pub fn start(url: &str) -> (r: Result<(ChannelFetch, Vec<String>), String>)
        ensures
            r is Ok <==> youtube_url_of(url@) is Some,
            r matches Ok((f, args)) ==> {
                &&& f.parsed_url@ == youtube_url_of(url@)->0
                &&& f.is_playlist == is_playlist_text(f.parsed_url@)
                &&& f.channel_info is None
                &&& f.videos@.len() == 0
                &&& args@.map_values(|s: String| s@) == fetch_args_text(f.parsed_url@, f.is_playlist)
            },
            r matches Err(e) ==> e@ == "Invalid YouTube URL"@,
    {
        match parse_youtube_url(url) {
            Some(parsed_url) => {
                let is_playlist = is_playlist_url(parsed_url.as_str());
                let args = fetch_args(parsed_url.as_str(), is_playlist);
                Ok((ChannelFetch { parsed_url, is_playlist, channel_info: None, videos: Vec::new() }, args))
            },
            None => Err(to_owned_string("Invalid YouTube URL")),
        }
    }

    /// Takes the record on line `idx` (counted from 0): the first record
    /// that names a channel decides it, and a record that lists a video
    /// adds it. Returns the progress message for a new video.
    pub fn take_entry(&mut self, idx: usize, e: &YtDlpPlaylistEntry) -> (r: Option<String>)
        requires
            idx < usize::MAX,
        ensures
            final(self).parsed_url == old(self).parsed_url,
            final(self).is_playlist == old(self).is_playlist,
            old(self).channel_info is Some ==> final(self).channel_info == old(self).channel_info,
            old(self).channel_info is None ==> (final(self).channel_info is Some <==> channel_info_of(
                *e,
                old(self).is_playlist,
                old(self).parsed_url@,
            ) is Some),
            old(self).channel_info is None && final(self).channel_info is Some ==> channel_view(
                final(self).channel_info->0,
            ) == channel_info_of(*e, old(self).is_playlist, old(self).parsed_url@)->0,
            video_listed(*e) ==> final(self).videos@.len() == old(self).videos@.len() + 1
                && final(self).videos@.drop_last() == old(self).videos@
                && is_video_of(final(self).videos@.last(), *e),
            !video_listed(*e) ==> final(self).videos@ == old(self).videos@,
            r is Some <==> video_listed(*e),
            r matches Some(m) ==> m@ == "Fetched "@ + crate::text::nat_decimal((idx + 1) as nat)
                + " videos..."@,
    {
        if self.channel_info.is_none() {
            self.channel_info = channel_info_from_entry(e, self.is_playlist, self.parsed_url.as_str());
        }
        match video_from_entry(e) {
            Some(v) => {
                self.videos.push(v);
                let mut m = String::new();
                push_str(&mut m, "Fetched ");
                crate::text::push_nat_decimal(&mut m, (idx + 1) as u64);
                push_str(&mut m, " videos...");
                Some(m)
            },
            None => None,
        }
    }

    /// The outcome once `yt-dlp` has ended: a failure when it did not
    /// succeed, else the channel with its videos, or a failure when no
    /// record named the channel.
    pub fn finish(self, succeeded: bool) -> (r: Result<(ChannelInfo, Vec<VideoInfo>), String>)
        ensures
            r is Ok <==> succeeded && self.channel_info is Some,
            r matches Ok((c, v)) ==> Some(c) == self.channel_info && v == self.videos,
            !succeeded ==> (r matches Err(e) && e@ == "yt-dlp failed"@),
            succeeded && self.channel_info is None ==> (r matches Err(e) && e@
                == "Could not determine channel/playlist info"@),
    {
        if !succeeded {
            return Err(to_owned_string("yt-dlp failed"));
        }
        match self.channel_info {
            Some(c) => Ok((c, self.videos)),
            None => Err(to_owned_string("Could not determine channel/playlist info")),
        }
    }
}

} // verus!
