//! Editing and sorting the desktop front end's lists: the columns' sort
//! keys and orders, reading an artist and album out of a video's title,
//! the text a drag carries, and how a drop reorders a playlist.
use vstd::prelude::*;
use crate::library::PlaylistItemIdentifier;
use crate::media::{item_title, MediaItem};
use crate::order::{compare_chars, str_lt, Comparison};
use crate::text::{
    str_eq, chars_of, find_first, first_occurrence, int_decimal, lines, lines_spec, parse_i32, i32_of_text,
    push_char, push_int_decimal, push_str, strip_prefix, strip_prefix_spec, sub_chars, to_lowercase,
    to_owned_string, trim, trim_spec, unicode_lowercase, string_from_chars, is_part, lacks, occurs_at,
    seq_contains, lemma_first_occurrence, lemma_part_of_part, lemma_part_lacks, lemma_prefix_is_part,
    lemma_trim_is_part, lemma_trim_trimmed, unicode_whitespace,
};

verus! {

/// The part of `s` before the first `c`, or all of `s`.
pub open spec fn before_char(s: Seq<char>, c: char) -> Seq<char> {
    match first_occurrence(s, seq![c]) {
        Some(i) => s.subrange(0, i),
        None => s,
    }
}

/// The part of a text before the first `c`, or all of it.
fn before_char_exec(s: &str, c: char) -> (r: String)
    ensures
        r@ == before_char(s@, c),
{
    let v = chars_of(s);
    let p = vec![c];
    assert(p@ =~= seq![c]);
    match find_first(&v, &p) {
        Some(i) => {
            let sub = sub_chars(&v, 0, i);
            string_from_chars(&sub)
        },
        None => to_owned_string(s),
    }
}

/// `s` without the `)` and spaces it ends with.
pub open spec fn trim_end_parens(s: Seq<char>) -> Seq<char>
    decreases s.len(),
{
    if s.len() > 0 && (s.last() == ')' || s.last() == ' ') {
        trim_end_parens(s.drop_last())
    } else {
        s
    }
}

/// A text without the `)` and spaces it ends with.
fn trim_end_parens_exec(s: &str) -> (r: String)
    ensures
        r@ == trim_end_parens(s@),
{
    let v = chars_of(s);
    let mut n: usize = v.len();
    assert(v@.take(v@.len() as int) =~= v@);
    while n > 0 && (v[n - 1] == ')' || v[n - 1] == ' ')
        invariant
            n <= v@.len(),
            trim_end_parens(v@.take(n as int)) == trim_end_parens(v@),
        decreases n,
    {
        assert(v@.take(n as int).drop_last() =~= v@.take(n - 1));
        n = n - 1;
    }
    assert(v@.take(v@.len() as int) =~= v@);
    assert(v@.subrange(0, n as int) =~= v@.take(n as int));
    let sub = sub_chars(&v, 0, n);
    string_from_chars(&sub)
}

/// The artist and album read out of a video's title `Artist - Album
/// (note) [tag]`: the artist before the first ` - `; the album after it,
/// before any `[`, without the `)` and spaces it ends with, before any
/// `(`, all trimmed. A title without ` - ` is by `Unknown`, its album the
/// whole title.
pub open spec fn youtube_title_parts(title: Seq<char>) -> (Seq<char>, Seq<char>) {
    match first_occurrence(title, " - "@) {
        Some(i) => {
            let artist = title.subrange(0, i);
            let rest = title.subrange(i + 3, title.len() as int);
            let album = trim_spec(
                before_char(trim_end_parens(trim_spec(before_char(trim_spec(rest), '['))), '('),
            );
            (trim_spec(artist), album)
        },
        None => ("Unknown"@, title),
    }
}

/// The text before the first `c` is a part of the text with no `c`.
proof fn lemma_before_char(s: Seq<char>, c: char)
    ensures
        is_part(before_char(s, c), s),
        lacks(before_char(s, c), c),
{
    let p = seq![c];
    lemma_first_occurrence(s, p);
    match first_occurrence(s, p) {
        Some(i) => {
            lemma_prefix_is_part(s, i);
            assert forall|j: int| 0 <= j < i implies #[trigger] s[j] != c by {
                if s[j] == c {
                    assert(s.subrange(j, j + 1) =~= p);
                    assert(occurs_at(s, p, j));
                }
            }
            assert forall|j: int| 0 <= j < before_char(s, c).len() implies before_char(s, c)[j] != c by {
                assert(before_char(s, c)[j] == s[j]);
            }
        },
        None => {
            lemma_prefix_is_part(s, s.len() as int);
            assert(s.subrange(0, s.len() as int) =~= s);
            assert forall|j: int| 0 <= j < s.len() implies #[trigger] s[j] != c by {
                if s[j] == c {
                    assert(s.subrange(j, j + 1) =~= p);
                    assert(occurs_at(s, p, j));
                }
            }
        },
    }
}

/// The text before the first `c`: all of a text without `c`; `x` for a
/// text `x`, `c`, `y` with no `c` in `x`.
proof fn lemma_before_char_splits(x: Seq<char>, y: Seq<char>, c: char)
    requires
        lacks(x, c),
    ensures
        before_char(x, c) == x,
        before_char(x + seq![c] + y, c) == x,
{
    let p = seq![c];
    assert forall|j: int| !occurs_at(x, p, j) by {
        if occurs_at(x, p, j) {
            assert(x.subrange(j, j + 1)[0] == x[j]);
        }
    }
    let s = x + seq![c] + y;
    let n = x.len() as int;
    assert(s.subrange(n, n + 1) =~= p);
    assert(occurs_at(s, p, n));
    lemma_first_occurrence(s, p);
    let f = first_occurrence(s, p)->0;
    if f < n {
        assert(s.subrange(f, f + 1)[0] == s[f]);
        assert(s[f] == x[f]);
    }
    assert(f == n);
    assert(s.subrange(0, n) =~= x);
}

/// Dropping the `)` and spaces a text ends with keeps a part of it.
proof fn lemma_trim_end_parens_part(s: Seq<char>)
    ensures
        is_part(trim_end_parens(s), s),
    decreases s.len(),
{
    if s.len() > 0 && (s.last() == ')' || s.last() == ' ') {
        lemma_trim_end_parens_part(s.drop_last());
        lemma_prefix_is_part(s, s.len() - 1);
        assert(s.drop_last() =~= s.subrange(0, s.len() - 1));
        lemma_part_of_part(trim_end_parens(s.drop_last()), s.drop_last(), s);
    } else {
        lemma_prefix_is_part(s, s.len() as int);
        assert(s.subrange(0, s.len() as int) =~= s);
    }
}

/// A trimmed text without `(` or `)` loses nothing to the last steps of
/// reading an album.
proof fn lemma_album_of_clean(t: Seq<char>)
    requires
        trim_spec(t) == t,
        lacks(t, '('),
        lacks(t, ')'),
        t.len() > 0 ==> !unicode_whitespace(t.last()),
    ensures
        trim_spec(before_char(trim_end_parens(t), '(')) == t,
{
    if t.len() > 0 {
        assert(t.last() == t[t.len() - 1]);
        assert(unicode_whitespace(' '));
    }
    assert(trim_end_parens(t) == t);
    lemma_before_char_splits(t, Seq::empty(), '(');
}

/// The text after the first ` - ` of a title, trimmed.
pub open spec fn youtube_rest(title: Seq<char>) -> Seq<char> {
    match first_occurrence(title, " - "@) {
        Some(i) => trim_spec(title.subrange(i + 3, title.len() as int)),
        None => Seq::empty(),
    }
}

/// Reading a video title: without ` - ` the artist is `Unknown` and the
/// album the whole title; otherwise, at the first ` - `, the artist is a
/// part of the text before it and the album a part of the text after it,
/// with no `[` (a tag such as `[Full Album]` is dropped) and no `(`. When
/// the trimmed text after it has no brackets or parentheses it is the
/// album; when it is a text `x` without them, then `[` and a tag, the
/// album is `x` trimmed.
pub proof fn law_youtube_title_parts(title: Seq<char>)
    ensures
        !seq_contains(title, " - "@) ==> youtube_title_parts(title) == ("Unknown"@, title),
        seq_contains(title, " - "@) ==> lacks(youtube_title_parts(title).1, '[') && lacks(
            youtube_title_parts(title).1,
            '(',
        ),
        seq_contains(title, " - "@) && lacks(youtube_rest(title), '[') && lacks(youtube_rest(title), '(')
            && lacks(youtube_rest(title), ')') ==> youtube_title_parts(title).1 == youtube_rest(title),
        forall|x: Seq<char>, y: Seq<char>|
            #![trigger x + seq!['['] + y]
            seq_contains(title, " - "@) && youtube_rest(title) == x + seq!['['] + y && lacks(x, '[') && lacks(x, '(')
                && lacks(x, ')') ==> youtube_title_parts(title).1 == trim_spec(x),
        seq_contains(title, " - "@) ==> exists|i: int|
            #![trigger occurs_at(title, " - "@, i)]
            occurs_at(title, " - "@, i) && (forall|j: int| 0 <= j < i ==> !occurs_at(title, " - "@, j))
                && is_part(youtube_title_parts(title).0, title.subrange(0, i)) && is_part(
                youtube_title_parts(title).1,
                title.subrange(i + 3, title.len() as int),
            ),
{
    lemma_first_occurrence(title, " - "@);
    if seq_contains(title, " - "@) {
        let i = first_occurrence(title, " - "@)->0;
        assert(" - "@.len() == 3) by {
            reveal_strlit(" - ");
        }
        let artist = title.subrange(0, i);
        let rest = title.subrange(i + 3, title.len() as int);
        let t1 = trim_spec(rest);
        let b1 = before_char(t1, '[');
        let t2 = trim_spec(b1);
        let p1 = trim_end_parens(t2);
        let b2 = before_char(p1, '(');
        let album = trim_spec(b2);
        lemma_trim_is_part(artist);
        lemma_trim_is_part(rest);
        lemma_before_char(t1, '[');
        lemma_trim_is_part(b1);
        lemma_trim_end_parens_part(t2);
        lemma_before_char(p1, '(');
        lemma_trim_is_part(b2);
        lemma_part_of_part(t2, b1, t1);
        lemma_part_of_part(p1, t2, t1);
        lemma_part_of_part(b2, p1, t1);
        lemma_part_of_part(album, b2, t1);
        lemma_part_of_part(album, t1, rest);
        lemma_part_of_part(p1, t2, b1);
        lemma_part_of_part(b2, p1, b1);
        lemma_part_of_part(album, b2, b1);
        lemma_part_lacks(album, b1, '[');
        lemma_part_lacks(album, b2, '(');
        assert(youtube_title_parts(title) == (trim_spec(artist), album));
        assert(occurs_at(title, " - "@, i));
        assert(t1 == youtube_rest(title));
        lemma_trim_trimmed(rest);
        if lacks(t1, '[') && lacks(t1, '(') && lacks(t1, ')') {
            lemma_before_char_splits(t1, Seq::empty(), '[');
            assert(t2 == t1);
            lemma_album_of_clean(t1);
        }
        assert forall|x: Seq<char>, y: Seq<char>|
            t1 == x + seq!['['] + y && lacks(x, '[') && lacks(x, '(') && lacks(x, ')') implies album == trim_spec(x) by {
            lemma_before_char_splits(x, y, '[');
            assert(b1 == x);
            lemma_trim_is_part(x);
            lemma_part_lacks(t2, x, '(');
            lemma_part_lacks(t2, x, ')');
            lemma_trim_trimmed(x);
            lemma_album_of_clean(t2);
        }
    }
}

/// The artist and album read out of a video's title.
pub fn parse_youtube_title(title: &str) -> (r: (String, String))
    ensures
        (r.0@, r.1@) == youtube_title_parts(title@),
{
    let v = chars_of(title);
    let sep = chars_of(" - ");
    proof {
        reveal_strlit(" - ");
    }
    match find_first(&v, &sep) {
        Some(i) => {
            assert(sep@ =~= seq![' ', '-', ' ']);
            let total = v.len();
            assert(i + 3 <= total);
            let artist = string_from_chars(&sub_chars(&v, 0, i));
            let rest = string_from_chars(&sub_chars(&v, i + 3, total));
            let a = trim(rest.as_str());
            let b = before_char_exec(a.as_str(), '[');
            let c = trim(b.as_str());
            let d = trim_end_parens_exec(c.as_str());
            let e = before_char_exec(d.as_str(), '(');
            let album = trim(e.as_str());
            (trim(artist.as_str()), album)
        },
        None => (to_owned_string("Unknown"), to_owned_string(title)),
    }
}

/// The text the Album / Artist column shows and sorts by: a track's album
/// and artist (`(Unknown)` where missing), a video's album and artist read
/// from its title, as `album // artist`.
pub open spec fn album_artist_key(item: MediaItem) -> Seq<char> {
    match item {
        MediaItem::Track(t) => (match t.album {
            Some(a) => a@,
            None => "(Unknown)"@,
        }) + " // "@ + (match t.artist {
            Some(a) => a@,
            None => "(Unknown)"@,
        }),
        MediaItem::Video(v) => youtube_title_parts(v.title@).1 + " // "@ + youtube_title_parts(v.title@).0,
    }
}

/// The text of the Album / Artist column.
pub fn album_artist_text(item: &MediaItem) -> (r: String)
    ensures
        r@ == album_artist_key(*item),
{
    match item {
        MediaItem::Track(t) => {
            let mut s = crate::desktop::str_or_unknown(&t.album);
            push_str(&mut s, " // ");
            let a = crate::desktop::str_or_unknown(&t.artist);
            push_str(&mut s, a.as_str());
            s
        },
        MediaItem::Video(v) => {
            let (artist, album) = parse_youtube_title(v.title.as_str());
            let mut s = album;
            push_str(&mut s, " // ");
            push_str(&mut s, artist.as_str());
            s
        },
    }
}

/// The text of the track number column: a track's number tag, or nothing.
pub fn track_number_text(item: &MediaItem) -> (r: String)
    ensures
        r@ == match *item {
            MediaItem::Track(t) => match t.track {
                Some(n) => n@,
                None => Seq::empty(),
            },
            MediaItem::Video(_) => Seq::empty(),
        },
{
    match item {
        MediaItem::Track(t) => match &t.track {
            Some(n) => n.clone(),
            None => String::new(),
        },
        MediaItem::Video(_) => String::new(),
    }
}

/// The text of the plays column: the count when positive, else nothing.
pub fn play_count_text(count: i32) -> (r: String)
    ensures
        r@ == if count > 0 {
            int_decimal(count as int)
        } else {
            Seq::empty()
        },
{
    let mut s = String::new();
    if count > 0 {
        push_int_decimal(&mut s, count as i64);
    }
    s
}

/// The duration a list sorts by: the known duration, else 0.
pub fn duration_sort_key(item: &MediaItem) -> (r: i32)
    ensures
        r == match crate::media::item_duration(*item) {
            Some(d) => d,
            None => 0,
        },
{
    match item.duration_seconds() {
        Some(d) => d,
        None => 0,
    }
}

/// Orders two sort keys as the text columns do: by their lowercase forms,
/// in string order.
pub fn compare_sort_keys(a: &str, b: &str) -> (r: Comparison)
    ensures
        (r == Comparison::Less) == str_lt(unicode_lowercase(a@), unicode_lowercase(b@)),
        (r == Comparison::Equal) == (unicode_lowercase(a@) == unicode_lowercase(b@)),
        (r == Comparison::Greater) == str_lt(unicode_lowercase(b@), unicode_lowercase(a@)),
{
    let la = to_lowercase(a);
    let lb = to_lowercase(b);
    compare_chars(&chars_of(la.as_str()), &chars_of(lb.as_str()))
}

/// How the track number column orders two entries: by number when both
/// read as `i32`, else as text.
pub open spec fn track_number_less(a: Seq<char>, b: Seq<char>) -> bool {
    match (i32_of_text(a), i32_of_text(b)) {
        (Some(x), Some(y)) => x < y,
        _ => str_lt(unicode_lowercase(a), unicode_lowercase(b)),
    }
}

/// Orders two track numbers: by number when both read as `i32`, else as
/// text.
pub fn compare_track_numbers(a: &str, b: &str) -> (r: Comparison)
    ensures
        (r == Comparison::Less) == track_number_less(a@, b@),
        (r == Comparison::Greater) == track_number_less(b@, a@),
        (r == Comparison::Equal) == match (i32_of_text(a@), i32_of_text(b@)) {
            (Some(x), Some(y)) => x == y,
            _ => unicode_lowercase(a@) == unicode_lowercase(b@),
        },
{
    match (parse_i32(a), parse_i32(b)) {
        (Some(x), Some(y)) => if x < y {
            Comparison::Less
        } else if x > y {
            Comparison::Greater
        } else {
            Comparison::Equal
        },
        _ => compare_sort_keys(a, b),
    }
}

/// The entry of a playlist an item is: a track by its file, a video by
/// its database id.
pub open spec fn ident_of(item: MediaItem) -> PlaylistItemIdentifier {
    match item {
        MediaItem::Track(t) => PlaylistItemIdentifier::Track(t.filename),
        MediaItem::Video(v) => PlaylistItemIdentifier::Video(v.id),
    }
}

/// The entry of a playlist an item is.
pub fn playlist_ident(item: &MediaItem) -> (r: PlaylistItemIdentifier)
    ensures
        r == ident_of(*item),
{
    match item {
        MediaItem::Track(t) => PlaylistItemIdentifier::Track(t.filename.clone()),
        MediaItem::Video(v) => PlaylistItemIdentifier::Video(v.id),
    }
}

/// The line a dragged item is carried as: `track:` and its file, or
/// `video:` and its database id.
pub open spec fn drag_line(item: MediaItem) -> Seq<char> {
    match item {
        MediaItem::Track(t) => "track:"@ + t.filename@,
        MediaItem::Video(v) => "video:"@ + int_decimal(v.id as int),
    }
}

/// Lines joined by `\n`.
pub open spec fn join_lines(ls: Seq<Seq<char>>) -> Seq<char>
    decreases ls.len(),
{
    if ls.len() == 0 {
        Seq::empty()
    } else if ls.len() == 1 {
        ls[0]
    } else {
        join_lines(ls.drop_last()) + seq!['\n'] + ls.last()
    }
}

/// The text a drag of the selected items carries: one line per item;
/// nothing when none is selected.
pub fn drag_data(items: &Vec<MediaItem>) -> (r: Option<String>)
    ensures
        items@.len() == 0 ==> r is None,
        items@.len() > 0 ==> (r matches Some(d) && d@ == join_lines(items@.map_values(|i: MediaItem| drag_line(i)))),
{
    if items.len() == 0 {
        return None;
    }
    let ghost ls = items@.map_values(|i: MediaItem| drag_line(i));
    let mut s = String::new();
    let mut i: usize = 0;
    while i < items.len()
        invariant
            i <= items@.len(),
            ls == items@.map_values(|i: MediaItem| drag_line(i)),
            s@ == join_lines(ls.take(i as int)),
        decreases items@.len() - i,
    {
        if i > 0 {
            push_char(&mut s, '\n');
        }
        match &items[i] {
            MediaItem::Track(t) => {
                push_str(&mut s, "track:");
                push_str(&mut s, t.filename.as_str());
            },
            MediaItem::Video(v) => {
                push_str(&mut s, "video:");
                push_int_decimal(&mut s, v.id as i64);
            },
        }
        proof {
            assert(ls.take(i + 1).drop_last() =~= ls.take(i as int));
            assert(ls.take(i + 1).last() == drag_line(items@[i as int]));
            if i == 0 {
                assert(ls.take(1) =~= seq![drag_line(items@[0])]);
            }
        }
        assert(s@ =~= join_lines(ls.take(i + 1)));
        i = i + 1;
    }
    assert(ls.take(items@.len() as int) =~= ls);
    Some(s)
}

/// The entries a dropped line names: `track:` and a file, or `video:` and
/// a database id that reads as an `i32`; other lines name nothing.
pub open spec fn drop_entries_spec(ls: Seq<Seq<char>>) -> Seq<PlaylistItemIdentifier>
    decreases ls.len(),
{
    if ls.len() == 0 {
        Seq::empty()
    } else {
        let rest = drop_entries_spec(ls.drop_last());
        let l = ls.last();
        match strip_prefix_spec(l, "track:"@) {
            Some(f) => rest.push(PlaylistItemIdentifier::Track(string_with(f))),
            None => match strip_prefix_spec(l, "video:"@) {
                Some(n) => match i32_of_text(n) {
                    Some(id) => rest.push(PlaylistItemIdentifier::Video(id)),
                    None => rest,
                },
                None => rest,
            },
        }
    }
}

/// A string whose text is `s`.
pub open spec fn string_with(s: Seq<char>) -> String {
    choose|x: String| x@ == s
}

/// The view of an entry: a track's file as text, or a video's id.
pub open spec fn ident_view(e: PlaylistItemIdentifier) -> (Option<Seq<char>>, Option<i32>) {
    match e {
        PlaylistItemIdentifier::Track(f) => (Some(f@), None),
        PlaylistItemIdentifier::Video(v) => (None, Some(v)),
    }
}

/// The entries a dropped text names, line by line.
pub fn drop_entries(data: &str) -> (r: Vec<PlaylistItemIdentifier>)
    ensures
        r@.map_values(|e: PlaylistItemIdentifier| ident_view(e)) == drop_entries_spec(lines_spec(data@)).map_values(
            |e: PlaylistItemIdentifier| ident_view(e),
        ),
{
    let ls = lines(data);
    let ghost lv = ls@.map_values(|x: String| x@);
    let mut r: Vec<PlaylistItemIdentifier> = Vec::new();
    let mut i: usize = 0;
    while i < ls.len()
        invariant
            i <= ls@.len(),
            lv == ls@.map_values(|x: String| x@),
            lv == lines_spec(data@),
            r@.map_values(|e: PlaylistItemIdentifier| ident_view(e)) == drop_entries_spec(lv.take(i as int)).map_values(
                |e: PlaylistItemIdentifier| ident_view(e),
            ),
        decreases ls@.len() - i,
    {
        let l = ls[i].as_str();
        proof {
            assert(lv.take(i + 1).drop_last() =~= lv.take(i as int));
            assert(lv.take(i + 1).last() == l@);
        }
        let ghost prev = r@;
        let ghost before = drop_entries_spec(lv.take(i as int));
        match strip_prefix(l, "track:") {
            Some(f) => {
                r.push(PlaylistItemIdentifier::Track(f));
                proof {
                    let e = PlaylistItemIdentifier::Track(string_with(f@));
                    assert(string_with(f@)@ == f@) by {
                        assert(exists|x: String| x@ == f@);
                    }
                    assert(r@.map_values(|e: PlaylistItemIdentifier| ident_view(e)) =~= prev.map_values(
                        |e: PlaylistItemIdentifier| ident_view(e),
                    ).push(ident_view(e)));
                    assert(before.push(e).map_values(|e: PlaylistItemIdentifier| ident_view(e)) =~= before.map_values(
                        |e: PlaylistItemIdentifier| ident_view(e),
                    ).push(ident_view(e)));
                }
            },
            None => match strip_prefix(l, "video:") {
                Some(n) => match parse_i32(n.as_str()) {
                    Some(id) => {
                        r.push(PlaylistItemIdentifier::Video(id));
                        proof {
                            let e = PlaylistItemIdentifier::Video(id);
                            assert(r@.map_values(|e: PlaylistItemIdentifier| ident_view(e)) =~= prev.map_values(
                                |e: PlaylistItemIdentifier| ident_view(e),
                            ).push(ident_view(e)));
                            assert(before.push(e).map_values(|e: PlaylistItemIdentifier| ident_view(e))
                                =~= before.map_values(|e: PlaylistItemIdentifier| ident_view(e)).push(
                                ident_view(e),
                            ));
                        }
                    },
                    None => {},
                },
                None => {},
            },
        }
        i = i + 1;
    }
    assert(lv.take(ls@.len() as int) =~= lv);
    r
}

/// Whether a list entry is the one a dropped line names.
pub open spec fn names_item(e: (Option<Seq<char>>, Option<i32>), item: MediaItem) -> bool {
    match item {
        MediaItem::Track(t) => e.0 == Some(t.filename@),
        MediaItem::Video(v) => e.0 is None && e.1 == Some(v.id),
    }
}

/// The first index, from `start` on, of the entry a dropped line names.
pub open spec fn first_named(items: Seq<MediaItem>, e: (Option<Seq<char>>, Option<i32>), start: int) -> Option<int>
    decreases items.len() - start,
{
    if start < 0 || start >= items.len() {
        None
    } else if names_item(e, items[start]) {
        Some(start)
    } else {
        first_named(items, e, start + 1)
    }
}

/// The positions of the dragged entries, in the order the lines name
/// them; a line that names no entry is skipped.
pub open spec fn dragged_positions(items: Seq<MediaItem>, entries: Seq<(Option<Seq<char>>, Option<i32>)>) -> Seq<int>
    decreases entries.len(),
{
    if entries.len() == 0 {
        Seq::empty()
    } else {
        let rest = dragged_positions(items, entries.drop_last());
        match first_named(items, entries.last(), 0) {
            Some(i) => rest.push(i),
            None => rest,
        }
    }
}

/// How often `i` occurs in `d`.
pub open spec fn times(d: Seq<int>, i: int) -> nat
    decreases d.len(),
{
    if d.len() == 0 {
        0
    } else {
        times(d.drop_last(), i) + if d.last() == i {
            1nat
        } else {
            0nat
        }
    }
}

/// The entries of the first `n` items that are not dragged, in order.
pub open spec fn kept_entries(items: Seq<MediaItem>, d: Seq<int>, n: int) -> Seq<PlaylistItemIdentifier>
    decreases n,
{
    if n <= 0 {
        Seq::empty()
    } else {
        let rest = kept_entries(items, d, n - 1);
        if times(d, n - 1) == 0 {
            rest.push(ident_of(items[n - 1]))
        } else {
            rest
        }
    }
}

/// `x` repeated `k` times.
pub open spec fn repeated(x: PlaylistItemIdentifier, k: nat) -> Seq<PlaylistItemIdentifier> {
    Seq::new(k, |j: int| x)
}

/// The dragged entries of the first `n` items in list order, each as
/// often as it was dragged.
pub open spec fn dragged_block(items: Seq<MediaItem>, d: Seq<int>, n: int) -> Seq<PlaylistItemIdentifier>
    decreases n,
{
    if n <= 0 {
        Seq::empty()
    } else {
        dragged_block(items, d, n - 1) + repeated(ident_of(items[n - 1]), times(d, n - 1))
    }
}

/// How many of the first `k` entries are not dragged.
pub open spec fn kept_before(d: Seq<int>, k: int) -> int
    decreases k,
{
    if k <= 0 {
        0
    } else {
        kept_before(d, k - 1) + if times(d, k - 1) == 0 {
            1int
        } else {
            0int
        }
    }
}

/// Where the dragged block goes among the entries not dragged: after
/// those up to and including row `drop`, or first when dropping on the
/// first row.
pub open spec fn insert_position(d: Seq<int>, drop: int) -> int {
    if drop == 0 {
        0
    } else {
        kept_before(d, drop + 1)
    }
}

/// The new order of a playlist after the entries named by the dropped
/// lines were dropped on row `drop` (clamped to the last row): the entries
/// not dragged, with the dragged ones, in list order, put after the first
/// `insert_position` of them. Nothing changes when the list is empty or
/// no line names an entry.
pub open spec fn reorder_spec(items: Seq<MediaItem>, entries: Seq<(Option<Seq<char>>, Option<i32>)>, drop: int) -> Option<
    Seq<PlaylistItemIdentifier>,
> {
    let d = dragged_positions(items, entries);
    if items.len() == 0 || d.len() == 0 {
        None
    } else {
        let drop = if drop < items.len() - 1 {
            drop
        } else {
            items.len() - 1
        };
        let kept = kept_entries(items, d, items.len() as int);
        let pos = insert_position(d, drop);
        Some(kept.take(pos) + dragged_block(items, d, items.len() as int) + kept.skip(pos))
    }
}

proof fn lemma_kept_len(items: Seq<MediaItem>, d: Seq<int>, n: int)
    requires
        0 <= n <= items.len(),
    ensures
        kept_entries(items, d, n).len() == kept_before(d, n),
        0 <= kept_before(d, n) <= n,
    decreases n,
{
    if n > 0 {
        lemma_kept_len(items, d, n - 1);
    }
}

proof fn lemma_kept_before_mono(d: Seq<int>, a: int, b: int)
    requires
        0 <= a <= b,
    ensures
        kept_before(d, a) <= kept_before(d, b),
    decreases b - a,
{
    if a < b {
        lemma_kept_before_mono(d, a, b - 1);
    }
}

/// The first index, from `start` on, of the entry a dropped entry names.
fn find_named(items: &Vec<MediaItem>, e: &PlaylistItemIdentifier) -> (r: Option<usize>)
    ensures
        match first_named(items@, ident_view(*e), 0) {
            Some(i) => r == Some(i as usize),
            None => r is None,
        },
{
    let ghost ev = ident_view(*e);
    let mut i: usize = 0;
    while i < items.len()
        invariant
            i <= items@.len(),
            ev == ident_view(*e),
            first_named(items@, ev, 0) == first_named(items@, ev, i as int),
        decreases items@.len() - i,
    {
        let hit = match (&items[i], e) {
            (MediaItem::Track(t), PlaylistItemIdentifier::Track(f)) => str_eq(t.filename.as_str(), f.as_str()),
            (MediaItem::Video(v), PlaylistItemIdentifier::Video(id)) => v.id == *id,
            _ => false,
        };
        assert(hit == names_item(ev, items@[i as int]));
        if hit {
            return Some(i);
        }
        i = i + 1;
    }
    None
}

/// The new order of a playlist after the entries named by the dropped
/// text were dropped on row `drop_index`; `None` when the list is empty or
/// the text names none of its entries.
pub fn reorder_for_drop(items: &Vec<MediaItem>, data: &str, drop_index: usize) -> (r: Option<Vec<PlaylistItemIdentifier>>)
    ensures
        match reorder_spec(
            items@,
            drop_entries_spec(lines_spec(data@)).map_values(|e: PlaylistItemIdentifier| ident_view(e)),
            drop_index as int,
        ) {
            Some(s) => r matches Some(v) && v@ == s,
            None => r is None,
        },
{
    let entries = drop_entries(data);
    let ghost ev = entries@.map_values(|e: PlaylistItemIdentifier| ident_view(e));
    assert(ev == drop_entries_spec(lines_spec(data@)).map_values(|e: PlaylistItemIdentifier| ident_view(e)));
    let n = items.len();
    // positions of the dragged entries, and how often each index is dragged
    let mut counts: Vec<usize> = Vec::new();
    let mut k: usize = 0;
    while k < n
        invariant
            k <= n,
            n == items@.len(),
            counts@.len() == k,
            forall|j: int| 0 <= j < k ==> counts@[j] == 0,
        decreases n - k,
    {
        counts.push(0);
        k = k + 1;
    }
    let mut dragged_any = false;
    let mut m: usize = 0;
    while m < entries.len()
        invariant
            m <= entries@.len(),
            n == items@.len(),
            ev == entries@.map_values(|e: PlaylistItemIdentifier| ident_view(e)),
            counts@.len() == n,
            forall|j: int| 0 <= j < n ==> counts@[j] == times(dragged_positions(items@, ev.take(m as int)), j),
            forall|j: int| 0 <= j < n ==> counts@[j] <= m,
            dragged_any == (dragged_positions(items@, ev.take(m as int)).len() > 0),
            forall|x: int| 0 <= x < dragged_positions(items@, ev.take(m as int)).len() ==> 0 <= #[trigger] dragged_positions(items@, ev.take(m as int))[x] < n,
        decreases entries@.len() - m,
    {
        proof {
            assert(ev.take(m + 1).drop_last() =~= ev.take(m as int));
            assert(ev.take(m + 1).last() == ident_view(entries@[m as int]));
            lemma_first_named(items@, ev[m as int], 0);
        }
        let ghost dm = dragged_positions(items@, ev.take(m as int));
        let ghost dm1 = dragged_positions(items@, ev.take(m + 1));
        match find_named(items, &entries[m]) {
            Some(i) => {
                let c = counts[i];
                counts.set(i, c + 1);
                dragged_any = true;
                proof {
                    assert(dm1 == dm.push(i as int));
                    assert forall|j: int| 0 <= j < n implies counts@[j] == times(dm1, j) by {
                        assert(dm1.drop_last() =~= dm);
                    }
                    assert forall|x: int| 0 <= x < dm1.len() implies 0 <= #[trigger] dm1[x] < n by {
                        if x < dm.len() {
                            assert(dm1[x] == dm[x]);
                        }
                    }
                }
            },
            None => {
                assert(dm1 == dm);
            },
        }
        m = m + 1;
    }
    assert(ev.take(entries@.len() as int) =~= ev);
    let ghost d = dragged_positions(items@, ev);
    if n == 0 || !dragged_any {
        return None;
    }
    let drop = if drop_index < n - 1 {
        drop_index
    } else {
        n - 1
    };
    // the entries kept in place, and the dragged block
    let mut kept: Vec<PlaylistItemIdentifier> = Vec::new();
    let mut block: Vec<PlaylistItemIdentifier> = Vec::new();
    let mut pos: usize = 0;
    let mut i: usize = 0;
    while i < n
        invariant
            i <= n,
            n == items@.len(),
            counts@.len() == n,
            forall|j: int| 0 <= j < n ==> counts@[j] == times(d, j),
            kept@ == kept_entries(items@, d, i as int),
            block@ == dragged_block(items@, d, i as int),
            kept@.len() <= i,
            drop < n,
            pos == if drop == 0 {
                0
            } else if i <= drop + 1 {
                kept_before(d, i as int)
            } else {
                kept_before(d, drop + 1)
            },
        decreases n - i,
    {
        proof {
            lemma_kept_len(items@, d, i as int);
        }
        let id = playlist_ident(&items[i]);
        if counts[i] == 0 {
            kept.push(id);
            if drop > 0 && i <= drop {
                pos = pos + 1;
            }
        } else {
            let c = counts[i];
            let ghost before = block@;
            let mut t: usize = 0;
            while t < c
                invariant
                    t <= c,
                    i < items@.len(),
                    block@ == before + repeated(ident_of(items@[i as int]), t as nat),
                    id == ident_of(items@[i as int]),
                decreases c - t,
            {
                block.push(id.clone_ident());
                assert(block@ =~= before + repeated(ident_of(items@[i as int]), (t + 1) as nat));
                t = t + 1;
            }
        }
        proof {
            if counts@[i as int] == 0 {
                assert(repeated(ident_of(items@[i as int]), 0) =~= Seq::<PlaylistItemIdentifier>::empty());
                assert(block@ =~= dragged_block(items@, d, i + 1));
            }
        }
        i = i + 1;
    }
    proof {
        lemma_kept_len(items@, d, n as int);
        lemma_kept_before_mono(d, drop + 1, n as int);
    }
    let mut result: Vec<PlaylistItemIdentifier> = Vec::new();
    let mut a: usize = 0;
    while a < pos
        invariant
            a <= pos <= kept@.len(),
            result@ == kept@.take(a as int),
        decreases pos - a,
    {
        result.push(kept[a].clone_ident());
        assert(result@ =~= kept@.take(a + 1));
        a = a + 1;
    }
    let mut b: usize = 0;
    while b < block.len()
        invariant
            b <= block@.len(),
            pos <= kept@.len(),
            result@ == kept@.take(pos as int) + block@.take(b as int),
        decreases block@.len() - b,
    {
        result.push(block[b].clone_ident());
        assert(result@ =~= kept@.take(pos as int) + block@.take(b + 1));
        b = b + 1;
    }
    let mut c: usize = pos;
    while c < kept.len()
        invariant
            pos <= c <= kept@.len(),
            result@ == kept@.take(pos as int) + block@ + kept@.subrange(pos as int, c as int),
        decreases kept@.len() - c,
    {
        result.push(kept[c].clone_ident());
        assert(result@ =~= kept@.take(pos as int) + block@ + kept@.subrange(pos as int, c + 1));
        c = c + 1;
    }
    assert(block@.take(block@.len() as int) =~= block@);
    assert(kept@.subrange(pos as int, kept@.len() as int) =~= kept@.skip(pos as int));
    Some(result)
}

proof fn lemma_first_named(items: Seq<MediaItem>, e: (Option<Seq<char>>, Option<i32>), start: int)
    requires
        0 <= start <= items.len(),
    ensures
        first_named(items, e, start) matches Some(i) ==> start <= i < items.len(),
    decreases items.len() - start,
{
    if start < items.len() {
        lemma_first_named(items, e, start + 1);
    }
}

proof fn lemma_kept_and_block(items: Seq<MediaItem>, d: Seq<int>, n: int)
    requires
        0 <= n <= items.len(),
        forall|i: int| times(d, i) <= 1,
    ensures
        kept_entries(items, d, n).to_multiset().add(dragged_block(items, d, n).to_multiset())
            =~= items.take(n).map_values(|x: MediaItem| ident_of(x)).to_multiset(),
    decreases n,
{
    broadcast use vstd::seq_lib::group_to_multiset_ensures;
    broadcast use vstd::seq_lib::lemma_multiset_commutative;

    if n == 0 {
        assert(items.take(0).map_values(|x: MediaItem| ident_of(x)) =~= Seq::<PlaylistItemIdentifier>::empty());
        assert(kept_entries(items, d, 0) =~= Seq::<PlaylistItemIdentifier>::empty());
        assert(dragged_block(items, d, 0) =~= Seq::<PlaylistItemIdentifier>::empty());
    } else {
        lemma_kept_and_block(items, d, n - 1);
        let id = ident_of(items[n - 1]);
        assert(items.take(n).map_values(|x: MediaItem| ident_of(x)) =~= items.take(n - 1).map_values(
            |x: MediaItem| ident_of(x),
        ).push(id));
        if times(d, n - 1) == 0 {
            assert(repeated(id, 0) =~= Seq::<PlaylistItemIdentifier>::empty());
            assert(dragged_block(items, d, n) =~= dragged_block(items, d, n - 1));
        } else {
            assert(times(d, n - 1) == 1);
            assert(repeated(id, 1) =~= seq![id]);
            assert(dragged_block(items, d, n) =~= dragged_block(items, d, n - 1).push(id));
        }
    }
}

/// A drop moves entries and loses none: when no entry is named twice by
/// the dropped lines, the new order holds exactly the entries of the list.
pub proof fn law_drop_keeps_entries(
    items: Seq<MediaItem>,
    entries: Seq<(Option<Seq<char>>, Option<i32>)>,
    drop: int,
)
    requires
        forall|i: int| times(dragged_positions(items, entries), i) <= 1,
        0 <= drop,
    ensures
        reorder_spec(items, entries, drop) matches Some(s) ==> s.to_multiset() =~= items.map_values(
            |x: MediaItem| ident_of(x),
        ).to_multiset(),
{
    broadcast use vstd::seq_lib::lemma_multiset_commutative;

    let d = dragged_positions(items, entries);
    if items.len() > 0 && d.len() > 0 {
        let n = items.len() as int;
        let dr = if drop < n - 1 {
            drop
        } else {
            n - 1
        };
        let kept = kept_entries(items, d, n);
        let block = dragged_block(items, d, n);
        let pos = insert_position(d, dr);
        lemma_kept_len(items, d, n);
        lemma_kept_before_mono(d, dr + 1, n);
        lemma_kept_len(items, d, dr + 1);
        assert(0 <= pos <= kept.len());
        lemma_kept_and_block(items, d, n);
        assert(items.take(n) =~= items);
        assert(kept.take(pos) + kept.skip(pos) =~= kept);
        let s = kept.take(pos) + block + kept.skip(pos);
        assert(s.to_multiset() =~= kept.take(pos).to_multiset().add(block.to_multiset()).add(
            kept.skip(pos).to_multiset(),
        ));
        assert(kept.to_multiset() =~= kept.take(pos).to_multiset().add(kept.skip(pos).to_multiset()));
    }
}

} // verus!
