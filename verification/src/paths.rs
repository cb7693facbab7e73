//! File names and extensions of paths, as `std::path::Path` reads them on
//! Unix, and which files the scanner takes for audio.
use vstd::prelude::*;
use crate::text::{ascii_lower_seq, ascii_lowercase, chars_eq, chars_of};

verus! {

/// The largest index below `end` holding a `/`, or -1.
pub open spec fn last_slash_before(p: Seq<char>, end: int) -> int
    decreases end,
{
    if end <= 0 {
        -1
    } else if p[end - 1] == '/' {
        end - 1
    } else {
        last_slash_before(p, end - 1)
    }
}

/// The bounds of the last component of `p[..end]` that is a name: trailing
/// slashes and `.` components are skipped.
pub open spec fn last_name_bounds(p: Seq<char>, end: int) -> Option<(int, int)>
    decreases end,
{
    if end <= 0 {
        None
    } else if p[end - 1] == '/' {
        last_name_bounds(p, end - 1)
    } else {
        let k = last_slash_before(p, end);
        if end - (k + 1) == 1 && p[k + 1] == '.' {
            if k + 1 < end {
                last_name_bounds(p, k + 1)
            } else {
                None
            }
        } else {
            Some((k + 1, end))
        }
    }
}

/// The file name of a path (`Path::file_name`): its last component, unless
/// that is `..` or there is none.
pub open spec fn file_name_of(p: Seq<char>) -> Option<Seq<char>> {
    match last_name_bounds(p, p.len() as int) {
        Some((a, b)) => {
            let n = p.subrange(a, b);
            if n == seq!['.', '.'] {
                None
            } else {
                Some(n)
            }
        },
        None => None,
    }
}

/// The largest index below `end` holding a `.`, or -1.
pub open spec fn last_dot_before(s: Seq<char>, end: int) -> int
    decreases end,
{
    if end <= 0 {
        -1
    } else if s[end - 1] == '.' {
        end - 1
    } else {
        last_dot_before(s, end - 1)
    }
}

/// The extension of a file name: what follows its last `.`, when that dot
/// is not its first character.
pub open spec fn extension_of_name(n: Seq<char>) -> Option<Seq<char>> {
    let d = last_dot_before(n, n.len() as int);
    if d <= 0 {
        None
    } else {
        Some(n.subrange(d + 1, n.len() as int))
    }
}

/// The extension of a path (`Path::extension`).
pub open spec fn extension_of(p: Seq<char>) -> Option<Seq<char>> {
    match file_name_of(p) {
        Some(n) => extension_of_name(n),
        None => None,
    }
}

/// The extensions the scanner takes for audio.
pub open spec fn audio_extensions() -> Seq<Seq<char>> {
    seq![
        "mp3"@,
        "flac"@,
        "ogg"@,
        "opus"@,
        "wav"@,
        "aac"@,
        "m4a"@,
        "wma"@,
        "aiff"@,
        "aif"@,
        "ape"@,
        "wv"@,
        "mpc"@,
        "mp4"@,
        "webm"@,
    ]
}

/// A path is an audio file when its extension, in ASCII lowercase, is one
/// of the audio extensions.
pub open spec fn is_audio_path(p: Seq<char>) -> bool {
    match extension_of(p) {
        Some(e) => audio_extensions().contains(ascii_lower_seq(e)),
        None => false,
    }
}

fn last_slash_before_exec(p: &Vec<char>, end: usize) -> (r: Option<usize>)
    requires
        end <= p@.len(),
    ensures
        match r {
            Some(k) => k == last_slash_before(p@, end as int),
            None => last_slash_before(p@, end as int) == -1,
        },
    decreases end,
{
    if end == 0 {
        None
    } else if p[end - 1] == '/' {
        Some(end - 1)
    } else {
        last_slash_before_exec(p, end - 1)
    }
}

proof fn lemma_last_slash_bounds(p: Seq<char>, end: int)
    ensures
        -1 <= last_slash_before(p, end) < end || (end <= 0 && last_slash_before(p, end) == -1),
        last_slash_before(p, end) >= 0 ==> p[last_slash_before(p, end)] == '/',
    decreases end,
{
    if end > 0 && p[end - 1] != '/' {
        lemma_last_slash_bounds(p, end - 1);
    }
}

fn last_name_bounds_exec(p: &Vec<char>, end: usize) -> (r: Option<(usize, usize)>)
    requires
        end <= p@.len(),
    ensures
        match r {
            Some((a, b)) => last_name_bounds(p@, end as int) == Some((a as int, b as int)),
            None => last_name_bounds(p@, end as int) is None,
        },
    decreases end,
{
    if end == 0 {
        None
    } else if p[end - 1] == '/' {
        last_name_bounds_exec(p, end - 1)
    } else {
        let k = last_slash_before_exec(p, end);
        proof {
            lemma_last_slash_bounds(p@, end as int);
        }
        let start: usize = match k {
            Some(k) => k + 1,
            None => 0,
        };
        if end - start == 1 && p[start] == '.' {
            if start < end {
                last_name_bounds_exec(p, start)
            } else {
                None
            }
        } else {
            Some((start, end))
        }
    }
}

fn last_dot_before_exec(s: &Vec<char>, end: usize) -> (r: Option<usize>)
    requires
        end <= s@.len(),
    ensures
        match r {
            Some(k) => k == last_dot_before(s@, end as int),
            None => last_dot_before(s@, end as int) == -1,
        },
    decreases end,
{
    if end == 0 {
        None
    } else if s[end - 1] == '.' {
        Some(end - 1)
    } else {
        last_dot_before_exec(s, end - 1)
    }
}

proof fn lemma_last_dot_bounds(s: Seq<char>, end: int)
    ensures
        end > 0 ==> -1 <= last_dot_before(s, end) < end,
        end <= 0 ==> last_dot_before(s, end) == -1,
    decreases end,
{
    if end > 0 && s[end - 1] != '.' {
        lemma_last_dot_bounds(s, end - 1);
    }
}

fn sub_vec(v: &Vec<char>, a: usize, b: usize) -> (r: Vec<char>)
    requires
        a <= b <= v@.len(),
    ensures
        r@ == v@.subrange(a as int, b as int),
{
    let mut r: Vec<char> = Vec::new();
    let mut i = a;
    while i < b
        invariant
            a <= i <= b,
            b <= v@.len(),
            r@ == v@.subrange(a as int, i as int),
        decreases b - i,
    {
        r.push(v[i]);
        i = i + 1;
        assert(r@ =~= v@.subrange(a as int, i as int));
    }
    r
}

/// The file name of a path, if it has one (`Path::file_name`).
pub fn file_name(path: &str) -> (r: Option<Vec<char>>)
    ensures
        r is Some <==> file_name_of(path@) is Some,
        r matches Some(n) ==> n@ == file_name_of(path@)->0,
{
    let p = chars_of(path);
    match last_name_bounds_exec(&p, p.len()) {
        Some((a, b)) => {
            proof {
                lemma_name_bounds(p@, p@.len() as int);
            }
            let n = sub_vec(&p, a, b);
            let mut dd: Vec<char> = Vec::new();
            dd.push('.');
            dd.push('.');
            assert(dd@ =~= seq!['.', '.']);
            if chars_eq(&n, &dd) {
                None
            } else {
                Some(n)
            }
        },
        None => None,
    }
}

proof fn lemma_name_bounds(p: Seq<char>, end: int)
    requires
        end <= p.len(),
    ensures
        last_name_bounds(p, end) matches Some((a, b)) ==> 0 <= a < b <= end,
    decreases end,
{
    if end > 0 {
        if p[end - 1] == '/' {
            lemma_name_bounds(p, end - 1);
        } else {
            lemma_last_slash_bounds(p, end);
            let k = last_slash_before(p, end);
            if end - (k + 1) == 1 && p[k + 1] == '.' {
                if k + 1 < end {
                    lemma_name_bounds(p, k + 1);
                }
            }
        }
    }
}

/// The extension of a path, if it has one (`Path::extension`).
pub fn extension(path: &str) -> (r: Option<Vec<char>>)
    ensures
        r is Some <==> extension_of(path@) is Some,
        r matches Some(e) ==> e@ == extension_of(path@)->0,
{
    match file_name(path) {
        Some(n) => {
            let d = last_dot_before_exec(&n, n.len());
            proof {
                lemma_last_dot_bounds(n@, n@.len() as int);
            }
            match d {
                Some(d) => if d == 0 {
                    None
                } else {
                    Some(sub_vec(&n, d + 1, n.len()))
                },
                None => None,
            }
        },
        None => None,
    }
}

/// The audio extensions, in order.
pub fn audio_extension_list() -> (r: Vec<&'static str>)
    ensures
        r@.map_values(|s: &str| s@) == audio_extensions(),
{
    let r = vec![
        "mp3",
        "flac",
        "ogg",
        "opus",
        "wav",
        "aac",
        "m4a",
        "wma",
        "aiff",
        "aif",
        "ape",
        "wv",
        "mpc",
        "mp4",
        "webm",
    ];
    assert(r@.map_values(|s: &str| s@) =~= audio_extensions());
    r
}

/// Whether a path names an audio file: its extension, ignoring ASCII case,
/// is one of `mp3 flac ogg opus wav aac m4a wma aiff aif ape wv mpc mp4
/// webm`.
pub fn is_audio_file(path: &str) -> (r: bool)
    ensures
        r == is_audio_path(path@),
{
    match extension(path) {
        Some(e) => {
            assert(extension_of(path@) == Some(e@));
            let s = crate::text::string_from_chars(&e);
            let lower = ascii_lowercase(s.as_str());
            let list = audio_extension_list();
            let mut i: usize = 0;
            while i < list.len()
                invariant
                    i <= list.len(),
                    list@.map_values(|s: &str| s@) == audio_extensions(),
                    lower@ == ascii_lower_seq(e@),
                    extension_of(path@) == Some(e@),
                    forall|j: int| 0 <= j < i ==> audio_extensions()[j] != lower@,
                decreases list.len() - i,
            {
                let c = chars_of(list[i]);
                assert(c@ == audio_extensions()[i as int]);
                if chars_eq(&c, &lower) {
                    assert(audio_extensions().contains(lower@));
                    return true;
                }
                i = i + 1;
            }
            assert(!audio_extensions().contains(lower@)) by {
                if audio_extensions().contains(lower@) {
                    let k = choose|k: int| 0 <= k < audio_extensions().len() && audio_extensions()[k] == lower@;
                    assert(audio_extensions()[k] != lower@);
                }
            }
            false
        },
        None => false,
    }
}

} // verus!
