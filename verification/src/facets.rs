//! Album facets of the library: one per distinct (artist, album artist,
//! album) of its tracks, sorted, after an entry that stands for all.
use vstd::prelude::*;
use crate::media::Track;
use crate::order::{
    compare_opt_chars, lemma_opt_order, opt_chars, opt_lt, opt_string_view, opt_view, Comparison,
};
use crate::media::clone_opt_string;

verus! {

/// One browsing facet: an album of an artist, or all of the library.
#[derive(Hash, Eq, Ord, PartialEq, PartialOrd, Debug, Clone)]
pub struct Facet {
    pub album_artist_or_artist: Option<String>,
    pub album_artist: Option<String>,
    pub album: Option<String>,
    pub all: bool,
}

/// What identifies a facet: its three texts and whether it is the
/// all-library entry.
pub type FacetKey = (Option<Seq<char>>, Option<Seq<char>>, Option<Seq<char>>, bool);

/// The key of a facet.
pub open spec fn facet_key(f: Facet) -> FacetKey {
    (opt_string_view(f.album_artist_or_artist), opt_string_view(f.album_artist), opt_string_view(f.album), f.all)
}

/// The facet order, field by field as the derived `Ord` orders them.
#[verifier::opaque]
pub open spec fn facet_lt(a: FacetKey, b: FacetKey) -> bool {
    ||| opt_lt(a.0, b.0)
    ||| a.0 == b.0 && opt_lt(a.1, b.1)
    ||| a.0 == b.0 && a.1 == b.1 && opt_lt(a.2, b.2)
    ||| a.0 == b.0 && a.1 == b.1 && a.2 == b.2 && !a.3 && b.3
}

/// The first of two optional strings that is present.
pub open spec fn first_of(a: Option<String>, b: Option<String>) -> Option<String> {
    match a {
        Some(s) => Some(s),
        None => b,
    }
}

/// The facet of a track: its album artist (or else its artist), its album
/// artist, its album.
pub open spec fn track_facet_key(t: Track) -> FacetKey {
    (opt_string_view(first_of(t.album_artist, t.artist)), opt_string_view(t.album_artist), opt_string_view(t.album), false)
}

/// The key of the all-library entry.
pub open spec fn all_key() -> FacetKey {
    (None, None, None, true)
}

proof fn lemma_facet_order(a: FacetKey, b: FacetKey, c: FacetKey)
    ensures
        !facet_lt(a, a),
        facet_lt(a, b) && facet_lt(b, c) ==> facet_lt(a, c),
        facet_lt(a, b) || facet_lt(b, a) || a == b,
{
    reveal(facet_lt);
    lemma_opt_order(a.0, b.0, c.0);
    lemma_opt_order(a.1, b.1, c.1);
    lemma_opt_order(a.2, b.2, c.2);
    lemma_opt_order(b.0, a.0, c.0);
    lemma_opt_order(b.1, a.1, c.1);
    lemma_opt_order(b.2, a.2, c.2);
}

type KeyChars = (Option<Vec<char>>, Option<Vec<char>>, Option<Vec<char>>);

spec fn key_chars_view(k: KeyChars) -> FacetKey {
    (opt_view(k.0), opt_view(k.1), opt_view(k.2), false)
}

fn compare_keys(a: &KeyChars, b: &KeyChars) -> (r: Comparison)
    ensures
        (r == Comparison::Less) == facet_lt(key_chars_view(*a), key_chars_view(*b)),
        (r == Comparison::Equal) == (key_chars_view(*a) == key_chars_view(*b)),
{
    proof {
        reveal(facet_lt);
        lemma_facet_order(key_chars_view(*a), key_chars_view(*b), key_chars_view(*a));
    }
    let c0 = compare_opt_chars(&a.0, &b.0);
    if c0 != Comparison::Equal {
        return c0;
    }
    let c1 = compare_opt_chars(&a.1, &b.1);
    if c1 != Comparison::Equal {
        return c1;
    }
    compare_opt_chars(&a.2, &b.2)
}

fn first_present(a: &Option<String>, b: &Option<String>) -> (r: Option<String>)
    ensures
        r == first_of(*a, *b),
{
    match a {
        Some(s) => Some(s.clone()),
        None => clone_opt_string(b),
    }
}

/// Every one of the first `n` tracks has its facet among `facets[off..]`.
pub open spec fn covers(facets: Seq<Facet>, tracks: Seq<Track>, n: int, off: int) -> bool {
    forall|t: int| 0 <= t < n ==> #[trigger] has_facet_of(facets, tracks, t, off)
}

/// The facet of track `t` is among `facets[off..]`.
pub open spec fn has_facet_of(facets: Seq<Facet>, tracks: Seq<Track>, t: int, off: int) -> bool {
    exists|j: int| #![trigger facets[j]] off <= j < facets.len() && facet_key(facets[j]) == track_facet_key(tracks[t])
}

/// `facets[j]` is the facet of one of the first `n` tracks.
pub open spec fn is_facet_of_some(facets: Seq<Facet>, tracks: Seq<Track>, j: int, n: int) -> bool {
    exists|t: int| #![trigger tracks[t]] 0 <= t < n && facet_key(facets[j]) == track_facet_key(tracks[t])
}

/// Every facet of `facets[off..]` is the facet of one of the first `n`
/// tracks.
pub open spec fn drawn_from(facets: Seq<Facet>, tracks: Seq<Track>, n: int, off: int) -> bool {
    forall|j: int| off <= j < facets.len() ==> #[trigger] is_facet_of_some(facets, tracks, j, n)
}

/// The facets of `facets[off..]` are strictly increasing.
pub open spec fn strictly_sorted(facets: Seq<Facet>, off: int) -> bool {
    forall|i: int, j: int| off <= i < j < facets.len() ==> facet_lt(facet_key(#[trigger] facets[i]), facet_key(#[trigger] facets[j]))
}

spec fn keys_match(facets: Seq<Facet>, keys: Seq<KeyChars>) -> bool {
    &&& facets.len() == keys.len()
    &&& forall|i: int| 0 <= i < facets.len() ==> facet_key(#[trigger] facets[i]) == key_chars_view(keys[i])
}

/// `dst[t]` is where the facet of track `t` stands, for the first `n`
/// tracks.
spec fn placed(facets: Seq<Facet>, tracks: Seq<Track>, n: int, dst: Seq<int>) -> bool {
    &&& dst.len() == n
    &&& forall|t: int| #![trigger dst[t]]
        0 <= t < n ==> 0 <= dst[t] < facets.len() && facet_key(facets[dst[t]]) == track_facet_key(tracks[t])
}

/// `src[j]` is one of the first `n` tracks whose facet is `facets[j]`.
spec fn sourced(facets: Seq<Facet>, tracks: Seq<Track>, n: int, src: Seq<int>) -> bool {
    &&& src.len() == facets.len()
    &&& forall|j: int| #![trigger src[j]]
        0 <= j < facets.len() ==> 0 <= src[j] < n && facet_key(facets[j]) == track_facet_key(tracks[src[j]])
}

/// Where a key goes in a sorted key list: after every smaller key; and
/// whether it is there already.
fn find_slot(keys: &Vec<KeyChars>, k: &KeyChars) -> (r: (usize, bool))
    ensures
        r.0 <= keys@.len(),
        forall|i: int| 0 <= i < r.0 ==> facet_lt(key_chars_view(#[trigger] keys@[i]), key_chars_view(*k)),
        r.1 ==> r.0 < keys@.len() && key_chars_view(keys@[r.0 as int]) == key_chars_view(*k),
        !r.1 && r.0 < keys@.len() ==> !facet_lt(key_chars_view(keys@[r.0 as int]), key_chars_view(*k))
            && key_chars_view(keys@[r.0 as int]) != key_chars_view(*k),
{
    let mut j: usize = 0;
    while j < keys.len()
        invariant
            j <= keys@.len(),
            forall|i: int| 0 <= i < j ==> facet_lt(key_chars_view(#[trigger] keys@[i]), key_chars_view(*k)),
        decreases keys@.len() - j,
    {
        let c = compare_keys(&keys[j], k);
        if c == Comparison::Equal {
            return (j, true);
        }
        if c != Comparison::Less {
            return (j, false);
        }
        j = j + 1;
    }
    (j, false)
}

proof fn lemma_insert_keys(old_f: Seq<Facet>, old_k: Seq<KeyChars>, j: int, f: Facet, k: KeyChars)
    requires
        0 <= j <= old_f.len(),
        keys_match(old_f, old_k),
        facet_key(f) == key_chars_view(k),
    ensures
        keys_match(old_f.insert(j, f), old_k.insert(j, k)),
{
    let nf = old_f.insert(j, f);
    let nk = old_k.insert(j, k);
    assert forall|i: int| 0 <= i < nf.len() implies facet_key(#[trigger] nf[i]) == key_chars_view(nk[i]) by {
        if i > j {
            assert(nf[i] == old_f[i - 1]);
            assert(nk[i] == old_k[i - 1]);
        }
    }
}

proof fn lemma_insert_sorted(old_f: Seq<Facet>, j: int, f: Facet)
    requires
        0 <= j <= old_f.len(),
        strictly_sorted(old_f, 0),
        forall|i: int| 0 <= i < j ==> facet_lt(facet_key(#[trigger] old_f[i]), facet_key(f)),
        j < old_f.len() ==> facet_lt(facet_key(f), facet_key(old_f[j])),
    ensures
        strictly_sorted(old_f.insert(j, f), 0),
{
    let nf = old_f.insert(j, f);
    assert forall|a: int, b: int| 0 <= a < b < nf.len() implies facet_lt(facet_key(#[trigger] nf[a]), facet_key(#[trigger] nf[b])) by {
        if b < j {
            assert(nf[a] == old_f[a]);
            assert(nf[b] == old_f[b]);
        } else if b == j {
            assert(nf[a] == old_f[a]);
        } else if a < j {
            assert(nf[a] == old_f[a]);
            assert(nf[b] == old_f[b - 1]);
            if b - 1 > j {
                lemma_facet_order(facet_key(f), facet_key(old_f[j]), facet_key(old_f[b - 1]));
            }
            lemma_facet_order(facet_key(old_f[a]), facet_key(f), facet_key(old_f[b - 1]));
        } else if a == j {
            assert(nf[b] == old_f[b - 1]);
            if b - 1 > j {
                lemma_facet_order(facet_key(f), facet_key(old_f[j]), facet_key(old_f[b - 1]));
            }
        } else {
            assert(nf[a] == old_f[a - 1]);
            assert(nf[b] == old_f[b - 1]);
        }
    }
}

spec fn shift_from(dst: Seq<int>, j: int) -> Seq<int> {
    dst.map_values(|x: int| if x >= j { x + 1 } else { x })
}

proof fn lemma_insert_placed(old_f: Seq<Facet>, j: int, f: Facet, tracks: Seq<Track>, n: int, dst: Seq<int>)
    requires
        0 <= n < tracks.len(),
        0 <= j <= old_f.len(),
        placed(old_f, tracks, n, dst),
        facet_key(f) == track_facet_key(tracks[n]),
    ensures
        placed(old_f.insert(j, f), tracks, n + 1, shift_from(dst, j).push(j)),
{
    let nf = old_f.insert(j, f);
    let nd = shift_from(dst, j).push(j);
    assert forall|t: int| 0 <= t < n + 1 implies 0 <= #[trigger] nd[t] < nf.len() && facet_key(nf[nd[t]]) == track_facet_key(tracks[t]) by {
        if t < n {
            assert(nd[t] == shift_from(dst, j)[t]);
            if dst[t] >= j {
                assert(nf[dst[t] + 1] == old_f[dst[t]]);
            } else {
                assert(nf[dst[t]] == old_f[dst[t]]);
            }
        }
    }
}

proof fn lemma_insert_sourced(old_f: Seq<Facet>, j: int, f: Facet, tracks: Seq<Track>, n: int, src: Seq<int>)
    requires
        0 <= n < tracks.len(),
        0 <= j <= old_f.len(),
        sourced(old_f, tracks, n, src),
        facet_key(f) == track_facet_key(tracks[n]),
    ensures
        sourced(old_f.insert(j, f), tracks, n + 1, src.insert(j, n)),
{
    let nf = old_f.insert(j, f);
    let ns = src.insert(j, n);
    assert forall|jj: int| 0 <= jj < nf.len() implies 0 <= #[trigger] ns[jj] < n + 1 && facet_key(nf[jj]) == track_facet_key(tracks[ns[jj]]) by {
        if jj < j {
            assert(nf[jj] == old_f[jj]);
            assert(ns[jj] == src[jj]);
        } else if jj > j {
            assert(nf[jj] == old_f[jj - 1]);
            assert(ns[jj] == src[jj - 1]);
        }
    }
}

proof fn lemma_found_placed(facets: Seq<Facet>, j: int, tracks: Seq<Track>, n: int, dst: Seq<int>, src: Seq<int>)
    requires
        0 <= n < tracks.len(),
        0 <= j < facets.len(),
        placed(facets, tracks, n, dst),
        sourced(facets, tracks, n, src),
        facet_key(facets[j]) == track_facet_key(tracks[n]),
    ensures
        placed(facets, tracks, n + 1, dst.push(j)),
        sourced(facets, tracks, n + 1, src),
{
    let nd = dst.push(j);
    assert forall|t: int| 0 <= t < n + 1 implies 0 <= #[trigger] nd[t] < facets.len() && facet_key(facets[nd[t]]) == track_facet_key(tracks[t]) by {
        if t < n {
            assert(nd[t] == dst[t]);
        }
    }
}

proof fn lemma_result(sorted: Seq<Facet>, all: Facet, tracks: Seq<Track>, dst: Seq<int>, src: Seq<int>)
    requires
        strictly_sorted(sorted, 0),
        placed(sorted, tracks, tracks.len() as int, dst),
        sourced(sorted, tracks, tracks.len() as int, src),
    ensures
        strictly_sorted(sorted.insert(0, all), 1),
        covers(sorted.insert(0, all), tracks, tracks.len() as int, 1),
        drawn_from(sorted.insert(0, all), tracks, tracks.len() as int, 1),
{
    let v = sorted.insert(0, all);
    assert forall|a: int, b: int| 1 <= a < b < v.len() implies facet_lt(facet_key(#[trigger] v[a]), facet_key(#[trigger] v[b])) by {
        assert(v[a] == sorted[a - 1]);
        assert(v[b] == sorted[b - 1]);
    }
    assert forall|t: int| 0 <= t < tracks.len() implies #[trigger] has_facet_of(v, tracks, t, 1) by {
        let d = dst[t];
        assert(0 <= d < sorted.len());
        assert(v[d + 1] == sorted[d]);
        assert(facet_key(v[d + 1]) == track_facet_key(tracks[t]));
    }
    assert(covers(v, tracks, tracks.len() as int, 1));
    assert forall|j: int| 1 <= j < v.len() implies #[trigger] is_facet_of_some(v, tracks, j, tracks.len() as int) by {
        assert(v[j] == sorted[j - 1]);
        let t = src[j - 1];
        assert(0 <= t < tracks.len());
        assert(facet_key(v[j]) == track_facet_key(tracks[t]));
    }
    assert(drawn_from(v, tracks, tracks.len() as int, 1));
}

/// The facets of a list of tracks: first the all-library entry, then each
/// distinct track facet once, in facet order.
pub fn build_facets(tracks_list: &[Track]) -> (r: Vec<Facet>)
    ensures
        r@.len() >= 1,
        facet_key(r@[0]) == all_key(),
        strictly_sorted(r@, 1),
        covers(r@, tracks_list@, tracks_list@.len() as int, 1),
        drawn_from(r@, tracks_list@, tracks_list@.len() as int, 1),
        is_facet_list(r@, tracks_list@),
{
    let mut facets: Vec<Facet> = Vec::new();
    let mut keys: Vec<KeyChars> = Vec::new();
    let ghost mut dst: Seq<int> = Seq::empty();
    let ghost mut src: Seq<int> = Seq::empty();
    let mut n: usize = 0;
    while n < tracks_list.len()
        invariant
            n <= tracks_list@.len(),
            keys_match(facets@, keys@),
            strictly_sorted(facets@, 0),
            placed(facets@, tracks_list@, n as int, dst),
            sourced(facets@, tracks_list@, n as int, src),
        decreases tracks_list@.len() - n,
    {
        let row = &tracks_list[n];
        let f = Facet {
            album: clone_opt_string(&row.album),
            album_artist: clone_opt_string(&row.album_artist),
            album_artist_or_artist: first_present(&row.album_artist, &row.artist),
            all: false,
        };
        let k: KeyChars = (opt_chars(&f.album_artist_or_artist), opt_chars(&f.album_artist), opt_chars(&f.album));
        assert(key_chars_view(k) == facet_key(f));
        assert(facet_key(f) == track_facet_key(tracks_list@[n as int]));
        let (j, found) = find_slot(&keys, &k);
        if found {
            proof {
                lemma_found_placed(facets@, j as int, tracks_list@, n as int, dst, src);
                dst = dst.push(j as int);
            }
        } else {
            proof {
                assert forall|i: int| 0 <= i < j implies facet_lt(facet_key(#[trigger] facets@[i]), facet_key(f)) by {
                    assert(facet_lt(key_chars_view(keys@[i]), key_chars_view(k)));
                }
                if j < keys@.len() {
                    lemma_facet_order(facet_key(facets@[j as int]), key_chars_view(k), key_chars_view(k));
                }
                lemma_insert_keys(facets@, keys@, j as int, f, k);
                lemma_insert_sorted(facets@, j as int, f);
                lemma_insert_placed(facets@, j as int, f, tracks_list@, n as int, dst);
                lemma_insert_sourced(facets@, j as int, f, tracks_list@, n as int, src);
                dst = shift_from(dst, j as int).push(j as int);
                src = src.insert(j as int, n as int);
            }
            facets.insert(j, f);
            keys.insert(j, k);
        }
        n = n + 1;
    }
    let ghost sorted = facets@;
    let all = Facet { album: None, album_artist: None, album_artist_or_artist: None, all: true };
    facets.insert(0, all);
    proof {
        lemma_result(sorted, all, tracks_list@, dst, src);
    }
    facets
}


/// The keys of a list of facets, in order.
pub open spec fn keys_of(r: Seq<Facet>) -> Seq<FacetKey> {
    r.map_values(|f: Facet| facet_key(f))
}

/// The set of facets that tracks have.
pub open spec fn track_keys(tracks: Seq<Track>) -> Set<FacetKey> {
    Set::new(|k: FacetKey| exists|i: int| 0 <= i < tracks.len() && track_facet_key(tracks[i]) == k)
}

/// What `build_facets` gives for a list of tracks: the all-library entry,
/// then the tracks' facets, each once, strictly in facet order.
pub open spec fn is_facet_list(r: Seq<Facet>, tracks: Seq<Track>) -> bool {
    &&& r.len() >= 1
    &&& facet_key(r[0]) == all_key()
    &&& strictly_sorted(r, 1)
    &&& covers(r, tracks, tracks.len() as int, 1)
    &&& drawn_from(r, tracks, tracks.len() as int, 1)
}

spec fn increasing(x: Seq<FacetKey>) -> bool {
    forall|i: int, j: int| 0 <= i < j < x.len() ==> facet_lt(#[trigger] x[i], #[trigger] x[j])
}

/// Two strictly increasing lists of keys with the same members are equal.
proof fn lemma_increasing_same_members(x: Seq<FacetKey>, y: Seq<FacetKey>)
    requires
        increasing(x),
        increasing(y),
        forall|k: FacetKey| x.contains(k) <==> y.contains(k),
    ensures
        x == y,
    decreases x.len() + y.len(),
{
    if x.len() == 0 {
        if y.len() > 0 {
            assert(y.contains(y[0]));
        }
        assert(y =~= x);
    } else if y.len() == 0 {
        assert(x.contains(x[0]));
    } else {
        assert(x.contains(x[0]));
        assert(y.contains(y[0]));
        let i = choose|i: int| 0 <= i < x.len() && x[i] == y[0];
        let j = choose|j: int| 0 <= j < y.len() && y[j] == x[0];
        lemma_facet_order(x[0], y[0], x[0]);
        lemma_facet_order(y[0], x[0], y[0]);
        if i > 0 {
            assert(facet_lt(x[0], x[i]));
            if j > 0 {
                assert(facet_lt(y[0], y[j]));
            }
        }
        assert(x[0] == y[0]);
        let x1 = x.drop_first();
        let y1 = y.drop_first();
        assert forall|a: int, b: int| 0 <= a < b < x1.len() implies facet_lt(#[trigger] x1[a], #[trigger] x1[b]) by {
            assert(x1[a] == x[a + 1] && x1[b] == x[b + 1]);
        }
        assert forall|a: int, b: int| 0 <= a < b < y1.len() implies facet_lt(#[trigger] y1[a], #[trigger] y1[b]) by {
            assert(y1[a] == y[a + 1] && y1[b] == y[b + 1]);
        }
        assert forall|k: FacetKey| x1.contains(k) implies y1.contains(k) by {
            let a = choose|a: int| 0 <= a < x1.len() && x1[a] == k;
            assert(x[a + 1] == k);
            assert(x.contains(k));
            let b = choose|b: int| 0 <= b < y.len() && y[b] == k;
            assert(facet_lt(x[0], x[a + 1]));
            lemma_facet_order(k, k, k);
            assert(b != 0);
            assert(y1[b - 1] == k);
        }
        assert forall|k: FacetKey| y1.contains(k) implies x1.contains(k) by {
            let a = choose|a: int| 0 <= a < y1.len() && y1[a] == k;
            assert(y[a + 1] == k);
            assert(y.contains(k));
            let b = choose|b: int| 0 <= b < x.len() && x[b] == k;
            assert(facet_lt(y[0], y[a + 1]));
            lemma_facet_order(k, k, k);
            assert(b != 0);
            assert(x1[b - 1] == k);
        }
        lemma_increasing_same_members(x1, y1);
        assert(x =~= seq![x[0]] + x1);
        assert(y =~= seq![y[0]] + y1);
    }
}

/// The keys after the all-library entry are increasing, and their members
/// are exactly the tracks' facets.
proof fn lemma_facet_list_members(r: Seq<Facet>, tracks: Seq<Track>)
    requires
        is_facet_list(r, tracks),
    ensures
        increasing(keys_of(r).drop_first()),
        forall|k: FacetKey| keys_of(r).drop_first().contains(k) <==> track_keys(tracks).contains(k),
{
    let x = keys_of(r).drop_first();
    assert forall|a: int, b: int| 0 <= a < b < x.len() implies facet_lt(#[trigger] x[a], #[trigger] x[b]) by {
        assert(x[a] == facet_key(r[a + 1]) && x[b] == facet_key(r[b + 1]));
    }
    assert forall|k: FacetKey| x.contains(k) implies track_keys(tracks).contains(k) by {
        let a = choose|a: int| 0 <= a < x.len() && x[a] == k;
        assert(x[a] == facet_key(r[a + 1]));
        assert(is_facet_of_some(r, tracks, a + 1, tracks.len() as int));
        let t = choose|t: int| 0 <= t < tracks.len() && facet_key(r[a + 1]) == track_facet_key(tracks[t]);
        assert(tracks[t] == tracks[t]);
    }
    assert forall|k: FacetKey| track_keys(tracks).contains(k) implies x.contains(k) by {
        let t = choose|t: int| 0 <= t < tracks.len() && track_facet_key(tracks[t]) == k;
        assert(has_facet_of(r, tracks, t, 1));
        let j = choose|j: int| 1 <= j < r.len() && facet_key(r[j]) == track_facet_key(tracks[t]);
        assert(x[j - 1] == facet_key(r[j]));
    }
}

/// The facets depend only on which facets the tracks have: two track
/// lists with the same facets, in any order and with any repetition, give
/// the same facet list.
pub proof fn law_facets_ignore_order_and_repetition(r1: Seq<Facet>, a: Seq<Track>, r2: Seq<Facet>, b: Seq<Track>)
    requires
        is_facet_list(r1, a),
        is_facet_list(r2, b),
        track_keys(a) == track_keys(b),
    ensures
        keys_of(r1) == keys_of(r2),
{
    lemma_facet_list_members(r1, a);
    lemma_facet_list_members(r2, b);
    let x1 = keys_of(r1).drop_first();
    let x2 = keys_of(r2).drop_first();
    assert forall|k: FacetKey| x1.contains(k) <==> x2.contains(k) by {
        assert(x1.contains(k) <==> track_keys(a).contains(k));
        assert(x2.contains(k) <==> track_keys(b).contains(k));
    }
    lemma_increasing_same_members(keys_of(r1).drop_first(), keys_of(r2).drop_first());
    assert(keys_of(r1) =~= seq![facet_key(r1[0])] + keys_of(r1).drop_first());
    assert(keys_of(r2) =~= seq![facet_key(r2[0])] + keys_of(r2).drop_first());
}

} // verus!
