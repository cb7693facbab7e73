//! The thumbnail cache's naming rules: cache file names, the URLs of video
//! thumbnails, and the image files tried as an album's cover.
use vstd::prelude::*;
use crate::media::{video_thumbnail_url, video_thumbnail, YouTubeVideo};
use crate::text::{hex_fixed, push_hex_fixed};

verus! {

/// What std's default hasher (SipHash with fixed keys, as
/// `DefaultHasher::new` makes it) gives for a string.
pub uninterp spec fn default_hash(key: Seq<char>) -> u64;

/// Hashes a string with std's default hasher (`BuildHasher::hash_one` on a
/// `BuildHasherDefault<DefaultHasher>`, the same as feeding the string to
/// `DefaultHasher::new()` and calling `finish`). The contract names the
/// result; the hash function itself is not stated.
#[verifier::external_body]
fn hash_str(key: &str) -> (r: u64)
    ensures
        r == default_hash(key@),
{
    std::hash::BuildHasher::hash_one(
        &std::hash::BuildHasherDefault::<std::collections::hash_map::DefaultHasher>::default(),
        key,
    )
}

/// The cache file name of a key: its hash as sixteen lowercase hex digits.
pub open spec fn cache_name(key: Seq<char>) -> Seq<char> {
    hex_fixed(default_hash(key) as nat, 16)
}

/// The cache file name of a key (a URL, or a track's file name).
pub fn hash_key(key: &str) -> (r: String)
    ensures
        r@ == cache_name(key@),
{
    let h = hash_str(key);
    let mut s = String::new();
    push_hex_fixed(&mut s, h, 16);
    s
}

/// The thumbnail URL of each video, in order: its own, else YouTube's
/// default for its id.
pub fn video_thumbnail_urls(videos: &Vec<YouTubeVideo>) -> (r: Vec<String>)
    ensures
        r@.len() == videos@.len(),
        forall|i: int| 0 <= i < r@.len() ==> (#[trigger] r@[i])@ == video_thumbnail_url(videos@[i]),
{
    let mut r: Vec<String> = Vec::new();
    let mut i: usize = 0;
    while i < videos.len()
        invariant
            i <= videos@.len(),
            r@.len() == i,
            forall|k: int| 0 <= k < i ==> (#[trigger] r@[k])@ == video_thumbnail_url(videos@[k]),
        decreases videos@.len() - i,
    {
        r.push(video_thumbnail(&videos[i]));
        i = i + 1;
    }
    r
}

/// The image files tried, in this order, in a track's folder when its tags
/// hold no picture.
pub open spec fn cover_file_names() -> Seq<Seq<char>> {
    seq![
        "cover.jpg"@,
        "cover.png"@,
        "folder.jpg"@,
        "folder.png"@,
        "album.jpg"@,
        "album.png"@,
        "front.jpg"@,
        "front.png"@,
    ]
}

/// The image files tried as an album's cover, in order.
pub fn album_art_file_names() -> (r: Vec<&'static str>)
    ensures
        r@.len() == cover_file_names().len(),
        forall|i: int| 0 <= i < r@.len() ==> (#[trigger] r@[i])@ == cover_file_names()[i],
{
    let r = vec![
        "cover.jpg",
        "cover.png",
        "folder.jpg",
        "folder.png",
        "album.jpg",
        "album.png",
        "front.jpg",
        "front.png",
    ];
    r
}

/// Progress through filling the cache: how many items were looked at and
/// how many of them were newly stored, of how many in all.
#[derive(Clone, Copy, Debug, PartialEq, Eq, Structural)]
pub struct CacheFill {
    pub done: usize,
    pub added: usize,
    pub total: usize,
}

impl CacheFill {
    /// No item looked at yet, of `total`.
    pub fn new(total: usize) -> (r: CacheFill)
        ensures
            r == (CacheFill { done: 0, added: 0, total }),
    {
        CacheFill { done: 0, added: 0, total }
    }

    /// Counts the next item, newly stored or not (already cached, or it
    /// could not be fetched), and returns the progress to report: items
    /// done and the total.
    pub fn step(&mut self, stored: bool) -> (r: (usize, usize))
        requires
            old(self).done < old(self).total,
            old(self).added <= old(self).done,
        ensures
            final(self).done == old(self).done + 1,
            final(self).added == old(self).added + if stored { 1usize } else { 0usize },
            final(self).total == old(self).total,
            r == (final(self).done, final(self).total),
    {
        self.done = self.done + 1;
        if stored {
            self.added = self.added + 1;
        }
        (self.done, self.total)
    }

    /// What the fill reports at the end: items newly stored, and the total.
    pub fn outcome(&self) -> (r: (usize, usize))
        ensures
            r == (self.added, self.total),
    {
        (self.added, self.total)
    }
}

} // verus!
