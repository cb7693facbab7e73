//! Adding YouTube channels from a list of inputs, one per line: which
//! lines name a channel, and the counts and messages of an import in
//! progress.
use vstd::prelude::*;
use crate::media::Timestamp;
use crate::text::{lines, lines_spec, nat_decimal, push_nat_decimal, push_str, to_owned_string, trim, trim_spec};
use crate::youtube::{parse_youtube_url, youtube_url_of, VideoInfo};

verus! {

/// The URLs the lines of a text name, in order: each line trimmed, empty
/// lines and lines that name nothing skipped.
pub open spec fn import_urls_spec(ls: Seq<Seq<char>>) -> Seq<Seq<char>>
    decreases ls.len(),
{
    if ls.len() == 0 {
        Seq::empty()
    } else {
        let rest = import_urls_spec(ls.drop_last());
        let t = trim_spec(ls.last());
        if t.len() > 0 && youtube_url_of(t) is Some {
            rest.push(youtube_url_of(t)->0)
        } else {
            rest
        }
    }
}

/// The URLs the lines of a text name, in order.
pub fn import_urls(text: &str) -> (r: Vec<String>)
    ensures
        r@.map_values(|s: String| s@) == import_urls_spec(lines_spec(text@)),
{
    let ls = lines(text);
    let ghost lv = ls@.map_values(|x: String| x@);
    let mut r: Vec<String> = Vec::new();
    let mut i: usize = 0;
    while i < ls.len()
        invariant
            i <= ls@.len(),
            lv == ls@.map_values(|x: String| x@),
            r@.map_values(|s: String| s@) == import_urls_spec(lv.take(i as int)),
        decreases ls@.len() - i,
    {
        proof {
            assert(lv.take(i + 1).drop_last() =~= lv.take(i as int));
            assert(lv.take(i + 1).last() == ls@[i as int]@);
        }
        let t = trim(ls[i].as_str());
        if !t.as_str().is_empty() {
            match parse_youtube_url(t.as_str()) {
                Some(u) => {
                    let ghost prev = r@;
                    r.push(u);
                    assert(r@.map_values(|s: String| s@) =~= prev.map_values(|s: String| s@).push(
                        youtube_url_of(t@)->0,
                    ));
                },
                None => {},
            }
        }
        i = i + 1;
    }
    assert(lv.take(ls@.len() as int) =~= lv);
    r
}

/// Whether a text names at least one channel (the add button is enabled
/// only then).
pub fn has_importable_url(text: &str) -> (r: bool)
    ensures
        r == (import_urls_spec(lines_spec(text@)).len() > 0),
{
    let urls = import_urls(text);
    urls.len() > 0
}

/// `Fetching channel n of total...`.
pub open spec fn fetching_label(n: nat, total: nat) -> Seq<char> {
    "Fetching channel "@ + nat_decimal(n) + " of "@ + nat_decimal(total) + "..."@
}

/// `Fetching channel n of total...`.
fn fetching_text(n: usize, total: usize) -> (r: String)
    ensures
        r@ == fetching_label(n as nat, total as nat),
{
    let mut s = to_owned_string("Fetching channel ");
    push_nat_decimal(&mut s, n as u64);
    push_str(&mut s, " of ");
    push_nat_decimal(&mut s, total as u64);
    push_str(&mut s, "...");
    s
}

/// An import of channels in progress: how many there are, how many were
/// handled, added, or failed.
#[derive(Clone, Copy, Debug, PartialEq, Eq, Structural)]
pub struct ChannelImport {
    pub total: usize,
    pub processed: usize,
    pub added: usize,
    pub errors: usize,
}

impl ChannelImport {
    /// Every channel handled was added or failed, and no more were
    /// handled than there are.
    pub open spec fn consistent(&self) -> bool {
        self.added + self.errors == self.processed && self.processed <= self.total
    }

    /// Starts an import of `total` channels, with the message for the
    /// first.
    pub fn start(total: usize) -> (r: (ChannelImport, String))
        ensures
            r.0 == (ChannelImport { total, processed: 0, added: 0, errors: 0 }),
            r.0.consistent(),
            r.1@ == fetching_label(1, total as nat),
    {
        (ChannelImport { total, processed: 0, added: 0, errors: 0 }, fetching_text(1, total))
    }

    /// A channel was fetched; `stored` tells whether the library took it.
    /// Returns the message for the next channel, while one remains.
    pub fn channel_fetched(&mut self, stored: bool) -> (r: Option<String>)
        requires
            old(self).consistent(),
            old(self).processed < old(self).total,
        ensures
            final(self).total == old(self).total,
            final(self).processed == old(self).processed + 1,
            final(self).added == old(self).added + if stored {
                1int
            } else {
                0int
            },
            final(self).errors == old(self).errors + if stored {
                0int
            } else {
                1int
            },
            final(self).consistent(),
            final(self).processed < final(self).total ==> (r matches Some(m) && m@ == fetching_label(
                (final(self).processed + 1) as nat,
                final(self).total as nat,
            )),
            final(self).processed >= final(self).total ==> r is None,
    {
        self.processed = self.processed + 1;
        if stored {
            self.added = self.added + 1;
        } else {
            self.errors = self.errors + 1;
        }
        if self.processed < self.total {
            Some(fetching_text(self.processed + 1, self.total))
        } else {
            None
        }
    }

    /// A channel could not be fetched. Returns the message for the next
    /// channel, while one remains.
    pub fn fetch_failed(&mut self) -> (r: Option<String>)
        requires
            old(self).consistent(),
            old(self).processed < old(self).total,
        ensures
            *final(self) == (ChannelImport {
                processed: (old(self).processed + 1) as usize,
                errors: (old(self).errors + 1) as usize,
                ..*old(self)
            }),
            final(self).consistent(),
            final(self).processed < final(self).total ==> (r matches Some(m) && m@ == fetching_label(
                (final(self).processed + 1) as nat,
                final(self).total as nat,
            )),
            final(self).processed >= final(self).total ==> r is None,
    {
        self.processed = self.processed + 1;
        self.errors = self.errors + 1;
        if self.processed < self.total {
            Some(fetching_text(self.processed + 1, self.total))
        } else {
            None
        }
    }

    /// The message once all channels were handled: how many were added,
    /// and how many failed if any did.
    pub fn finish_text(&self) -> (r: String)
        ensures
            r@ == if self.errors == 0 {
                "Added "@ + nat_decimal(self.added as nat) + " channels"@
            } else {
                "Added "@ + nat_decimal(self.added as nat) + " channels, "@ + nat_decimal(self.errors as nat)
                    + " failed"@
            },
    {
        let mut s = to_owned_string("Added ");
        push_nat_decimal(&mut s, self.added as u64);
        if self.errors > 0 {
            push_str(&mut s, " channels, ");
            push_nat_decimal(&mut s, self.errors as u64);
            push_str(&mut s, " failed");
            assert(s@ =~= "Added "@ + nat_decimal(self.added as nat) + " channels, "@ + nat_decimal(
                self.errors as nat,
            ) + " failed"@);
        } else {
            push_str(&mut s, " channels");
            assert(s@ =~= "Added "@ + nat_decimal(self.added as nat) + " channels"@);
        }
        s
    }
}

/// The message when the fetching side went away.
pub fn connection_lost_text() -> (r: String)
    ensures
        r@ == "Error: Connection lost"@,
{
    to_owned_string("Error: Connection lost")
}

/// A video as the library stores it for a channel: id, title, duration,
/// thumbnail and publication time.
pub type VideoRow = (String, String, Option<i32>, Option<String>, Option<Timestamp>);

/// The videos of a fetched channel as the library stores them, in order.
pub fn video_rows(videos: &Vec<VideoInfo>) -> (r: Vec<VideoRow>)
    ensures
        r@.len() == videos@.len(),
        forall|i: int|
            0 <= i < r@.len() ==> (#[trigger] r@[i]).0@ == videos@[i].video_id@ && r@[i].1@ == videos@[i].title@
                && r@[i].2 == videos@[i].duration_seconds && r@[i].3 == videos@[i].thumbnail_url && r@[i].4
                == videos@[i].published_at,
{
    let mut r: Vec<VideoRow> = Vec::new();
    let mut i: usize = 0;
    while i < videos.len()
        invariant
            i <= videos@.len(),
            r@.len() == i,
            forall|k: int|
                0 <= k < i ==> (#[trigger] r@[k]).0@ == videos@[k].video_id@ && r@[k].1@ == videos@[k].title@
                    && r@[k].2 == videos@[k].duration_seconds && r@[k].3 == videos@[k].thumbnail_url && r@[k].4
                    == videos@[k].published_at,
        decreases videos@.len() - i,
    {
        let v = &videos[i];
        r.push(
            (
                v.video_id.clone(),
                v.title.clone(),
                v.duration_seconds,
                crate::media::clone_opt_string(&v.thumbnail_url),
                v.published_at,
            ),
        );
        i = i + 1;
    }
    r
}

} // verus!
