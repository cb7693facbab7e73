//! Which item plays next or before: sequential order, repeat modes and
//! shuffle.
use vstd::prelude::*;
use crate::settings::RepeatMode;
use rand::Rng;

verus! {

/// What to do after (or before) the current item.
#[derive(Clone, Copy, Debug, PartialEq, Eq, Structural)]
pub enum NextTrackResult {
    PlayIndex(usize),
    Stop,
}

/// Whether the next item is drawn at random: shuffle is on, there is more
/// than one item, and repeat-one is not replaying a current item.
pub open spec fn draws_at_random(
    current: Option<usize>,
    len: usize,
    shuffle: bool,
    repeat: RepeatMode,
) -> bool {
    &&& len > 1
    &&& shuffle
    &&& !(repeat == RepeatMode::One && current is Some)
}

/// How many indices a shuffle draws from: every index but the current one.
pub open spec fn shuffle_draw_range(current: Option<usize>, len: usize) -> nat {
    match current {
        Some(c) => if c < len { (len - 1) as nat } else { len as nat },
        None => len as nat,
    }
}

/// The index a shuffle draw `d` stands for: the draws skip the current
/// index, so each other index has exactly one draw.
pub open spec fn shuffle_pick(current: Option<usize>, len: usize, d: usize) -> int {
    match current {
        Some(c) => if c < len && d >= c { d + 1 } else { d as int },
        None => d as int,
    }
}

/// What follows the current item, given the shuffle draw `d`.
pub open spec fn next_result(
    current: Option<usize>,
    len: usize,
    shuffle: bool,
    repeat: RepeatMode,
    d: usize,
) -> NextTrackResult {
    if len == 0 {
        NextTrackResult::Stop
    } else if repeat == RepeatMode::One && current is Some {
        NextTrackResult::PlayIndex(current->0)
    } else if shuffle {
        if len == 1 {
            NextTrackResult::PlayIndex(0)
        } else {
            NextTrackResult::PlayIndex(shuffle_pick(current, len, d) as usize)
        }
    } else {
        match current {
            Some(i) => if i + 1 < len {
                NextTrackResult::PlayIndex((i + 1) as usize)
            } else if repeat == RepeatMode::All {
                NextTrackResult::PlayIndex(0)
            } else {
                NextTrackResult::Stop
            },
            None => NextTrackResult::PlayIndex(0),
        }
    }
}

/// What precedes the current item: the previous one, wrapping from the
/// first to the last.
pub open spec fn prev_result(current: Option<usize>, len: usize) -> NextTrackResult {
    if len == 0 {
        NextTrackResult::Stop
    } else {
        match current {
            Some(i) => if i > 0 {
                NextTrackResult::PlayIndex((i - 1) as usize)
            } else {
                NextTrackResult::PlayIndex((len - 1) as usize)
            },
            None => NextTrackResult::PlayIndex(0),
        }
    }
}

/// A uniformly random number below `n` (`rand::rng().random_range(0..n)`).
#[verifier::external_body]
pub(crate) fn random_below(n: usize) -> (r: usize)
    requires
        n > 0,
    ensures
        r < n,
{
    rand::rng().random_range(0..n)
}

/// What follows the current item, given the shuffle draw `draw` (only read
/// when shuffling, where it must lie below `shuffle_draw_range`).
pub fn next_index_with_draw(
    current_index: Option<usize>,
    playlist_len: usize,
    shuffle_enabled: bool,
    repeat_mode: RepeatMode,
    draw: usize,
) -> (r: NextTrackResult)
    requires
        draws_at_random(current_index, playlist_len, shuffle_enabled, repeat_mode)
            ==> draw < shuffle_draw_range(current_index, playlist_len),
    ensures
        r == next_result(current_index, playlist_len, shuffle_enabled, repeat_mode, draw),
{
    if playlist_len == 0 {
        return NextTrackResult::Stop;
    }
    if repeat_mode == RepeatMode::One {
        if let Some(idx) = current_index {
            return NextTrackResult::PlayIndex(idx);
        }
    }
    if shuffle_enabled {
        if playlist_len == 1 {
            return NextTrackResult::PlayIndex(0);
        }
        let pick = match current_index {
            Some(c) => if c < playlist_len && draw >= c {
                draw + 1
            } else {
                draw
            },
            None => draw,
        };
        return NextTrackResult::PlayIndex(pick);
    }
    match current_index {
        Some(idx) => {
            if idx < playlist_len - 1 {
                NextTrackResult::PlayIndex(idx + 1)
            } else if repeat_mode == RepeatMode::All {
                NextTrackResult::PlayIndex(0)
            } else {
                NextTrackResult::Stop
            }
        },
        None => NextTrackResult::PlayIndex(0),
    }
}

/// What follows the current item. With shuffle on, a random index other
/// than the current one, every such index equally likely.
pub fn compute_next_index(
    current_index: Option<usize>,
    playlist_len: usize,
    shuffle_enabled: bool,
    repeat_mode: RepeatMode,
) -> (r: NextTrackResult)
    ensures
        !draws_at_random(current_index, playlist_len, shuffle_enabled, repeat_mode) ==> r
            == next_result(current_index, playlist_len, shuffle_enabled, repeat_mode, 0),
        draws_at_random(current_index, playlist_len, shuffle_enabled, repeat_mode) ==> exists|d: usize|
            d < shuffle_draw_range(current_index, playlist_len) && r == next_result(
                current_index,
                playlist_len,
                shuffle_enabled,
                repeat_mode,
                d,
            ),
{
    if draws_at_random_exec(current_index, playlist_len, shuffle_enabled, repeat_mode) {
        let range = match current_index {
            Some(c) => if c < playlist_len {
                playlist_len - 1
            } else {
                playlist_len
            },
            None => playlist_len,
        };
        let d = random_below(range);
        next_index_with_draw(current_index, playlist_len, shuffle_enabled, repeat_mode, d)
    } else {
        next_index_with_draw(current_index, playlist_len, shuffle_enabled, repeat_mode, 0)
    }
}

fn draws_at_random_exec(
    current: Option<usize>,
    len: usize,
    shuffle: bool,
    repeat: RepeatMode,
) -> (r: bool)
    ensures
        r == draws_at_random(current, len, shuffle, repeat),
{
    len > 1 && shuffle && !(repeat == RepeatMode::One && current.is_some())
}

/// What precedes the current item: the previous one, from the first back to
/// the last, the first when nothing is current, and stop for an empty list.
pub fn compute_prev_index(current_index: Option<usize>, playlist_len: usize) -> (r: NextTrackResult)
    ensures
        r == prev_result(current_index, playlist_len),
{
    if playlist_len == 0 {
        return NextTrackResult::Stop;
    }
    match current_index {
        Some(idx) => {
            if idx > 0 {
                NextTrackResult::PlayIndex(idx - 1)
            } else {
                NextTrackResult::PlayIndex(playlist_len - 1)
            }
        },
        None => NextTrackResult::PlayIndex(0),
    }
}

/// Whatever the draw, what follows an item of a non-empty list is an index
/// of that list, and a shuffle never picks the current item again; the list
/// stops only when it is empty or when sequential play without repeat
/// passes the last item.
pub proof fn law_next_stays_in_list(
    current: Option<usize>,
    len: usize,
    shuffle: bool,
    repeat: RepeatMode,
    d: usize,
)
    requires
        current matches Some(c) ==> c < len,
        draws_at_random(current, len, shuffle, repeat) ==> d < shuffle_draw_range(current, len),
    ensures
        next_result(current, len, shuffle, repeat, d) matches NextTrackResult::PlayIndex(i) ==> i < len,
        draws_at_random(current, len, shuffle, repeat) ==> next_result(current, len, shuffle, repeat, d)
            != NextTrackResult::PlayIndex(current->0) || current is None,
        next_result(current, len, shuffle, repeat, d) == NextTrackResult::Stop <==> (len == 0 || (
        !shuffle && repeat == RepeatMode::Off && current == Some((len - 1) as usize))),
{
}

/// Every index other than the current one has a draw that picks it.
pub proof fn law_shuffle_reaches_every_other_index(current: Option<usize>, len: usize, target: usize)
    requires
        len > 1,
        target < len,
        current matches Some(c) ==> c != target,
    ensures
        exists|d: usize| d < shuffle_draw_range(current, len) && shuffle_pick(current, len, d) == target,
{
    match current {
        Some(c) => {
            if c < len && target > c {
                let d = (target - 1) as usize;
                assert(d < shuffle_draw_range(current, len) && shuffle_pick(current, len, d) == target);
            } else {
                let d = target;
                assert(d < shuffle_draw_range(current, len) && shuffle_pick(current, len, d) == target);
            }
        },
        None => {
            let d = target;
            assert(d < shuffle_draw_range(current, len) && shuffle_pick(current, len, d) == target);
        },
    }
}

/// Without shuffle and with repeat-all, going back undoes going forward
/// and going forward undoes going back, for every item of the list.
pub proof fn law_prev_undoes_next(i: usize, len: usize)
    requires
        i < len,
    ensures
        (next_result(Some(i), len, false, RepeatMode::All, 0) matches NextTrackResult::PlayIndex(j)
            && prev_result(Some(j), len) == NextTrackResult::PlayIndex(i)),
        (prev_result(Some(i), len) matches NextTrackResult::PlayIndex(j) && next_result(
            Some(j),
            len,
            false,
            RepeatMode::All,
            0,
        ) == NextTrackResult::PlayIndex(i)),
{
}

/// With repeat-one, a current item is played again, shuffle or not.
pub proof fn law_repeat_one_replays(i: usize, len: usize, shuffle: bool, d: usize)
    requires
        len > 0,
    ensures
        next_result(Some(i), len, shuffle, RepeatMode::One, d) == NextTrackResult::PlayIndex(i),
{
}

} // verus!
