//! Waiting for a file to stop growing before it is read.
//!
//! The size of the file is polled at a fixed interval, a bounded number of
//! times. The decisions are taken here; sleeping and measuring are left to
//! the caller.

use vstd::prelude::*;

verus! {

/// Milliseconds between two polls.
pub const POLL_INTERVAL_MS: u64 = 50;

/// Polls that a watch is given where the caller does not say.
pub const DEFAULT_RETRIES: usize = 5;

/// Where a watch stands.
#[derive(Debug, Clone, Copy, PartialEq, Eq, Structural)]
pub enum Watch {
    /// Waiting for the next size; `polls_left` polls remain, at least one.
    Polling { last_size: u64, polls_left: usize },
    /// Two polls in a row gave the same size.
    Stable,
    /// The size changed on every poll.
    Unstable,
}

/// The watch after the first size was measured.
pub open spec fn started(first_size: u64, max_retries: usize) -> Watch {
    if max_retries == 0 {
        Watch::Unstable
    } else {
        Watch::Polling { last_size: first_size, polls_left: max_retries }
    }
}

/// The watch after one more size was measured.
pub open spec fn observed(watch: Watch, size: u64) -> Watch {
    match watch {
        Watch::Polling { last_size, polls_left } => {
            if size == last_size {
                Watch::Stable
            } else if polls_left <= 1 {
                Watch::Unstable
            } else {
                Watch::Polling { last_size: size, polls_left: (polls_left - 1) as usize }
            }
        },
        Watch::Stable => Watch::Stable,
        Watch::Unstable => Watch::Unstable,
    }
}

/// The number of polls a watch may still take.
pub open spec fn polls_left(watch: Watch) -> nat {
    match watch {
        Watch::Polling { last_size, polls_left } => polls_left as nat,
        _ => 0,
    }
}

/// The watch after a sequence of sizes was measured, one after the other.
pub open spec fn observed_all(watch: Watch, sizes: Seq<u64>) -> Watch
    decreases sizes.len(),
{
    if sizes.len() == 0 {
        watch
    } else {
        observed(observed_all(watch, sizes.drop_last()), sizes.last())
    }
}

/// Starts a watch with the size measured first.
pub fn start_watch(first_size: u64, max_retries: usize) -> (watch: Watch)
    ensures
        watch == started(first_size, max_retries),
{
    if max_retries == 0 {
        Watch::Unstable
    } else {
        Watch::Polling { last_size: first_size, polls_left: max_retries }
    }
}

/// Takes the size measured after one more interval.
pub fn observe(watch: Watch, size: u64) -> (next: Watch)
    ensures
        next == observed(watch, size),
{
    match watch {
        Watch::Polling { last_size, polls_left } => {
            if size == last_size {
                Watch::Stable
            } else if polls_left <= 1 {
                Watch::Unstable
            } else {
                Watch::Polling { last_size: size, polls_left: polls_left - 1 }
            }
        },
        Watch::Stable => Watch::Stable,
        Watch::Unstable => Watch::Unstable,
    }
}

/// Tells whether the caller is to sleep and measure once more.
pub fn wants_poll(watch: Watch) -> (b: bool)
    ensures
        b == (watch is Polling),
{
    match watch {
        Watch::Polling { .. } => true,
        _ => false,
    }
}

/// Every poll brings a watch nearer its end: a watch that goes on has fewer
/// polls left than before.
pub proof fn lemma_poll_uses_a_retry(watch: Watch, size: u64)
    requires
        watch is Polling,
    ensures
        polls_left(observed(watch, size)) < polls_left(watch) || polls_left(watch) == 0,
        observed(watch, size) is Polling ==> polls_left(observed(watch, size)) + 1 == polls_left(
            watch,
        ),
{
}

/// A watch ends within the polls it was given: after as many sizes as it
/// had retries, whatever they are, it is stable or unstable.
pub proof fn lemma_watch_ends(first_size: u64, max_retries: usize, sizes: Seq<u64>)
    requires
        sizes.len() >= max_retries,
    ensures
        !(observed_all(started(first_size, max_retries), sizes) is Polling),
{
    lemma_polls_bounded(first_size, max_retries, sizes);
}

/// After `n` sizes a watch that still polls has `n` polls fewer left.
proof fn lemma_polls_bounded(first_size: u64, max_retries: usize, sizes: Seq<u64>)
    ensures
        observed_all(started(first_size, max_retries), sizes) is Polling ==> polls_left(
            observed_all(started(first_size, max_retries), sizes),
        ) + sizes.len() == max_retries && sizes.len() < max_retries,
    decreases sizes.len(),
{
    if sizes.len() > 0 {
        lemma_polls_bounded(first_size, max_retries, sizes.drop_last());
    }
}

} // verus!
