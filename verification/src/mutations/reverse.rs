//! Reverse: the bytes of a window are put in the opposite order.

use crate::configuration::Configuration;
use crate::configuration::MutationSpec;
use crate::error::FailureKind;
use crate::error::MutationError;
use crate::kind::MutationKind;
use crate::mutations::clamp_end;
use crate::mutations::operation::guarded;
use crate::mutations::operation::header_kept;
use crate::mutations::operation::Operation;
use crate::mutations::operation::perform;
use crate::mutations::operation::performed;
use crate::mutations::window_end;
use crate::mutations::window_start;
use vstd::prelude::*;

verus! {

/// `s` with the window of `chunksize` bytes at `index` in the opposite order.
pub open spec fn reversed(s: Seq<u8>, index: int, chunksize: int) -> Seq<u8> {
    let start = window_start(s.len() as int, index);
    let end = window_end(s.len() as int, index, chunksize);
    Seq::new(s.len(), |k: int| if start <= k < end { s[start + end - 1 - k] } else { s[k] })
}

/// A reversal rearranges its window: the window holds the same bytes, each as
/// often as before.
pub proof fn lemma_reversed_is_permutation(s: Seq<u8>, index: int, chunksize: int)
    requires
        0 <= index,
        0 <= chunksize,
    ensures
        reversed(s, index, chunksize).subrange(
            window_start(s.len() as int, index),
            window_end(s.len() as int, index, chunksize),
        ) == s.subrange(
            window_start(s.len() as int, index),
            window_end(s.len() as int, index, chunksize),
        ).reverse(),
        reversed(s, index, chunksize).subrange(
            window_start(s.len() as int, index),
            window_end(s.len() as int, index, chunksize),
        ).to_multiset() == s.subrange(
            window_start(s.len() as int, index),
            window_end(s.len() as int, index, chunksize),
        ).to_multiset(),
{
    let start = window_start(s.len() as int, index);
    let end = window_end(s.len() as int, index, chunksize);
    let window = s.subrange(start, end);
    assert(reversed(s, index, chunksize).subrange(start, end) =~= window.reverse());
    window.lemma_reverse_to_multiset();
}

/// Reverses the window of `chunksize` bytes at `index`, cut off at the end of
/// the buffer. A window of one byte or none stays as it is.
pub fn reverse_at(data: &mut [u8], index: usize, chunksize: usize)
    ensures
        final(data)@ == reversed(old(data)@, index as int, chunksize as int),
        final(data)@.subrange(
            window_start(old(data)@.len() as int, index as int),
            window_end(old(data)@.len() as int, index as int, chunksize as int),
        ).to_multiset() == old(data)@.subrange(
            window_start(old(data)@.len() as int, index as int),
            window_end(old(data)@.len() as int, index as int, chunksize as int),
        ).to_multiset(),
{
    proof {
        lemma_reversed_is_permutation(data@, index as int, chunksize as int);
    }
    let len = data.len();
    if index >= len {
        assert(data@ =~= reversed(data@, index as int, chunksize as int));
        return;
    }
    let end = clamp_end(len, index, chunksize);
    let mut low: usize = index;
    let mut high: usize = end;
    while high - low > 1
        invariant
            index <= low <= high <= end <= len,
            low - index == end - high,
            len == data@.len(),
            len == old(data)@.len(),
            forall|j: int|
                0 <= j < len ==> data@[j] == if index <= j < low || high <= j < end {
                    old(data)@[index + end - 1 - j]
                } else {
                    old(data)@[j]
                },
        decreases high - low,
    {
        let front = data[low];
        let back = data[high - 1];
        data[low] = back;
        data[high - 1] = front;
        low += 1;
        high -= 1;
    }
    assert(data@ =~= reversed(old(data)@, index as int, chunksize as int));
}

/// What an application of Reverse comes to, given the parameters `configured`
/// that the configuration holds for it, the buffer `before` and `after`, and
/// the result `done`.
pub open spec fn reverse_outcome(
    before: Seq<u8>,
    after: Seq<u8>,
    configured: Option<MutationSpec>,
    done: Result<String, MutationError>,
) -> bool {
    &&& guarded(before, after, configured, done)
    &&& configured matches Some(spec) ==> before.len() > 0 ==> exists|
        iterations: usize,
        chunksize: usize,
    |
        spec.iterations.holds(iterations as int) && spec.chunksize.holds(chunksize as int)
            && #[trigger] performed(
            before,
            after,
            done,
            Operation::Reverse { chunksize },
            iterations as int,
        )
}

/// Applies Reverse with the parameters that the configuration holds for it:
/// the number of iterations and the chunk size are sampled once, then as many
/// windows of the active region are reversed. Fails where the configuration
/// has no parameters for Reverse, or the buffer is empty.
pub fn reverse(data: &mut [u8], cfg: &Configuration) -> (done: Result<String, MutationError>)
    ensures
        header_kept(old(data)@, final(data)@),
        reverse_outcome(old(data)@, final(data)@, cfg.spec_of(MutationKind::Reverse), done),
{
    let spec = match cfg.spec(MutationKind::Reverse) {
        Some(spec) => spec,
        None => { return Err(MutationError::of(FailureKind::NotConfigured)); },
    };
    let iterations = spec.iterations.sample();
    let chunksize = spec.chunksize.sample();
    perform(data, &Operation::Reverse { chunksize }, iterations)
}

} // verus!
