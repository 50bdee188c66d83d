//! Void: a window of the buffer is overwritten with the character `'0'`.

use crate::configuration::Configuration;
use crate::configuration::MutationSpec;
use crate::error::FailureKind;
use crate::error::MutationError;
use crate::kind::MutationKind;
use crate::mutations::clamp_end;
use crate::mutations::operation::guarded;
use crate::mutations::operation::header_kept;
use crate::mutations::operation::Operation;
use crate::mutations::operation::perform;
use crate::mutations::operation::performed;
use crate::mutations::window_end;
use vstd::prelude::*;

verus! {

/// The byte that Void writes: the ASCII character `'0'`.
pub const VOID_BYTE: u8 = 0x30;

/// `s` with every byte of the window `[index, index + chunksize)` set to
/// `VOID_BYTE`; the window is cut off at the end of `s`.
pub open spec fn voided(s: Seq<u8>, index: int, chunksize: int) -> Seq<u8> {
    Seq::new(s.len(), |k: int| if index <= k < index + chunksize { VOID_BYTE } else { s[k] })
}

/// Void touches its window and nothing else: every byte of the window
/// becomes `'0'`, every byte outside it stays, and the length stays.
pub proof fn lemma_voided_window(s: Seq<u8>, index: int, chunksize: int)
    ensures
        voided(s, index, chunksize).len() == s.len(),
        forall|k: int|
            0 <= k < s.len() && index <= k < index + chunksize ==> #[trigger] voided(
                s,
                index,
                chunksize,
            )[k] == VOID_BYTE,
        forall|k: int|
            0 <= k < s.len() && !(index <= k < index + chunksize) ==> #[trigger] voided(
                s,
                index,
                chunksize,
            )[k] == s[k],
{
}

/// Overwrites the window of `chunksize` bytes at `index` with `'0'`. A window
/// that starts beyond the buffer changes nothing.
pub fn void_at(data: &mut [u8], index: usize, chunksize: usize)
    ensures
        final(data)@ == voided(old(data)@, index as int, chunksize as int),
{
    let len = data.len();
    if index >= len {
        assert(data@ =~= voided(data@, index as int, chunksize as int));
        return;
    }
    let end = clamp_end(len, index, chunksize);
    let mut k: usize = index;
    while k < end
        invariant
            index <= k <= end <= len,
            len == data@.len(),
            data@.len() == old(data)@.len(),
            end == window_end(len as int, index as int, chunksize as int),
            forall|j: int|
                0 <= j < len ==> data@[j] == if index <= j < k {
                    VOID_BYTE
                } else {
                    old(data)@[j]
                },
        decreases end - k,
    {
        data[k] = VOID_BYTE;
        k += 1;
    }
    assert(data@ =~= voided(old(data)@, index as int, chunksize as int));
}

/// What an application of Void comes to, given the parameters `configured`
/// that the configuration holds for it, the buffer `before` and `after`, and
/// the result `done`.
pub open spec fn void_outcome(
    before: Seq<u8>,
    after: Seq<u8>,
    configured: Option<MutationSpec>,
    done: Result<String, MutationError>,
) -> bool {
    &&& guarded(before, after, configured, done)
    &&& configured matches Some(spec) ==> before.len() > 0 ==> exists|
        iterations: usize,
        chunksize: usize,
    |
        spec.iterations.holds(iterations as int) && spec.chunksize.holds(chunksize as int)
            && #[trigger] performed(
            before,
            after,
            done,
            Operation::Void { chunksize },
            iterations as int,
        )
}

/// Applies Void with the parameters that the configuration holds for it: the
/// number of iterations and the chunk size are sampled once, then as many
/// windows of the active region are overwritten with `'0'`. Fails where the
/// configuration has no parameters for Void, or the buffer is empty.
pub fn void(data: &mut [u8], cfg: &Configuration) -> (done: Result<String, MutationError>)
    ensures
        header_kept(old(data)@, final(data)@),
        void_outcome(old(data)@, final(data)@, cfg.spec_of(MutationKind::Void), done),
{
    let spec = match cfg.spec(MutationKind::Void) {
        Some(spec) => spec,
        None => { return Err(MutationError::of(FailureKind::NotConfigured)); },
    };
    let iterations = spec.iterations.sample();
    let chunksize = spec.chunksize.sample();
    perform(data, &Operation::Void { chunksize }, iterations)
}

} // verus!
