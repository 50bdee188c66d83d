//! Increase: a fixed amount is added to the bytes of a window.

use crate::configuration::Configuration;
use crate::configuration::Extras;
use crate::configuration::MutationSpec;
use crate::error::FailureKind;
use crate::error::MutationError;
use crate::kind::MutationKind;
use crate::mutations::clamp_end;
use crate::mutations::operation::guarded;
use crate::mutations::operation::header_kept;
use crate::mutations::operation::Operation;
use crate::mutations::operation::perform;
use crate::mutations::operation::performed;
use crate::mutations::window_end;
use crate::mutations::window_start;
use vstd::arithmetic::div_mod::lemma_add_mod_noop_right;
use vstd::prelude::*;

verus! {

/// A byte with `increase_by` added, modulo 256: the sum wraps round and is
/// never cut off at 255.
pub open spec fn raised(byte: u8, increase_by: int) -> u8 {
    ((byte + increase_by) % 256) as u8
}

/// A raised byte is the sum modulo 256: it is again a byte, and a sum beyond
/// 255 starts again at 0 instead of staying at 255.
pub proof fn lemma_raised_wraps(byte: u8, increase_by: int)
    requires
        0 <= increase_by,
    ensures
        0 <= raised(byte, increase_by) < 256,
        raised(byte, increase_by) == (byte + increase_by) % 256,
        byte + increase_by < 256 ==> raised(byte, increase_by) == byte + increase_by,
        256 <= byte + increase_by < 512 ==> raised(byte, increase_by) == byte + increase_by - 256,
{
}

/// `s` with each byte of the window of `chunksize` bytes at `index` raised by
/// `increase_by`.
pub open spec fn increased(s: Seq<u8>, index: int, chunksize: int, increase_by: int) -> Seq<u8> {
    let start = window_start(s.len() as int, index);
    let end = window_end(s.len() as int, index, chunksize);
    Seq::new(s.len(), |k: int| if start <= k < end { raised(s[k], increase_by) } else { s[k] })
}

/// Adds `increase_by`, modulo 256, to each byte of the window of `chunksize`
/// bytes at `index`, cut off at the end of the buffer.
pub fn increase_at(data: &mut [u8], index: usize, chunksize: usize, increase_by: usize)
    ensures
        final(data)@ == increased(
            old(data)@,
            index as int,
            chunksize as int,
            increase_by as int,
        ),
{
    let len = data.len();
    if index >= len {
        assert(data@ =~= increased(data@, index as int, chunksize as int, increase_by as int));
        return;
    }
    let end = clamp_end(len, index, chunksize);
    let amount: usize = increase_by % 256;
    let mut k: usize = index;
    while k < end
        invariant
            index <= k <= end <= len,
            len == data@.len(),
            len == old(data)@.len(),
            amount == increase_by % 256,
            forall|j: int|
                0 <= j < len ==> data@[j] == if index <= j < k {
                    raised(old(data)@[j], increase_by as int)
                } else {
                    old(data)@[j]
                },
        decreases end - k,
    {
        proof {
            lemma_add_mod_noop_right(old(data)@[k as int] as int, increase_by as int, 256);
        }
        data[k] = ((data[k] as usize + amount) % 256) as u8;
        k += 1;
    }
    assert(data@ =~= increased(old(data)@, index as int, chunksize as int, increase_by as int));
}

/// What an application of Increase comes to, given the parameters `configured`
/// that the configuration holds for it, the buffer `before` and `after`, and
/// the result `done`.
pub open spec fn increase_outcome(
    before: Seq<u8>,
    after: Seq<u8>,
    configured: Option<MutationSpec>,
    done: Result<String, MutationError>,
) -> bool {
    &&& guarded(before, after, configured, done)
    &&& configured matches Some(spec) ==> before.len() > 0 ==> exists|
        iterations: usize,
        chunksize: usize,
        increase_by: usize,
    |
        spec.iterations.holds(iterations as int) && spec.chunksize.holds(chunksize as int)
            && spec.extras->increase_by.holds(increase_by as int) && #[trigger] performed(
            before,
            after,
            done,
            Operation::Increase { chunksize, increase_by },
            iterations as int,
        )
}

/// Applies Increase with the parameters that the configuration holds for it:
/// the number of iterations, the chunk size and the amount are sampled once,
/// then the amount is added to the bytes of as many windows of the active
/// region. Fails where the configuration has no parameters for Increase, or
/// the buffer is empty.
pub fn increase(data: &mut [u8], cfg: &Configuration) -> (done: Result<String, MutationError>)
    ensures
        header_kept(old(data)@, final(data)@),
        increase_outcome(old(data)@, final(data)@, cfg.spec_of(MutationKind::Increase), done),
{
    let spec = match cfg.spec(MutationKind::Increase) {
        Some(spec) => spec,
        None => { return Err(MutationError::of(FailureKind::NotConfigured)); },
    };
    let iterations = spec.iterations.sample();
    let chunksize = spec.chunksize.sample();
    let increase_by = match spec.extras {
        Extras::Increase { increase_by } => increase_by.sample(),
        _ => { return Err(MutationError::of(FailureKind::NotConfigured)); },
    };
    perform(data, &Operation::Increase { chunksize, increase_by }, iterations)
}

} // verus!
