//! Compress: a window is rebuilt from every n-th of its own bytes.

use crate::configuration::Configuration;
use crate::configuration::Extras;
use crate::configuration::MutationSpec;
use crate::error::FailureKind;
use crate::error::MutationError;
use crate::kind::MutationKind;
use crate::mutations::clamp_end;
use crate::mutations::operation::guarded;
use crate::mutations::operation::header_kept;
use crate::mutations::operation::Operation;
use crate::mutations::operation::perform;
use crate::mutations::operation::performed;
use crate::mutations::window_end;
use crate::mutations::window_start;
use vstd::prelude::*;

verus! {

/// `s` with the window of `chunksize` bytes at `index` rebuilt: the byte at
/// offset `d` becomes the byte that stood at offset `d * compress_by`, as long
/// as that offset lies in the window; the bytes after that stay.
pub open spec fn compressed(s: Seq<u8>, index: int, chunksize: int, compress_by: int) -> Seq<u8> {
    let start = window_start(s.len() as int, index);
    let end = window_end(s.len() as int, index, chunksize);
    Seq::new(
        s.len(),
        |k: int|
            if start <= k < end && (k - start) * compress_by < end - start {
                s[start + (k - start) * compress_by]
            } else {
                s[k]
            },
    )
}

/// Sources grow with their offsets.
proof fn lemma_sources_grow(near: int, far: int, compress_by: int)
    requires
        0 <= near <= far,
        0 <= compress_by,
    ensures
        near * compress_by <= far * compress_by,
{
    assert(near * compress_by <= far * compress_by) by (nonlinear_arith)
        requires
            0 <= near <= far,
            0 <= compress_by,
    ;
}

/// Rebuilds the window of `chunksize` bytes at `index`, cut off at the end of
/// the buffer, from every `compress_by`-th of its bytes.
pub fn compress_at(data: &mut [u8], index: usize, chunksize: usize, compress_by: usize)
    ensures
        final(data)@ == compressed(
            old(data)@,
            index as int,
            chunksize as int,
            compress_by as int,
        ),
{
    let len = data.len();
    if index >= len {
        assert(data@ =~= compressed(data@, index as int, chunksize as int, compress_by as int));
        return;
    }
    let end = clamp_end(len, index, chunksize);
    let width = end - index;
    let mut copy: Vec<u8> = Vec::new();
    let mut k: usize = index;
    while k < end
        invariant
            index <= k <= end <= len,
            len == data@.len(),
            copy@ == data@.subrange(index as int, k as int),
        decreases end - k,
    {
        copy.push(data[k]);
        proof {
            assert(copy@ =~= data@.subrange(index as int, k + 1));
        }
        k += 1;
    }
    let mut done: usize = 0;
    let mut source: usize = 0;
    proof {
        assert(0 * compress_by == 0) by (nonlinear_arith);
    }
    while done < width
        invariant_except_break
            done < width ==> source < width,
            source == done * compress_by,
        invariant
            done <= width,
            index + width == end,
            end <= len,
            width == copy@.len(),
            len == data@.len(),
            len == old(data)@.len(),
            copy@ == old(data)@.subrange(index as int, end as int),
            forall|j: int|
                0 <= j < len ==> data@[j] == if index <= j < index + done {
                    old(data)@[index + (j - index) * compress_by]
                } else {
                    old(data)@[j]
                },
            done > 0 ==> (done - 1) * compress_by < width,
        ensures
            done < width ==> done * compress_by >= width,
        decreases width - done,
    {
        data[index + done] = copy[source];
        done += 1;
        proof {
            assert(done * compress_by == (done - 1) * compress_by + compress_by)
                by (nonlinear_arith);
        }
        if compress_by >= width - source {
            break;
        }
        source += compress_by;
    }
    proof {
        let start = window_start(len as int, index as int);
        let goal = compressed(old(data)@, index as int, chunksize as int, compress_by as int);
        assert forall|j: int| 0 <= j < len implies data@[j] == goal[j] by {
            if index + done <= j < end {
                lemma_sources_grow(done as int, j - index, compress_by as int);
            } else if index <= j < index + done {
                lemma_sources_grow(j - index, done - 1, compress_by as int);
            }
        }
        assert(data@ =~= goal);
    }
}

/// What an application of Compress comes to, given the parameters `configured`
/// that the configuration holds for it, the buffer `before` and `after`, and
/// the result `done`.
pub open spec fn compress_outcome(
    before: Seq<u8>,
    after: Seq<u8>,
    configured: Option<MutationSpec>,
    done: Result<String, MutationError>,
) -> bool {
    &&& guarded(before, after, configured, done)
    &&& configured matches Some(spec) ==> before.len() > 0 ==> exists|
        iterations: usize,
        chunksize: usize,
        compress_by: usize,
    |
        spec.iterations.holds(iterations as int) && spec.chunksize.holds(chunksize as int)
            && spec.extras->compress_by.holds(compress_by as int) && #[trigger] performed(
            before,
            after,
            done,
            Operation::Compress { chunksize, compress_by },
            iterations as int,
        )
}

/// Applies Compress with the parameters that the configuration holds for it:
/// the number of iterations, the chunk size and the distance are sampled
/// once, then as many windows of the active region are rebuilt. Fails where
/// the configuration has no parameters for Compress, or the buffer is empty.
pub fn compress(data: &mut [u8], cfg: &Configuration) -> (done: Result<String, MutationError>)
    ensures
        header_kept(old(data)@, final(data)@),
        compress_outcome(old(data)@, final(data)@, cfg.spec_of(MutationKind::Compress), done),
{
    let spec = match cfg.spec(MutationKind::Compress) {
        Some(spec) => spec,
        None => { return Err(MutationError::of(FailureKind::NotConfigured)); },
    };
    let iterations = spec.iterations.sample();
    let chunksize = spec.chunksize.sample();
    let compress_by = match spec.extras {
        Extras::Compress { compress_by } => compress_by.sample(),
        _ => { return Err(MutationError::of(FailureKind::NotConfigured)); },
    };
    perform(data, &Operation::Compress { chunksize, compress_by }, iterations)
}

} // verus!
