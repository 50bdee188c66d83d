//! The mutation algorithms and what they share: the active region of a
//! buffer and the clamping of a window to the buffer's end.

use vstd::prelude::*;

pub use crate::error::MutationError;
pub use crate::mutations::chaos::chaos;
pub use crate::mutations::compress::compress;
pub use crate::mutations::gradient::gradient;
pub use crate::mutations::increase::increase;
pub use crate::mutations::loops::loops;
pub use crate::mutations::multiply::multiply;
pub use crate::mutations::reverse::reverse;
pub use crate::mutations::shift::shift;
pub use crate::mutations::shuffle::shuffle;
pub use crate::mutations::swap::swap;
pub use crate::mutations::void::void;

pub mod chaos;
pub mod compress;
pub mod gradient;
pub mod increase;
pub mod loops;
pub mod multiply;
pub mod operation;
pub mod reverse;
pub mod shift;
pub mod shuffle;
pub mod swap;
pub mod void;

verus! {

/// First index of the active region of a buffer of `len` bytes: the first
/// fiftieth of a buffer often holds a header and is never picked as the start
/// of a window.
pub open spec fn active_start(len: int) -> int {
    len / 50
}

/// The active region `[len / 50, len)` of `data`.
pub fn index_boundary(data: &[u8]) -> (bounds: (usize, usize))
    ensures
        bounds.0 == active_start(data@.len() as int),
        bounds.1 == data@.len(),
{
    (data.len() / 50, data.len())
}

/// Start of the window that is asked for at `index` in a buffer of `len`
/// bytes: `index`, or `len` where `index` lies beyond the buffer.
pub open spec fn window_start(len: int, index: int) -> int {
    if index > len {
        len
    } else {
        index
    }
}

/// End of the window of `chunksize` bytes that starts at `index`, clamped to
/// a buffer of `len` bytes.
pub open spec fn window_end(len: int, index: int, chunksize: int) -> int {
    if index + chunksize > len {
        len
    } else {
        index + chunksize
    }
}

/// `a` and `b` have one length and agree at every index outside `[lo, hi)`.
pub open spec fn same_outside(a: Seq<u8>, b: Seq<u8>, lo: int, hi: int) -> bool {
    &&& a.len() == b.len()
    &&& forall|k: int| 0 <= k < a.len() && !(lo <= k < hi) ==> a[k] == b[k]
}

/// Computes `window_end` without overflow.
pub fn clamp_end(len: usize, index: usize, chunksize: usize) -> (end: usize)
    ensures
        end == window_end(len as int, index as int, chunksize as int),
        end <= len,
        index <= len ==> index <= end,
{
    if index >= len || chunksize > len - index {
        len
    } else {
        index + chunksize
    }
}

} // verus!
