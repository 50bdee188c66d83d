//! Loops: one byte is repeated at regular distances, wrapping round inside
//! the active region of the buffer.

use crate::configuration::Configuration;
use crate::configuration::Extras;
use crate::configuration::MutationSpec;
use crate::error::measured_text;
use crate::error::FailureKind;
use crate::error::MutationError;
use crate::kind::MutationKind;
use crate::mutations::active_start;
use crate::mutations::index_boundary;
use crate::mutations::operation::guarded;
use crate::mutations::operation::header_kept;
use crate::mutations::operation::Operation;
use crate::mutations::operation::perform;
use crate::mutations::operation::performed;
use crate::mutations::operation::refused;
use vstd::prelude::*;

verus! {

/// The number of repetitions that is used when `loops` are asked for: at most
/// as many as chunks of `chunksize` bytes fit into the region `[lo, hi)`.
pub open spec fn safe_loops(lo: int, hi: int, chunksize: int, loops: int) -> int {
    if loops <= (hi - lo) / chunksize {
        loops
    } else {
        (hi - lo) / chunksize
    }
}

/// Where repetition `rep` of the byte at `index` is written: `chunksize * rep`
/// bytes further on, and wrapped back into the region `[lo, hi)` where that
/// lies at or beyond `hi`.
pub open spec fn loop_target(lo: int, hi: int, index: int, chunksize: int, rep: int) -> int {
    let reach = index + chunksize * rep;
    if reach < hi {
        reach
    } else {
        reach % (hi - lo) + lo
    }
}

/// `s` after the repetitions `1..=reps` of the byte at `index`.
pub open spec fn looped(s: Seq<u8>, index: int, chunksize: int, reps: nat) -> Seq<u8>
    decreases reps,
{
    if reps == 0 {
        s
    } else {
        looped(s, index, chunksize, (reps - 1) as nat).update(
            loop_target(active_start(s.len() as int), s.len() as int, index, chunksize, reps as int),
            s[index],
        )
    }
}

/// Every repetition lands inside the region that its byte was picked from.
pub proof fn lemma_loop_target_in_region(lo: int, hi: int, index: int, chunksize: int, rep: int)
    requires
        lo <= index < hi,
        0 <= chunksize,
        0 <= rep,
    ensures
        lo <= loop_target(lo, hi, index, chunksize, rep) < hi,
{
    assert(0 <= chunksize * rep) by (nonlinear_arith)
        requires
            0 <= chunksize,
            0 <= rep,
    ;
    let reach = index + chunksize * rep;
    if reach >= hi {
        vstd::arithmetic::div_mod::lemma_mod_bound(reach, hi - lo);
    }
}

/// With the number of repetitions clamped to `safe_loops`, each destination
/// index of Loops stays within the active region `[index_min, index_max)`,
/// whatever index of that region the byte is taken from.
pub proof fn lemma_clamped_loops_stay_in_region(
    index_min: int,
    index_max: int,
    chunksize: int,
    loops: int,
    index: int,
    rep: int,
)
    requires
        index_min <= index < index_max,
        0 < chunksize,
        1 <= rep <= safe_loops(index_min, index_max, chunksize, loops),
    ensures
        index_min <= loop_target(index_min, index_max, index, chunksize, rep) < index_max,
{
    lemma_loop_target_in_region(index_min, index_max, index, chunksize, rep);
}

/// The repetitions leave the length of the buffer and the bytes below the
/// region alone, and never change the byte that is repeated.
pub proof fn lemma_looped_keeps(s: Seq<u8>, index: int, chunksize: int, reps: nat)
    requires
        active_start(s.len() as int) <= index < s.len(),
        0 <= chunksize,
    ensures
        looped(s, index, chunksize, reps).len() == s.len(),
        looped(s, index, chunksize, reps)[index] == s[index],
        forall|k: int|
            0 <= k < active_start(s.len() as int) ==> looped(s, index, chunksize, reps)[k] == s[k],
    decreases reps,
{
    if reps > 0 {
        lemma_looped_keeps(s, index, chunksize, (reps - 1) as nat);
        lemma_loop_target_in_region(
            active_start(s.len() as int),
            s.len() as int,
            index,
            chunksize,
            reps as int,
        );
    }
}

/// Computes `loop_target` for a buffer of `len` bytes without overflow.
fn target_of(len: usize, index: usize, chunksize: usize, rep: usize) -> (target: usize)
    requires
        active_start(len as int) <= index < len,
    ensures
        target == loop_target(
            active_start(len as int),
            len as int,
            index as int,
            chunksize as int,
            rep as int,
        ),
        active_start(len as int) <= target < len,
{
    let lo = len / 50;
    proof {
        lemma_loop_target_in_region(lo as int, len as int, index as int, chunksize as int, rep as int);
        assert(0 <= chunksize * rep <= 0xffff_ffff_ffff_ffff * 0xffff_ffff_ffff_ffff)
            by (nonlinear_arith)
            requires
                0 <= chunksize <= 0xffff_ffff_ffff_ffff,
                0 <= rep <= 0xffff_ffff_ffff_ffff,
        ;
    }
    let reach: u128 = index as u128 + chunksize as u128 * rep as u128;
    if reach < len as u128 {
        reach as usize
    } else {
        let span: u128 = (len - lo) as u128;
        let wrapped: u128 = reach % span;
        wrapped as usize + lo
    }
}

/// Repeats the byte at `index` `reps` times, `chunksize` bytes apart, each
/// repetition wrapped into the active region. `index` has to lie in the
/// active region; where it does not, nothing is changed and the failure is
/// reported.
pub fn loops_at(data: &mut [u8], index: usize, chunksize: usize, reps: usize) -> (done: Result<
    (),
    MutationError,
>)
    ensures
        done is Ok <==> active_start(old(data)@.len() as int) <= index < old(data)@.len(),
        done is Ok ==> final(data)@ == looped(
            old(data)@,
            index as int,
            chunksize as int,
            reps as nat,
        ),
        done matches Err(e) ==> final(data)@ == old(data)@ && e.kind == FailureKind::OutOfBounds
            && e.error@ == measured_text(
            FailureKind::OutOfBounds,
            index as int,
            chunksize as int,
            old(data)@.len() as int,
        ),
{
    let len = data.len();
    if index >= len || index < len / 50 {
        return Err(MutationError::measured(FailureKind::OutOfBounds, index, chunksize, len));
    }
    let byte = data[index];
    let mut rep: usize = 0;
    while rep < reps
        invariant
            rep <= reps,
            len == data@.len(),
            len == old(data)@.len(),
            active_start(len as int) <= index < len,
            byte == old(data)@[index as int],
            data@ == looped(old(data)@, index as int, chunksize as int, rep as nat),
        decreases reps - rep,
    {
        rep += 1;
        let target = target_of(len, index, chunksize, rep);
        data[target] = byte;
    }
    Ok(())
}

/// What an application of Loops comes to, given the parameters `configured`
/// that the configuration holds for it, the buffer `before` and `after`, and
/// the result `done`.
pub open spec fn loops_outcome(
    before: Seq<u8>,
    after: Seq<u8>,
    configured: Option<MutationSpec>,
    done: Result<String, MutationError>,
) -> bool {
    &&& guarded(before, after, configured, done)
    &&& configured matches Some(spec) ==> before.len() > 0 ==> {
        ||| spec.chunksize.holds(0) && refused(before, after, done, FailureKind::EmptyChunk)
        ||| exists|iterations: usize, chunksize: usize, loops: usize|
            spec.iterations.holds(iterations as int) && spec.chunksize.holds(chunksize as int)
                && spec.extras->loops.holds(loops as int) && chunksize > 0 && #[trigger] performed(
                before,
                after,
                done,
                Operation::Loops {
                    chunksize,
                    loops: safe_loops(
                        active_start(before.len() as int),
                        before.len() as int,
                        chunksize as int,
                        loops as int,
                    ) as usize,
                },
                iterations as int,
            )
    }
}

/// Applies Loops with the parameters that the configuration holds for it:
/// the number of iterations, the chunk size and the number of repetitions are
/// sampled once, the repetitions are clamped to `safe_loops`, and then a byte
/// of the active region is repeated, as many times as there are iterations.
/// Fails where the configuration has no parameters for Loops, the buffer is
/// empty, or the sampled chunk size is zero.
pub fn loops(data: &mut [u8], cfg: &Configuration) -> (done: Result<String, MutationError>)
    ensures
        header_kept(old(data)@, final(data)@),
        loops_outcome(old(data)@, final(data)@, cfg.spec_of(MutationKind::Loops), done),
{
    let spec = match cfg.spec(MutationKind::Loops) {
        Some(spec) => spec,
        None => { return Err(MutationError::of(FailureKind::NotConfigured)); },
    };
    let iterations = spec.iterations.sample();
    let chunksize = spec.chunksize.sample();
    let loops = match spec.extras {
        Extras::Loops { loops } => loops.sample(),
        _ => { return Err(MutationError::of(FailureKind::NotConfigured)); },
    };
    if data.len() == 0 {
        return Err(MutationError::of(FailureKind::EmptyBuffer));
    }
    if chunksize == 0 {
        return Err(MutationError::of(FailureKind::EmptyChunk));
    }
    let (index_min, index_max) = index_boundary(data);
    let room = (index_max - index_min) / chunksize;
    let clamped = if loops <= room { loops } else { room };
    let ghost before = data@;
    let done = perform(data, &Operation::Loops { chunksize, loops: clamped }, iterations);
    proof {
        let wanted = safe_loops(
            active_start(before.len() as int),
            before.len() as int,
            chunksize as int,
            loops as int,
        );
        assert(clamped == wanted);
        assert(performed(
            before,
            data@,
            done,
            Operation::Loops { chunksize, loops: wanted as usize },
            iterations as int,
        ));
    }
    done
}

} // verus!
