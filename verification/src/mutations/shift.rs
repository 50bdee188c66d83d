//! Shift: a window is moved to another place of the active region, and the
//! bytes between close the gap.

use crate::configuration::Configuration;
use crate::configuration::MutationSpec;
use crate::error::measured_text;
use crate::error::FailureKind;
use crate::error::MutationError;
use crate::kind::MutationKind;
use crate::mutations::active_start;
use crate::mutations::clamp_end;
use crate::mutations::index_boundary;
use crate::mutations::operation::describe;
use crate::mutations::operation::guarded;
use crate::mutations::operation::header_kept;
use crate::mutations::operation::lemma_walk_extends;
use crate::mutations::operation::refused_at;
use crate::mutations::operation::Scramble;
use crate::mutations::operation::scrambled;
use crate::mutations::operation::walk;
use crate::mutations::window_end;
use crate::random::random_below;
use crate::random::thread_source;
use moveslice::Moveslice;
use vstd::prelude::*;

verus! {

/// The error of `moveslice`. Nothing of it is read.
#[verifier::external_type_specification]
#[verifier::external_body]
pub struct ExMoveError(moveslice::Error);

/// `s` with the chunk `[start, end)` taken out and put back in so that it
/// starts at `destination`; the bytes that lay between move the other way.
pub open spec fn relocated(s: Seq<u8>, start: int, end: int, destination: int) -> Seq<u8> {
    let chunk = s.subrange(start, end);
    let rest = s.subrange(0, start) + s.subrange(end, s.len() as int);
    rest.subrange(0, destination) + chunk + rest.subrange(destination, rest.len() as int)
}

/// `moveslice::Moveslice::try_moveslice` with the bounds `start..end`. The
/// chunk is moved where it lies in the slice and fits at `destination`;
/// otherwise the slice stays as it is and an error comes back. The outside
/// function computes `end - start` and `destination` plus that difference,
/// which must not overflow.
#[verifier::external_body]
pub(crate) fn move_chunk(region: &mut [u8], start: usize, end: usize, destination: usize) -> (moved:
    Result<(), moveslice::Error>)
    requires
        start <= end,
        destination + (end - start) <= usize::MAX,
    ensures
        moved is Ok <==> end <= old(region)@.len() && destination + (end - start) <= old(
            region,
        )@.len(),
        moved is Ok ==> final(region)@ == relocated(
            old(region)@,
            start as int,
            end as int,
            destination as int,
        ),
        moved is Err ==> final(region)@ == old(region)@,
{
    let mut region = region;
    region.try_moveslice(start..end, destination)
}

/// Whether the chunk of `chunksize` bytes at `index`, cut off at the end of a
/// region of `width` bytes, can be moved to `destination` inside the region.
pub open spec fn move_fits(width: int, index: int, destination: int, chunksize: int) -> bool {
    index <= width && destination + (window_end(width, index, chunksize) - index) <= width
}

/// `s` with the chunk of `chunksize` bytes at `index` of its active region
/// moved to `destination` of that region. Both are counted from the start of
/// the region.
pub open spec fn shifted(s: Seq<u8>, index: int, destination: int, chunksize: int) -> Seq<u8> {
    let lo = active_start(s.len() as int);
    let region = s.subrange(lo, s.len() as int);
    s.subrange(0, lo) + relocated(
        region,
        index,
        window_end(region.len() as int, index, chunksize),
        destination,
    )
}

/// A relocation keeps the length of the sequence.
pub proof fn lemma_relocated_len(s: Seq<u8>, start: int, end: int, destination: int)
    requires
        0 <= start <= end <= s.len(),
        0 <= destination,
        destination + (end - start) <= s.len(),
    ensures
        relocated(s, start, end, destination).len() == s.len(),
{
}

/// A relocation rearranges the sequence: it holds the same bytes, each as
/// often as before.
pub proof fn lemma_relocated_is_permutation(s: Seq<u8>, start: int, end: int, destination: int)
    requires
        0 <= start <= end <= s.len(),
        0 <= destination,
        destination + (end - start) <= s.len(),
    ensures
        relocated(s, start, end, destination).to_multiset() == s.to_multiset(),
{
    let chunk = s.subrange(start, end);
    let front = s.subrange(0, start);
    let back = s.subrange(end, s.len() as int);
    let rest = front + back;
    let left = rest.subrange(0, destination);
    let right = rest.subrange(destination, rest.len() as int);
    assert(s =~= front + chunk + back);
    assert(rest =~= left + right);
    assert(relocated(s, start, end, destination) =~= left + chunk + right);
    vstd::seq_lib::lemma_multiset_commutative(front, chunk);
    vstd::seq_lib::lemma_multiset_commutative(front + chunk, back);
    vstd::seq_lib::lemma_multiset_commutative(front, back);
    vstd::seq_lib::lemma_multiset_commutative(left, right);
    vstd::seq_lib::lemma_multiset_commutative(left, chunk);
    vstd::seq_lib::lemma_multiset_commutative(left + chunk, right);
    broadcast use vstd::multiset::group_multiset_axioms;

    let moved = left + chunk + right;
    assert(moved.to_multiset() =~= left.to_multiset().add(chunk.to_multiset()).add(
        right.to_multiset(),
    ));
    assert(s.to_multiset() =~= front.to_multiset().add(chunk.to_multiset()).add(
        back.to_multiset(),
    ));
    assert(rest.to_multiset() =~= front.to_multiset().add(back.to_multiset()));
    assert(rest.to_multiset() =~= left.to_multiset().add(right.to_multiset()));
    assert forall|v: u8| moved.to_multiset().count(v) == s.to_multiset().count(v) by {
        assert(front.to_multiset().add(back.to_multiset()).count(v) == left.to_multiset().add(
            right.to_multiset(),
        ).count(v));
    }
    assert(moved.to_multiset() =~= s.to_multiset());
}

/// A shift rearranges the buffer: it holds the same bytes, each as often as
/// before.
pub proof fn lemma_shifted_is_permutation(s: Seq<u8>, index: int, destination: int, chunksize: int)
    requires
        0 <= index,
        0 <= destination,
        0 <= chunksize,
        move_fits(s.len() - active_start(s.len() as int), index, destination, chunksize),
    ensures
        shifted(s, index, destination, chunksize).to_multiset() == s.to_multiset(),
{
    let lo = active_start(s.len() as int);
    let region = s.subrange(lo, s.len() as int);
    let end = window_end(region.len() as int, index, chunksize);
    let moved = relocated(region, index, end, destination);
    lemma_relocated_is_permutation(region, index, end, destination);
    assert(s =~= s.subrange(0, lo) + region);
    vstd::seq_lib::lemma_multiset_commutative(s.subrange(0, lo), region);
    vstd::seq_lib::lemma_multiset_commutative(s.subrange(0, lo), moved);
}

/// Moves the chunk of `chunksize` bytes at `index` of the active region, cut
/// off at the end of the buffer, to `destination` of that region. Where the
/// chunk does not fit there, nothing is changed and the failure is reported.
pub fn shift_at(data: &mut [u8], index: usize, destination: usize, chunksize: usize) -> (done:
    Result<(), MutationError>)
    ensures
        done is Ok <==> move_fits(
            old(data)@.len() - active_start(old(data)@.len() as int),
            index as int,
            destination as int,
            chunksize as int,
        ),
        done is Ok ==> final(data)@ == shifted(
            old(data)@,
            index as int,
            destination as int,
            chunksize as int,
        ),
        done matches Err(e) ==> final(data)@ == old(data)@ && e.kind == FailureKind::OutOfBounds
            && e.error@ == measured_text(
            FailureKind::OutOfBounds,
            index as int,
            chunksize as int,
            old(data)@.len() as int,
        ),
        final(data)@.len() == old(data)@.len(),
{
    let len = data.len();
    let lo = len / 50;
    let width = len - lo;
    if index > width {
        return Err(MutationError::measured(FailureKind::OutOfBounds, index, chunksize, len));
    }
    let end = clamp_end(width, index, chunksize);
    if destination > width || end - index > width - destination {
        return Err(MutationError::measured(FailureKind::OutOfBounds, index, chunksize, len));
    }
    let ghost before = data@;
    let (head, region) = data.split_at_mut(lo);
    let ghost picked = region@;
    let moved = move_chunk(region, index, end, destination);
    proof {
        assert(picked =~= before.subrange(lo as int, len as int));
        assert(head@ =~= before.subrange(0, lo as int));
        lemma_relocated_len(picked, index as int, end as int, destination as int);
    }
    match moved {
        Ok(()) => Ok(()),
        Err(_) => Err(MutationError::measured(FailureKind::OutOfBounds, index, chunksize, len)),
    }
}

/// Whether `after` may come from `before` by one step of Shift: a chunk of
/// the active region is moved to a place of the region where a whole chunk
/// of `chunksize` bytes fits.
pub open spec fn shift_step(before: Seq<u8>, after: Seq<u8>, chunksize: int) -> bool {
    let width = before.len() - active_start(before.len() as int);
    exists|index: int, destination: int|
        0 <= index < width && 0 <= destination < width - chunksize && after
            == #[trigger] shifted(before, index, destination, chunksize)
}

/// What an application of Shift comes to, given the parameters `configured`
/// that the configuration holds for it, the buffer `before` and `after`, and
/// the result `done`.
pub open spec fn shift_outcome(
    before: Seq<u8>,
    after: Seq<u8>,
    configured: Option<MutationSpec>,
    done: Result<String, MutationError>,
) -> bool {
    let width = before.len() - active_start(before.len() as int);
    &&& after.to_multiset() == before.to_multiset()
    &&& guarded(before, after, configured, done)
    &&& configured matches Some(spec) ==> before.len() > 0 ==> {
        ||| exists|chunksize: usize|
            spec.chunksize.holds(chunksize as int) && chunksize >= width && #[trigger] refused_at(
                before,
                after,
                done,
                FailureKind::ChunkTooLarge,
                active_start(before.len() as int),
                chunksize as int,
            )
        ||| exists|iterations: usize, chunksize: usize|
            spec.iterations.holds(iterations as int) && spec.chunksize.holds(chunksize as int)
                && chunksize < width && #[trigger] scrambled(
                before,
                after,
                done,
                Scramble::Shift { chunksize },
                iterations as int,
            )
    }
}

/// Applies Shift with the parameters that the configuration holds for it: the
/// number of iterations and the chunk size are sampled once; then, as many
/// times, a chunk of the active region is moved to another place of the
/// region where it fits. The buffer keeps its bytes, each as often as
/// before. Fails where the configuration has no parameters for Shift, the
/// buffer is empty, or the sampled chunk size is not smaller than the active
/// region.
pub fn shift(data: &mut [u8], cfg: &Configuration) -> (done: Result<String, MutationError>)
    ensures
        header_kept(old(data)@, final(data)@),
        shift_outcome(old(data)@, final(data)@, cfg.spec_of(MutationKind::Shift), done),
{
    let spec = match cfg.spec(MutationKind::Shift) {
        Some(spec) => spec,
        None => { return Err(MutationError::of(FailureKind::NotConfigured)); },
    };
    let iterations = spec.iterations.sample();
    let chunksize = spec.chunksize.sample();
    if data.len() == 0 {
        return Err(MutationError::of(FailureKind::EmptyBuffer));
    }
    let (lo, hi) = index_boundary(data);
    let width = hi - lo;
    if chunksize >= width {
        let done = Err(MutationError::measured(FailureKind::ChunkTooLarge, lo, chunksize, hi));
        assert(refused_at(
            old(data)@,
            data@,
            done,
            FailureKind::ChunkTooLarge,
            lo as int,
            chunksize as int,
        ));
        return done;
    }
    let ghost how = Scramble::Shift { chunksize };
    let ghost mut states: Seq<Seq<u8>> = seq![data@];
    let mut rng = thread_source();
    let mut round: usize = 0;
    while round < iterations
        invariant
            round <= iterations,
            lo == active_start(old(data)@.len() as int),
            hi == old(data)@.len(),
            lo < hi,
            header_kept(old(data)@, data@),
            walk(states, how, round as int),
            states[0] == old(data)@,
            states[round as int] == data@,
            how == (Scramble::Shift { chunksize }),
            width == hi - lo,
            chunksize < width,
            data@.to_multiset() == old(data)@.to_multiset(),
        decreases iterations - round,
    {
        let index = random_below(&mut rng, 0, width);
        let destination = random_below(&mut rng, 0, width - chunksize);
        let ghost found = data@;
        proof {
            lemma_shifted_is_permutation(found, index as int, destination as int, chunksize as int);
            let region = found.subrange(lo as int, hi as int);
            lemma_relocated_len(
                region,
                index as int,
                window_end(width as int, index as int, chunksize as int),
                destination as int,
            );
        }
        let _ = shift_at(data, index, destination, chunksize);
        proof {
            assert(data@ == shifted(found, index as int, destination as int, chunksize as int));
            assert(shift_step(found, data@, chunksize as int));
            lemma_walk_extends(states, how, round as int, data@);
            states = states.push(data@);
        }
        round += 1;
    }
    proof {
        reveal_strlit("");
        assert(""@ =~= Seq::<char>::empty());
    }
    let done = Ok(describe(MutationKind::Shift, iterations, chunksize, ""));
    assert(scrambled(old(data)@, data@, done, how, iterations as int));
    done
}

} // verus!
