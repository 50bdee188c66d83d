//! Shuffle: the bytes of a window are put in a random order.

use crate::configuration::Configuration;
use crate::configuration::MutationSpec;
use crate::error::FailureKind;
use crate::error::MutationError;
use crate::kind::MutationKind;
use crate::mutations::active_start;
use crate::mutations::clamp_end;
use crate::mutations::index_boundary;
use crate::mutations::operation::describe;
use crate::mutations::operation::guarded;
use crate::mutations::operation::header_kept;
use crate::mutations::operation::lemma_walk_extends;
use crate::mutations::operation::Scramble;
use crate::mutations::operation::scrambled;
use crate::mutations::operation::walk;
use crate::mutations::same_outside;
use crate::mutations::window_end;
use crate::mutations::window_start;
use crate::random::random_below;
use crate::random::thread_source;
use crate::random::shuffle_slice;
use vstd::prelude::*;

verus! {

/// Shuffles the window of `chunksize` bytes at `index`, cut off at the end of
/// the buffer. The bytes outside the window stay; the window keeps its bytes,
/// each as often as before, in an order that the random source decides.
pub fn shuffle_at(data: &mut [u8], index: usize, chunksize: usize)
    ensures
        same_outside(
            old(data)@,
            final(data)@,
            window_start(old(data)@.len() as int, index as int),
            window_end(old(data)@.len() as int, index as int, chunksize as int),
        ),
        final(data)@.subrange(
            window_start(old(data)@.len() as int, index as int),
            window_end(old(data)@.len() as int, index as int, chunksize as int),
        ).to_multiset() == old(data)@.subrange(
            window_start(old(data)@.len() as int, index as int),
            window_end(old(data)@.len() as int, index as int, chunksize as int),
        ).to_multiset(),
        final(data)@.to_multiset() == old(data)@.to_multiset(),
{
    let len = data.len();
    if index >= len {
        return;
    }
    let end = clamp_end(len, index, chunksize);
    let ghost before = data@;
    let (head, rest) = data.split_at_mut(index);
    let (window, tail) = rest.split_at_mut(end - index);
    let ghost picked = window@;
    let mut rng = thread_source();
    shuffle_slice(window, &mut rng);
    proof {
        vstd::seq_lib::to_multiset_len(window@);
        vstd::seq_lib::to_multiset_len(picked);
        assert(picked =~= before.subrange(index as int, end as int));
        assert(data@ =~= head@ + (window@ + tail@));
        assert(data@.subrange(index as int, end as int) =~= window@);
        assert(before =~= head@ + (picked + tail@));
        vstd::seq_lib::lemma_multiset_commutative(head@, window@ + tail@);
        vstd::seq_lib::lemma_multiset_commutative(window@, tail@);
        vstd::seq_lib::lemma_multiset_commutative(head@, picked + tail@);
        vstd::seq_lib::lemma_multiset_commutative(picked, tail@);
    }
}

/// Whether `after` may come from `before` by one step of Shuffle: a window
/// of `chunksize` bytes that starts in the active region keeps its bytes, in
/// any order, and the rest of the buffer stays.
pub open spec fn shuffle_step(before: Seq<u8>, after: Seq<u8>, chunksize: int) -> bool {
    let len = before.len() as int;
    exists|index: int|
        active_start(len) <= index < len && #[trigger] same_outside(
            before,
            after,
            index,
            window_end(len, index, chunksize),
        ) && after.subrange(index, window_end(len, index, chunksize)).to_multiset()
            == before.subrange(index, window_end(len, index, chunksize)).to_multiset()
}

/// What an application of Shuffle comes to, given the parameters
/// `configured` that the configuration holds for it, the buffer `before` and
/// `after`, and the result `done`.
pub open spec fn shuffle_outcome(
    before: Seq<u8>,
    after: Seq<u8>,
    configured: Option<MutationSpec>,
    done: Result<String, MutationError>,
) -> bool {
    &&& after.to_multiset() == before.to_multiset()
    &&& guarded(before, after, configured, done)
    &&& configured matches Some(spec) ==> before.len() > 0 ==> exists|
        iterations: usize,
        chunksize: usize,
    |
        spec.iterations.holds(iterations as int) && spec.chunksize.holds(chunksize as int)
            && #[trigger] scrambled(
            before,
            after,
            done,
            Scramble::Shuffle { chunksize },
            iterations as int,
        )
}

/// Applies Shuffle with the parameters that the configuration holds for it:
/// the number of iterations and the chunk size are sampled once, then as many
/// windows of the active region are shuffled. The buffer keeps its bytes,
/// each as often as before. Fails where the configuration has no parameters
/// for Shuffle, or the buffer is empty.
pub fn shuffle(data: &mut [u8], cfg: &Configuration) -> (done: Result<String, MutationError>)
    ensures
        header_kept(old(data)@, final(data)@),
        shuffle_outcome(old(data)@, final(data)@, cfg.spec_of(MutationKind::Shuffle), done),
{
    let spec = match cfg.spec(MutationKind::Shuffle) {
        Some(spec) => spec,
        None => { return Err(MutationError::of(FailureKind::NotConfigured)); },
    };
    let iterations = spec.iterations.sample();
    let chunksize = spec.chunksize.sample();
    if data.len() == 0 {
        return Err(MutationError::of(FailureKind::EmptyBuffer));
    }
    let (lo, hi) = index_boundary(data);
    let ghost how = Scramble::Shuffle { chunksize };
    let ghost mut states: Seq<Seq<u8>> = seq![data@];
    let mut rng = thread_source();
    let mut round: usize = 0;
    while round < iterations
        invariant
            round <= iterations,
            lo == active_start(old(data)@.len() as int),
            hi == old(data)@.len(),
            lo < hi,
            header_kept(old(data)@, data@),
            walk(states, how, round as int),
            states[0] == old(data)@,
            states[round as int] == data@,
            how == (Scramble::Shuffle { chunksize }),
            data@.to_multiset() == old(data)@.to_multiset(),
        decreases iterations - round,
    {
        let index = random_below(&mut rng, lo, hi);
        let ghost found = data@;
        shuffle_at(data, index, chunksize);
        proof {
            assert(same_outside(
                found,
                data@,
                index as int,
                window_end(found.len() as int, index as int, chunksize as int),
            ));
            assert(shuffle_step(found, data@, chunksize as int));
            lemma_walk_extends(states, how, round as int, data@);
            states = states.push(data@);
        }
        round += 1;
    }
    proof {
        reveal_strlit("");
        assert(""@ =~= Seq::<char>::empty());
    }
    let done = Ok(describe(MutationKind::Shuffle, iterations, chunksize, ""));
    assert(scrambled(old(data)@, data@, done, how, iterations as int));
    done
}

} // verus!
