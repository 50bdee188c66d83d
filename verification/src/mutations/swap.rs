//! Swap: two windows of one size, one after the other, exchange their bytes.

use crate::configuration::Configuration;
use crate::configuration::MutationSpec;
use crate::error::measured_text;
use crate::error::FailureKind;
use crate::error::MutationError;
use crate::kind::MutationKind;
use crate::mutations::active_start;
use crate::mutations::index_boundary;
use crate::mutations::operation::describe;
use crate::mutations::operation::guarded;
use crate::mutations::operation::header_kept;
use crate::mutations::operation::lemma_walk_extends;
use crate::mutations::operation::refused_at;
use crate::mutations::operation::Scramble;
use crate::mutations::operation::scrambled;
use crate::mutations::operation::walk;
use crate::random::random_below;
use crate::random::thread_source;
use vstd::prelude::*;

verus! {

/// Whether the windows of `chunksize` bytes at `first` and at `second` lie in
/// a buffer of `len` bytes, the first wholly before the second.
pub open spec fn windows_fit(len: int, first: int, second: int, chunksize: int) -> bool {
    first + chunksize <= second && second + chunksize <= len
}

/// `s` with the windows of `chunksize` bytes at `first` and at `second`
/// exchanged, byte for byte.
pub open spec fn exchanged(s: Seq<u8>, first: int, second: int, chunksize: int) -> Seq<u8> {
    Seq::new(
        s.len(),
        |k: int|
            if first <= k < first + chunksize {
                s[k - first + second]
            } else if second <= k < second + chunksize {
                s[k - second + first]
            } else {
                s[k]
            },
    )
}

/// An exchange of two windows rearranges the buffer: each window ends up
/// holding what the other held, and the buffer as a whole holds the same
/// bytes, each as often as before.
pub proof fn lemma_exchanged_is_permutation(s: Seq<u8>, first: int, second: int, chunksize: int)
    requires
        0 <= first,
        0 <= chunksize,
        windows_fit(s.len() as int, first, second, chunksize),
    ensures
        exchanged(s, first, second, chunksize).subrange(first, first + chunksize) == s.subrange(
            second,
            second + chunksize,
        ),
        exchanged(s, first, second, chunksize).subrange(second, second + chunksize) == s.subrange(
            first,
            first + chunksize,
        ),
        exchanged(s, first, second, chunksize).to_multiset() == s.to_multiset(),
{
    let t = exchanged(s, first, second, chunksize);
    let len = s.len() as int;
    let a = s.subrange(0, first);
    let w1 = s.subrange(first, first + chunksize);
    let b = s.subrange(first + chunksize, second);
    let w2 = s.subrange(second, second + chunksize);
    let c = s.subrange(second + chunksize, len);
    assert(t.subrange(first, first + chunksize) =~= w2);
    assert(t.subrange(second, second + chunksize) =~= w1);
    assert(s =~= a + w1 + b + w2 + c);
    assert(t =~= a + w2 + b + w1 + c);
    vstd::seq_lib::lemma_multiset_commutative(a, w1);
    vstd::seq_lib::lemma_multiset_commutative(a + w1, b);
    vstd::seq_lib::lemma_multiset_commutative(a + w1 + b, w2);
    vstd::seq_lib::lemma_multiset_commutative(a + w1 + b + w2, c);
    vstd::seq_lib::lemma_multiset_commutative(a, w2);
    vstd::seq_lib::lemma_multiset_commutative(a + w2, b);
    vstd::seq_lib::lemma_multiset_commutative(a + w2 + b, w1);
    vstd::seq_lib::lemma_multiset_commutative(a + w2 + b + w1, c);
    assert(t.to_multiset() =~= s.to_multiset());
}

/// Exchanges the window of `chunksize` bytes at `first` with the one at
/// `second`. Where the two do not lie in the buffer one after the other,
/// nothing is changed and the failure is reported.
pub fn swap_at(data: &mut [u8], first: usize, second: usize, chunksize: usize) -> (done: Result<
    (),
    MutationError,
>)
    ensures
        done is Ok <==> windows_fit(
            old(data)@.len() as int,
            first as int,
            second as int,
            chunksize as int,
        ),
        done is Ok ==> final(data)@ == exchanged(
            old(data)@,
            first as int,
            second as int,
            chunksize as int,
        ) && final(data)@.to_multiset() == old(data)@.to_multiset(),
        done matches Err(e) ==> final(data)@ == old(data)@ && e.kind == FailureKind::OutOfBounds
            && e.error@ == measured_text(
            FailureKind::OutOfBounds,
            second as int,
            chunksize as int,
            old(data)@.len() as int,
        ),
{
    let len = data.len();
    if second > len || chunksize > len - second || first > second || chunksize > second - first {
        return Err(MutationError::measured(FailureKind::OutOfBounds, second, chunksize, len));
    }
    let mut k: usize = 0;
    while k < chunksize
        invariant
            k <= chunksize,
            len == data@.len(),
            len == old(data)@.len(),
            windows_fit(len as int, first as int, second as int, chunksize as int),
            forall|j: int|
                0 <= j < len ==> data@[j] == if first <= j < first + k {
                    old(data)@[j - first + second]
                } else if second <= j < second + k {
                    old(data)@[j - second + first]
                } else {
                    old(data)@[j]
                },
        decreases chunksize - k,
    {
        let held = data[first + k];
        let other = data[second + k];
        data[first + k] = other;
        data[second + k] = held;
        k += 1;
    }
    proof {
        assert(data@ =~= exchanged(old(data)@, first as int, second as int, chunksize as int));
        lemma_exchanged_is_permutation(old(data)@, first as int, second as int, chunksize as int);
    }
    Ok(())
}

/// The chunk size from which on Swap refuses a region of `region` bytes: 49
/// hundredths of the region, rounded down.
pub open spec fn swap_limit(region: int) -> int {
    49 * region / 100
}

/// Whether `after` may come from `before` by one step of Swap: two windows
/// of `chunksize` bytes in the active region, one after the other, are
/// exchanged.
pub open spec fn swap_step(before: Seq<u8>, after: Seq<u8>, chunksize: int) -> bool {
    let len = before.len() as int;
    exists|first: int, second: int|
        active_start(len) <= first && windows_fit(len, first, second, chunksize) && after
            == #[trigger] exchanged(before, first, second, chunksize)
}

/// What an application of Swap comes to, given the parameters `configured`
/// that the configuration holds for it, the buffer `before` and `after`, and
/// the result `done`.
pub open spec fn swap_outcome(
    before: Seq<u8>,
    after: Seq<u8>,
    configured: Option<MutationSpec>,
    done: Result<String, MutationError>,
) -> bool {
    let limit = swap_limit(before.len() - active_start(before.len() as int));
    &&& after.to_multiset() == before.to_multiset()
    &&& guarded(before, after, configured, done)
    &&& configured matches Some(spec) ==> before.len() > 0 ==> {
        ||| exists|chunksize: usize|
            spec.chunksize.holds(chunksize as int) && chunksize >= limit && #[trigger] refused_at(
                before,
                after,
                done,
                FailureKind::ChunkTooLarge,
                active_start(before.len() as int),
                chunksize as int,
            )
        ||| exists|iterations: usize, chunksize: usize|
            spec.iterations.holds(iterations as int) && spec.chunksize.holds(chunksize as int)
                && chunksize < limit && #[trigger] scrambled(
                before,
                after,
                done,
                Scramble::Swap { chunksize },
                iterations as int,
            )
    }
}

/// Applies Swap with the parameters that the configuration holds for it: the
/// number of iterations and the chunk size are sampled once; then, as many
/// times, the active region is split at a point that leaves room for a chunk
/// on either side, and a chunk from before the point changes places with one
/// from after it. The buffer keeps its bytes, each as often as before. Fails
/// where the configuration has no parameters for Swap, the buffer is empty,
/// or the sampled chunk size reaches `swap_limit` of the active region.
pub fn swap(data: &mut [u8], cfg: &Configuration) -> (done: Result<String, MutationError>)
    ensures
        header_kept(old(data)@, final(data)@),
        swap_outcome(old(data)@, final(data)@, cfg.spec_of(MutationKind::Swap), done),
{
    let spec = match cfg.spec(MutationKind::Swap) {
        Some(spec) => spec,
        None => { return Err(MutationError::of(FailureKind::NotConfigured)); },
    };
    let iterations = spec.iterations.sample();
    let chunksize = spec.chunksize.sample();
    if data.len() == 0 {
        return Err(MutationError::of(FailureKind::EmptyBuffer));
    }
    let (lo, hi) = index_boundary(data);
    let region = hi - lo;
    let limit: u128 = 49u128 * (region as u128) / 100;
    if chunksize as u128 >= limit {
        let done = Err(MutationError::measured(FailureKind::ChunkTooLarge, lo, chunksize, hi));
        assert(refused_at(
            old(data)@,
            data@,
            done,
            FailureKind::ChunkTooLarge,
            lo as int,
            chunksize as int,
        ));
        return done;
    }
    let ghost how = Scramble::Swap { chunksize };
    let ghost mut states: Seq<Seq<u8>> = seq![data@];
    let mut rng = thread_source();
    let mut round: usize = 0;
    while round < iterations
        invariant
            round <= iterations,
            lo == active_start(old(data)@.len() as int),
            hi == old(data)@.len(),
            lo < hi,
            header_kept(old(data)@, data@),
            walk(states, how, round as int),
            states[0] == old(data)@,
            states[round as int] == data@,
            how == (Scramble::Swap { chunksize }),
            region == hi - lo,
            chunksize < swap_limit(region as int),
            data@.to_multiset() == old(data)@.to_multiset(),
        decreases iterations - round,
    {
        let split = random_below(&mut rng, chunksize, region - chunksize);
        let before = if split > chunksize { random_below(&mut rng, 0, split - chunksize) } else { 0 };
        let after = random_below(&mut rng, 0, region - split - chunksize);
        let ghost found = data@;
        let _ = swap_at(data, lo + before, lo + split + after, chunksize);
        proof {
            assert(data@ == exchanged(
                found,
                lo + before,
                lo + split + after,
                chunksize as int,
            ));
            assert(swap_step(found, data@, chunksize as int));
            lemma_walk_extends(states, how, round as int, data@);
            states = states.push(data@);
        }
        round += 1;
    }
    proof {
        reveal_strlit("");
        assert(""@ =~= Seq::<char>::empty());
    }
    let done = Ok(describe(MutationKind::Swap, iterations, chunksize, ""));
    assert(scrambled(old(data)@, data@, done, how, iterations as int));
    done
}

} // verus!
