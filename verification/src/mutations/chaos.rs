//! Chaos: a window is overwritten with noise from a fast random generator.

use crate::configuration::Configuration;
use crate::configuration::MutationSpec;
use crate::error::FailureKind;
use crate::error::MutationError;
use crate::kind::MutationKind;
use crate::mutations::active_start;
use crate::mutations::clamp_end;
use crate::mutations::index_boundary;
use crate::mutations::operation::describe;
use crate::mutations::operation::failed;
use crate::mutations::operation::guarded;
use crate::mutations::operation::header_kept;
use crate::mutations::operation::lemma_walk_extends;
use crate::mutations::operation::refused;
use crate::mutations::operation::Scramble;
use crate::mutations::operation::scrambled;
use crate::mutations::operation::walk;
use crate::random::next_noise;
use crate::random::random_below;
use crate::random::thread_source;
use crate::random::seed_noise;
use rand_xorshift::XorShiftRng;
use vstd::prelude::*;

verus! {

/// `s` with the bytes of `noise` written over it from `index` on, as far as
/// `s` reaches.
pub open spec fn noised(s: Seq<u8>, index: int, noise: Seq<u8>) -> Seq<u8> {
    Seq::new(s.len(), |k: int| if index <= k < index + noise.len() { noise[k - index] } else { s[k] })
}

/// Writes `noise` over the buffer from `index` on; what lies beyond the end of
/// the buffer is dropped.
pub fn chaos_at(data: &mut [u8], index: usize, noise: &[u8])
    ensures
        final(data)@ == noised(old(data)@, index as int, noise@),
{
    let len = data.len();
    if index >= len {
        assert(data@ =~= noised(data@, index as int, noise@));
        return;
    }
    let width = if noise.len() > len - index { len - index } else { noise.len() };
    let mut k: usize = 0;
    while k < width
        invariant
            k <= width,
            index + width <= len,
            width <= noise@.len(),
            width == noise@.len() || index + width == len,
            len == data@.len(),
            len == old(data)@.len(),
            forall|j: int|
                0 <= j < len ==> data@[j] == if index <= j < index + k {
                    noise@[j - index]
                } else {
                    old(data)@[j]
                },
        decreases width - k,
    {
        data[index + k] = noise[k];
        k += 1;
    }
    assert(data@ =~= noised(old(data)@, index as int, noise@));
}

/// Draws `count` bytes from the generator: of each number drawn, the lowest
/// eight bits.
pub fn draw_noise(rng: &mut XorShiftRng, count: usize) -> (noise: Vec<u8>)
    ensures
        noise@.len() == count,
{
    let mut noise: Vec<u8> = Vec::new();
    let mut k: usize = 0;
    while k < count
        invariant
            k <= count,
            noise@.len() == k,
        decreases count - k,
    {
        let drawn: u32 = next_noise(rng);
        noise.push((drawn & 0xff) as u8);
        k += 1;
    }
    noise
}

/// Whether `after` may come from `before` by one step of Chaos: some bytes
/// are written over a window of `chunksize` bytes that starts in the active
/// region and is cut off at the end of the buffer.
pub open spec fn chaos_step(before: Seq<u8>, after: Seq<u8>, chunksize: int) -> bool {
    let len = before.len() as int;
    exists|index: int, noise: Seq<u8>|
        active_start(len) <= index < len && noise.len() == crate::mutations::window_end(
            len,
            index,
            chunksize,
        ) - index && after == #[trigger] noised(before, index, noise)
}

/// What an application of Chaos comes to, given the parameters `configured`
/// that the configuration holds for it, the buffer `before` and `after`, and
/// the result `done`.
pub open spec fn chaos_outcome(
    before: Seq<u8>,
    after: Seq<u8>,
    configured: Option<MutationSpec>,
    done: Result<String, MutationError>,
) -> bool {
    &&& guarded(before, after, configured, done)
    &&& configured matches Some(spec) ==> before.len() > 0 ==> {
        ||| failed(before, after, done, FailureKind::NoiseUnavailable)
        ||| exists|iterations: usize, chunksize: usize|
            spec.iterations.holds(iterations as int) && spec.chunksize.holds(chunksize as int)
                && #[trigger] scrambled(
                before,
                after,
                done,
                Scramble::Chaos { chunksize },
                iterations as int,
            )
    }
}

/// Fills windows with the noise of a generator, given what seeding the
/// generator came to. Where seeding failed, nothing is changed and the
/// failure is reported with the text that seeding gave. Where it gave a
/// generator, `iterations` windows of `chunksize` bytes, each starting at an
/// index that the random source picks from the active region, are filled
/// with its noise, and what was done is described. An empty buffer has no
/// active region and is refused, whatever seeding came to.
pub fn chaos_with(
    data: &mut [u8],
    iterations: usize,
    chunksize: usize,
    seeded: Result<XorShiftRng, String>,
) -> (done: Result<String, MutationError>)
    ensures
        header_kept(old(data)@, final(data)@),
        old(data)@.len() == 0 ==> refused(
            old(data)@,
            final(data)@,
            done,
            FailureKind::EmptyBuffer,
        ),
        old(data)@.len() > 0 ==> (seeded matches Err(text) ==> final(data)@ == old(data)@
            && done is Err && done->Err_0.kind == FailureKind::NoiseUnavailable
            && done->Err_0.error == text),
        old(data)@.len() > 0 ==> (seeded is Ok ==> scrambled(
            old(data)@,
            final(data)@,
            done,
            Scramble::Chaos { chunksize },
            iterations as int,
        )),
{
    if data.len() == 0 {
        return Err(MutationError::of(FailureKind::EmptyBuffer));
    }
    let mut noise_source = match seeded {
        Ok(source) => source,
        Err(text) => { return Err(MutationError::new(FailureKind::NoiseUnavailable, text)); },
    };
    let (lo, hi) = index_boundary(data);
    let ghost how = Scramble::Chaos { chunksize };
    let ghost mut states: Seq<Seq<u8>> = seq![data@];
    let mut rng = thread_source();
    let mut round: usize = 0;
    while round < iterations
        invariant
            round <= iterations,
            lo == active_start(old(data)@.len() as int),
            hi == old(data)@.len(),
            lo < hi,
            header_kept(old(data)@, data@),
            walk(states, how, round as int),
            states[0] == old(data)@,
            states[round as int] == data@,
            how == (Scramble::Chaos { chunksize }),
        decreases iterations - round,
    {
        let index = random_below(&mut rng, lo, hi);
        let width = clamp_end(hi, index, chunksize) - index;
        let noise = draw_noise(&mut noise_source, width);
        let ghost found = data@;
        chaos_at(data, index, noise.as_slice());
        proof {
            assert(data@ == noised(found, index as int, noise@));
            assert(chaos_step(found, data@, chunksize as int));
            lemma_walk_extends(states, how, round as int, data@);
            states = states.push(data@);
        }
        round += 1;
    }
    proof {
        reveal_strlit("");
        assert(""@ =~= Seq::<char>::empty());
    }
    let done = Ok(describe(MutationKind::Chaos, iterations, chunksize, ""));
    assert(scrambled(old(data)@, data@, done, how, iterations as int));
    done
}

/// Applies Chaos with the parameters that the configuration holds for it:
/// the number of iterations and the chunk size are sampled once and a fast
/// generator is seeded from the thread's generator; the rest is done by
/// `chaos_with`. Fails where the configuration has no parameters for Chaos,
/// the buffer is empty, or the generator cannot be seeded; the text of that
/// last failure is the one that the random source gives.
pub fn chaos(data: &mut [u8], cfg: &Configuration) -> (done: Result<String, MutationError>)
    ensures
        header_kept(old(data)@, final(data)@),
        chaos_outcome(old(data)@, final(data)@, cfg.spec_of(MutationKind::Chaos), done),
{
    let spec = match cfg.spec(MutationKind::Chaos) {
        Some(spec) => spec,
        None => { return Err(MutationError::of(FailureKind::NotConfigured)); },
    };
    let iterations = spec.iterations.sample();
    let chunksize = spec.chunksize.sample();
    if data.len() == 0 {
        return Err(MutationError::of(FailureKind::EmptyBuffer));
    }
    chaos_with(data, iterations, chunksize, seed_noise(thread_source()))
}

} // verus!
