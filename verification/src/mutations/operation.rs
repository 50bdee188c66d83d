//! What the mutations share when they are applied with sampled parameters.
//!
//! An `Operation` is settled once its parameters and the index of its window
//! are known: applying it repeatedly comes to a list of indices of the active
//! region. A `Scramble` leaves more to the random source: applying it
//! repeatedly comes to a walk through states of the buffer, each of which may
//! follow from the one before. Both are described by a text that names the
//! kind of mutation and the sampled parameters.

use crate::error::FailureKind;
use crate::error::MutationError;
use crate::kind::MutationKind;
use crate::mutations::active_start;
use crate::mutations::chaos::chaos_step;
use crate::mutations::compress::compress_at;
use crate::mutations::compress::compressed;
use crate::mutations::gradient::graded;
use crate::mutations::gradient::gradient_at;
use crate::mutations::increase::increase_at;
use crate::mutations::increase::increased;
use crate::mutations::index_boundary;
use crate::mutations::loops::lemma_looped_keeps;
use crate::mutations::loops::looped;
use crate::mutations::loops::loops_at;
use crate::mutations::multiply::Factor;
use crate::mutations::multiply::multiplied;
use crate::mutations::multiply::multiply_at;
use crate::mutations::reverse::reverse_at;
use crate::mutations::reverse::reversed;
use crate::mutations::shift::shift_step;
use crate::mutations::shuffle::shuffle_step;
use crate::mutations::swap::swap_step;
use crate::mutations::void::void_at;
use crate::mutations::void::voided;
use crate::random::random_below;
use crate::random::thread_source;
use crate::text::decimal;
use crate::text::write_decimal;
use vstd::prelude::*;
use vstd::string::StringExecFns;

verus! {

/// A windowed operation with its sampled parameters.
pub enum Operation<'a> {
    Void { chunksize: usize },
    Loops { chunksize: usize, loops: usize },
    Reverse { chunksize: usize },
    Increase { chunksize: usize, increase_by: usize },
    Gradient { chunksize: usize, accelerate_by: usize, accelerate_in: usize },
    Multiply { chunksize: usize, factor: &'a Factor },
    Compress { chunksize: usize, compress_by: usize },
}

impl<'a> Operation<'a> {
    /// The kind of mutation that the operation belongs to.
    pub open spec fn kind(self) -> MutationKind {
        match self {
            Operation::Void { .. } => MutationKind::Void,
            Operation::Loops { .. } => MutationKind::Loops,
            Operation::Reverse { .. } => MutationKind::Reverse,
            Operation::Increase { .. } => MutationKind::Increase,
            Operation::Gradient { .. } => MutationKind::Gradient,
            Operation::Multiply { .. } => MutationKind::Multiply,
            Operation::Compress { .. } => MutationKind::Compress,
        }
    }

    /// The size of the operation's window.
    pub open spec fn chunksize(self) -> int {
        match self {
            Operation::Void { chunksize } => chunksize as int,
            Operation::Loops { chunksize, .. } => chunksize as int,
            Operation::Reverse { chunksize } => chunksize as int,
            Operation::Increase { chunksize, .. } => chunksize as int,
            Operation::Gradient { chunksize, .. } => chunksize as int,
            Operation::Multiply { chunksize, .. } => chunksize as int,
            Operation::Compress { chunksize, .. } => chunksize as int,
        }
    }

    /// What the description of the operation says after the number of
    /// iterations and the chunk size.
    pub open spec fn suffix(self) -> Seq<char> {
        match self {
            Operation::Loops { loops, .. } => "_lps="@ + decimal(loops as nat),
            Operation::Increase { increase_by, .. } => "_by="@ + decimal(increase_by as nat),
            Operation::Gradient { accelerate_by, accelerate_in, .. } => "_by="@ + decimal(
                accelerate_by as nat,
            ) + "_in="@ + decimal(accelerate_in as nat),
            Operation::Multiply { factor, .. } => "_by="@ + factor.label(),
            Operation::Compress { compress_by, .. } => "_by="@ + decimal(compress_by as nat),
            _ => Seq::empty(),
        }
    }
}

impl<'a> Operation<'a> {
    /// The kind of mutation that the operation belongs to.
    pub fn kind_of(&self) -> (kind: MutationKind)
        ensures
            kind == self.kind(),
    {
        match self {
            Operation::Void { .. } => MutationKind::Void,
            Operation::Loops { .. } => MutationKind::Loops,
            Operation::Reverse { .. } => MutationKind::Reverse,
            Operation::Increase { .. } => MutationKind::Increase,
            Operation::Gradient { .. } => MutationKind::Gradient,
            Operation::Multiply { .. } => MutationKind::Multiply,
            Operation::Compress { .. } => MutationKind::Compress,
        }
    }

    /// The size of the operation's window.
    pub fn window_size(&self) -> (size: usize)
        ensures
            size == self.chunksize(),
    {
        match self {
            Operation::Void { chunksize } => *chunksize,
            Operation::Loops { chunksize, .. } => *chunksize,
            Operation::Reverse { chunksize } => *chunksize,
            Operation::Increase { chunksize, .. } => *chunksize,
            Operation::Gradient { chunksize, .. } => *chunksize,
            Operation::Multiply { chunksize, .. } => *chunksize,
            Operation::Compress { chunksize, .. } => *chunksize,
        }
    }

    /// Writes what the description says after the number of iterations and
    /// the chunk size.
    pub fn write_suffix(&self) -> (text: String)
        ensures
            text@ == self.suffix(),
    {
        match self {
            Operation::Loops { loops, .. } => {
                let mut text = String::from_str("_lps=");
                text.append(write_decimal(*loops).as_str());
                text
            },
            Operation::Increase { increase_by, .. } => {
                let mut text = String::from_str("_by=");
                text.append(write_decimal(*increase_by).as_str());
                text
            },
            Operation::Gradient { accelerate_by, accelerate_in, .. } => {
                let mut text = String::from_str("_by=");
                text.append(write_decimal(*accelerate_by).as_str());
                text.append("_in=");
                text.append(write_decimal(*accelerate_in).as_str());
                text
            },
            Operation::Multiply { factor, .. } => {
                let mut text = String::from_str("_by=");
                text.append(factor.name());
                text
            },
            Operation::Compress { compress_by, .. } => {
                let mut text = String::from_str("_by=");
                text.append(write_decimal(*compress_by).as_str());
                text
            },
            _ => String::new(),
        }
    }
}

/// The description of an applied mutation: the tag of its kind and its
/// sampled parameters, such as `VOID_it=3_ch=128`.
pub open spec fn description(
    kind: MutationKind,
    iterations: int,
    chunksize: int,
    suffix: Seq<char>,
) -> Seq<char> {
    kind.tag() + "_it="@ + decimal(iterations as nat) + "_ch="@ + decimal(chunksize as nat) + suffix
}

/// `s` after the operation at `index`. Loops leaves `s` alone where `index`
/// lies outside the active region.
pub open spec fn applied(s: Seq<u8>, op: Operation, index: int) -> Seq<u8> {
    match op {
        Operation::Void { chunksize } => voided(s, index, chunksize as int),
        Operation::Loops { chunksize, loops } => if active_start(s.len() as int) <= index
            < s.len() {
            looped(s, index, chunksize as int, loops as nat)
        } else {
            s
        },
        Operation::Reverse { chunksize } => reversed(s, index, chunksize as int),
        Operation::Increase { chunksize, increase_by } => increased(
            s,
            index,
            chunksize as int,
            increase_by as int,
        ),
        Operation::Gradient { chunksize, accelerate_by, accelerate_in } => graded(
            s,
            index,
            chunksize as int,
            accelerate_by as int,
            accelerate_in as int,
        ),
        Operation::Multiply { chunksize, factor } => multiplied(
            s,
            index,
            chunksize as int,
            factor.products(),
        ),
        Operation::Compress { chunksize, compress_by } => compressed(
            s,
            index,
            chunksize as int,
            compress_by as int,
        ),
    }
}

/// `s` after the operation at each index of `picks`, in their order.
pub open spec fn applied_all(s: Seq<u8>, op: Operation, picks: Seq<int>) -> Seq<u8>
    decreases picks.len(),
{
    if picks.len() == 0 {
        s
    } else {
        applied(applied_all(s, op, picks.drop_last()), op, picks.last())
    }
}

/// Whether every index of `picks` lies in the active region of a buffer of
/// `len` bytes.
pub open spec fn picks_in_region(picks: Seq<int>, len: int) -> bool {
    forall|i: int| 0 <= i < picks.len() ==> active_start(len) <= #[trigger] picks[i] < len
}

/// `after` has the length of `before` and the same bytes below the active
/// region.
pub open spec fn header_kept(before: Seq<u8>, after: Seq<u8>) -> bool {
    &&& after.len() == before.len()
    &&& forall|k: int| 0 <= k < active_start(before.len() as int) ==> after[k] == before[k]
}

/// `after` is `before` with the operation applied `iterations` times, each
/// time at some index of the active region.
pub open spec fn carried_out(before: Seq<u8>, after: Seq<u8>, op: Operation, iterations: int) -> bool {
    exists|picks: Seq<int>|
        picks.len() == iterations && picks_in_region(picks, before.len() as int) && after
            == #[trigger] applied_all(before, op, picks)
}

/// `done` reports a failure of the given kind, and the buffer is as before.
pub open spec fn refused(
    before: Seq<u8>,
    after: Seq<u8>,
    done: Result<String, MutationError>,
    kind: FailureKind,
) -> bool {
    &&& after == before
    &&& done matches Err(e)
    &&& e.kind == kind
    &&& e.error@ == kind.text()
}

/// `done` reports a failure of the given kind that tells the place `at`, the
/// chunk size and the length of the buffer, and the buffer is as before.
pub open spec fn refused_at(
    before: Seq<u8>,
    after: Seq<u8>,
    done: Result<String, MutationError>,
    kind: FailureKind,
    at: int,
    chunksize: int,
) -> bool {
    &&& after == before
    &&& done matches Err(e)
    &&& e.kind == kind
    &&& e.error@ == crate::error::measured_text(kind, at, chunksize, before.len() as int)
}

/// What holds of every mutation that cannot start: without parameters in the
/// configuration it is refused as not configured, and with parameters but an
/// empty buffer it is refused because the buffer is empty.
pub open spec fn guarded(
    before: Seq<u8>,
    after: Seq<u8>,
    configured: Option<crate::configuration::MutationSpec>,
    done: Result<String, MutationError>,
) -> bool {
    &&& configured is None ==> refused(before, after, done, FailureKind::NotConfigured)
    &&& configured is Some && before.len() == 0 ==> refused(
        before,
        after,
        done,
        FailureKind::EmptyBuffer,
    )
}

/// `done` reports a failure of the given kind, with whatever text, and the
/// buffer is as before.
pub open spec fn failed(
    before: Seq<u8>,
    after: Seq<u8>,
    done: Result<String, MutationError>,
    kind: FailureKind,
) -> bool {
    &&& after == before
    &&& done matches Err(e)
    &&& e.kind == kind
}

/// A windowed operation whose outcome the random source decides beyond the
/// index of its window, with its sampled chunk size.
pub enum Scramble {
    Chaos { chunksize: usize },
    Shift { chunksize: usize },
    Shuffle { chunksize: usize },
    Swap { chunksize: usize },
}

impl Scramble {
    /// The kind of mutation that the operation belongs to.
    pub open spec fn kind(self) -> MutationKind {
        match self {
            Scramble::Chaos { .. } => MutationKind::Chaos,
            Scramble::Shift { .. } => MutationKind::Shift,
            Scramble::Shuffle { .. } => MutationKind::Shuffle,
            Scramble::Swap { .. } => MutationKind::Swap,
        }
    }

    /// The size of the operation's window.
    pub open spec fn chunksize(self) -> int {
        match self {
            Scramble::Chaos { chunksize } => chunksize as int,
            Scramble::Shift { chunksize } => chunksize as int,
            Scramble::Shuffle { chunksize } => chunksize as int,
            Scramble::Swap { chunksize } => chunksize as int,
        }
    }

    /// Whether `after` may come from `before` by one application.
    pub open spec fn step(self, before: Seq<u8>, after: Seq<u8>) -> bool {
        match self {
            Scramble::Chaos { chunksize } => chaos_step(before, after, chunksize as int),
            Scramble::Shift { chunksize } => shift_step(before, after, chunksize as int),
            Scramble::Shuffle { chunksize } => shuffle_step(before, after, chunksize as int),
            Scramble::Swap { chunksize } => swap_step(before, after, chunksize as int),
        }
    }
}

/// Whether each of the `steps` states after the first may come from the one
/// before it by one application of the operation.
pub open spec fn walk(states: Seq<Seq<u8>>, how: Scramble, steps: int) -> bool {
    &&& states.len() == steps + 1
    &&& forall|i: int| 0 <= i < steps ==> how.step(#[trigger] states[i], states[i + 1])
}

/// Whether `after` may come from `before` by `steps` applications of the
/// operation, one after the other.
pub open spec fn walked(before: Seq<u8>, after: Seq<u8>, how: Scramble, steps: int) -> bool {
    exists|states: Seq<Seq<u8>>|
        #![trigger walk(states, how, steps)]
        walk(states, how, steps) && states[0] == before && states[steps] == after
}

/// One more application lengthens a walk.
pub proof fn lemma_walk_extends(states: Seq<Seq<u8>>, how: Scramble, steps: int, next: Seq<u8>)
    requires
        0 <= steps,
        walk(states, how, steps),
        how.step(states[steps], next),
    ensures
        walk(states.push(next), how, steps + 1),
{
    let longer = states.push(next);
    assert forall|i: int| 0 <= i < steps + 1 implies how.step(
        #[trigger] longer[i],
        longer[i + 1],
    ) by {
        if i < steps {
            assert(longer[i] == states[i]);
            assert(longer[i + 1] == states[i + 1]);
        }
    }
}

/// `done` holds the description of the operation, and `after` may come from
/// `before` by `iterations` applications of it.
pub open spec fn scrambled(
    before: Seq<u8>,
    after: Seq<u8>,
    done: Result<String, MutationError>,
    how: Scramble,
    iterations: int,
) -> bool {
    &&& done matches Ok(text)
    &&& text@ == description(how.kind(), iterations, how.chunksize(), Seq::empty())
    &&& walked(before, after, how, iterations)
}

/// `done` holds the description of the operation, and `after` is `before`
/// with the operation applied `iterations` times in the active region.
pub open spec fn performed(
    before: Seq<u8>,
    after: Seq<u8>,
    done: Result<String, MutationError>,
    op: Operation,
    iterations: int,
) -> bool {
    &&& done matches Ok(text)
    &&& text@ == description(op.kind(), iterations, op.chunksize(), op.suffix())
    &&& carried_out(before, after, op, iterations)
}

/// An operation at an index of the active region keeps the length of the
/// buffer and the bytes below the region.
pub proof fn lemma_applied_keeps_header(s: Seq<u8>, op: Operation, index: int)
    requires
        active_start(s.len() as int) <= index < s.len(),
    ensures
        header_kept(s, applied(s, op, index)),
{
    match op {
        Operation::Loops { chunksize, loops } => {
            lemma_looped_keeps(s, index, chunksize as int, loops as nat);
        },
        _ => {},
    }
}

/// Operations at indices of the active region keep the length of the buffer
/// and the bytes below the region.
pub proof fn lemma_applied_all_keeps_header(s: Seq<u8>, op: Operation, picks: Seq<int>)
    requires
        picks_in_region(picks, s.len() as int),
    ensures
        header_kept(s, applied_all(s, op, picks)),
    decreases picks.len(),
{
    if picks.len() > 0 {
        lemma_applied_all_keeps_header(s, op, picks.drop_last());
        let so_far = applied_all(s, op, picks.drop_last());
        assert(active_start(s.len() as int) <= picks[picks.len() - 1] < s.len());
        lemma_applied_keeps_header(so_far, op, picks.last());
    }
}

/// Applies the operation at `index`.
pub fn apply_at(data: &mut [u8], op: &Operation, index: usize)
    ensures
        final(data)@ == applied(old(data)@, *op, index as int),
{
    match op {
        Operation::Void { chunksize } => void_at(data, index, *chunksize),
        Operation::Loops { chunksize, loops } => {
            let _ = loops_at(data, index, *chunksize, *loops);
        },
        Operation::Reverse { chunksize } => reverse_at(data, index, *chunksize),
        Operation::Increase { chunksize, increase_by } => increase_at(
            data,
            index,
            *chunksize,
            *increase_by,
        ),
        Operation::Gradient { chunksize, accelerate_by, accelerate_in } => gradient_at(
            data,
            index,
            *chunksize,
            *accelerate_by,
            *accelerate_in,
        ),
        Operation::Multiply { chunksize, factor } => multiply_at(data, index, *chunksize, factor),
        Operation::Compress { chunksize, compress_by } => compress_at(
            data,
            index,
            *chunksize,
            *compress_by,
        ),
    }
}

/// Applies the operation `iterations` times, each time at an index that the
/// random source picks from the active region.
fn apply_repeatedly(data: &mut [u8], op: &Operation, iterations: usize)
    requires
        old(data)@.len() > 0,
    ensures
        carried_out(old(data)@, final(data)@, *op, iterations as int),
        header_kept(old(data)@, final(data)@),
{
    let (lo, hi) = index_boundary(data);
    let ghost mut picks: Seq<int> = Seq::empty();
    let mut rng = thread_source();
    let mut round: usize = 0;
    while round < iterations
        invariant
            round <= iterations,
            lo == active_start(old(data)@.len() as int),
            hi == old(data)@.len(),
            lo < hi,
            data@.len() == hi,
            picks.len() == round,
            picks_in_region(picks, hi as int),
            data@ == applied_all(old(data)@, *op, picks),
        decreases iterations - round,
    {
        let index = random_below(&mut rng, lo, hi);
        apply_at(data, op, index);
        proof {
            let longer = picks.push(index as int);
            assert(longer.drop_last() =~= picks);
            lemma_applied_all_keeps_header(old(data)@, *op, longer);
            picks = longer;
        }
        round += 1;
    }
    proof {
        lemma_applied_all_keeps_header(old(data)@, *op, picks);
    }
}

/// Applies the operation `iterations` times in the active region and
/// describes what was done. An empty buffer has no active region: nothing is
/// done to it, and the failure is reported.
pub fn perform(data: &mut [u8], op: &Operation, iterations: usize) -> (done: Result<
    String,
    MutationError,
>)
    ensures
        header_kept(old(data)@, final(data)@),
        old(data)@.len() == 0 ==> refused(
            old(data)@,
            final(data)@,
            done,
            FailureKind::EmptyBuffer,
        ),
        old(data)@.len() > 0 ==> performed(
            old(data)@,
            final(data)@,
            done,
            *op,
            iterations as int,
        ),
{
    if data.len() == 0 {
        return Err(MutationError::of(FailureKind::EmptyBuffer));
    }
    apply_repeatedly(data, op, iterations);
    let suffix = op.write_suffix();
    Ok(describe(op.kind_of(), iterations, op.window_size(), suffix.as_str()))
}

/// Writes the description of an applied mutation.
pub fn describe(kind: MutationKind, iterations: usize, chunksize: usize, suffix: &str) -> (text:
    String)
    ensures
        text@ == description(kind, iterations as int, chunksize as int, suffix@),
{
    let mut text = String::from_str(kind.tag_text());
    text.append("_it=");
    text.append(write_decimal(iterations).as_str());
    text.append("_ch=");
    text.append(write_decimal(chunksize).as_str());
    text.append(suffix);
    text
}

} // verus!
