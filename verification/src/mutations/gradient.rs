//! Gradient: a growing amount is added to the bytes of a window.

use crate::configuration::Configuration;
use crate::configuration::Extras;
use crate::configuration::MutationSpec;
use crate::error::FailureKind;
use crate::error::MutationError;
use crate::kind::MutationKind;
use crate::mutations::clamp_end;
use crate::mutations::operation::guarded;
use crate::mutations::operation::header_kept;
use crate::mutations::operation::Operation;
use crate::mutations::operation::perform;
use crate::mutations::operation::performed;
use crate::mutations::window_end;
use crate::mutations::window_start;
use vstd::arithmetic::div_mod::lemma_add_mod_noop;
use vstd::arithmetic::div_mod::lemma_add_mod_noop_right;
use vstd::arithmetic::div_mod::lemma_fundamental_div_mod_converse;
use vstd::prelude::*;

verus! {

/// The number of bytes after which the amount grows: `accelerate_in`, and one
/// where that is zero.
pub open spec fn gradient_step(accelerate_in: int) -> int {
    if accelerate_in < 1 {
        1
    } else {
        accelerate_in
    }
}

/// The amount added to the byte at `offset` in the window: it starts at
/// `accelerate_by` and grows by `accelerate_by` after every `accelerate_in`
/// bytes.
pub open spec fn gradient_delta(accelerate_by: int, accelerate_in: int, offset: int) -> int {
    accelerate_by * (1 + offset / gradient_step(accelerate_in))
}

/// `s` with `gradient_delta` added, modulo 256, to each byte of the window of
/// `chunksize` bytes at `index`.
pub open spec fn graded(
    s: Seq<u8>,
    index: int,
    chunksize: int,
    accelerate_by: int,
    accelerate_in: int,
) -> Seq<u8> {
    let start = window_start(s.len() as int, index);
    let end = window_end(s.len() as int, index, chunksize);
    Seq::new(
        s.len(),
        |k: int|
            if start <= k < end {
                ((s[k] + gradient_delta(accelerate_by, accelerate_in, k - start)) % 256) as u8
            } else {
                s[k]
            },
    )
}

/// The amount for the next group of bytes, modulo 256, from the amount for
/// this one.
proof fn lemma_next_delta(accelerate_by: int, groups: int, amount: int)
    requires
        0 <= accelerate_by,
        0 <= groups,
        amount == (accelerate_by * (1 + groups)) % 256,
    ensures
        (amount + accelerate_by % 256) % 256 == (accelerate_by * (2 + groups)) % 256,
{
    assert(accelerate_by * (1 + groups) + accelerate_by == accelerate_by * (2 + groups))
        by (nonlinear_arith);
    lemma_add_mod_noop(accelerate_by * (1 + groups), accelerate_by, 256);
}

/// Adds the growing amount to the window of `chunksize` bytes at `index`, cut
/// off at the end of the buffer. Each sum is taken modulo 256.
pub fn gradient_at(
    data: &mut [u8],
    index: usize,
    chunksize: usize,
    accelerate_by: usize,
    accelerate_in: usize,
)
    ensures
        final(data)@ == graded(
            old(data)@,
            index as int,
            chunksize as int,
            accelerate_by as int,
            accelerate_in as int,
        ),
{
    let len = data.len();
    if index >= len {
        assert(data@ =~= graded(
            data@,
            index as int,
            chunksize as int,
            accelerate_by as int,
            accelerate_in as int,
        ));
        return;
    }
    let end = clamp_end(len, index, chunksize);
    let grow: usize = accelerate_by % 256;
    let mut amount: usize = grow;
    let mut counted: usize = 0;
    let ghost mut groups: int = 0;
    let mut k: usize = index;
    proof {
        assert(accelerate_by * (1 + 0) == accelerate_by) by (nonlinear_arith);
    }
    while k < end
        invariant
            index <= k <= end <= len,
            len == data@.len(),
            len == old(data)@.len(),
            index == window_start(len as int, index as int),
            end == window_end(len as int, index as int, chunksize as int),
            grow == accelerate_by % 256,
            0 <= groups,
            0 <= counted < gradient_step(accelerate_in as int),
            k - index == groups * gradient_step(accelerate_in as int) + counted,
            amount == (accelerate_by * (1 + groups)) % 256,
            forall|j: int|
                0 <= j < len ==> data@[j] == if index <= j < k {
                    ((old(data)@[j] + gradient_delta(
                        accelerate_by as int,
                        accelerate_in as int,
                        j - index,
                    )) % 256) as u8
                } else {
                    old(data)@[j]
                },
        decreases end - k,
    {
        proof {
            let step = gradient_step(accelerate_in as int);
            lemma_fundamental_div_mod_converse(k - index, step, groups, counted as int);
            lemma_add_mod_noop_right(
                old(data)@[k as int] as int,
                accelerate_by * (1 + groups),
                256,
            );
        }
        data[k] = ((data[k] as usize + amount) % 256) as u8;
        counted += 1;
        if counted >= accelerate_in {
            proof {
                lemma_next_delta(accelerate_by as int, groups, amount as int);
                assert((groups + 1) * gradient_step(accelerate_in as int) == groups
                    * gradient_step(accelerate_in as int) + gradient_step(accelerate_in as int))
                    by (nonlinear_arith);
                assert(accelerate_by * (1 + (groups + 1)) == accelerate_by * (2 + groups))
                    by (nonlinear_arith);
                groups = groups + 1;
            }
            counted = 0;
            amount = (amount + grow) % 256;
        }
        k += 1;
    }
    assert(data@ =~= graded(
        old(data)@,
        index as int,
        chunksize as int,
        accelerate_by as int,
        accelerate_in as int,
    ));
}

/// What an application of Gradient comes to, given the parameters `configured`
/// that the configuration holds for it, the buffer `before` and `after`, and
/// the result `done`.
pub open spec fn gradient_outcome(
    before: Seq<u8>,
    after: Seq<u8>,
    configured: Option<MutationSpec>,
    done: Result<String, MutationError>,
) -> bool {
    &&& guarded(before, after, configured, done)
    &&& configured matches Some(spec) ==> before.len() > 0 ==> exists|
        iterations: usize,
        chunksize: usize,
        accelerate_by: usize,
        accelerate_in: usize,
    |
        spec.iterations.holds(iterations as int) && spec.chunksize.holds(chunksize as int)
            && spec.extras->accelerate_by.holds(accelerate_by as int)
            && spec.extras->accelerate_in.holds(accelerate_in as int) && #[trigger] performed(
            before,
            after,
            done,
            Operation::Gradient { chunksize, accelerate_by, accelerate_in },
            iterations as int,
        )
}

/// Applies Gradient with the parameters that the configuration holds for it:
/// the number of iterations, the chunk size, the amount and the number of
/// bytes after which it grows are sampled once, then the growing amount is
/// added to the bytes of as many windows of the active region. Fails where
/// the configuration has no parameters for Gradient, or the buffer is empty.
pub fn gradient(data: &mut [u8], cfg: &Configuration) -> (done: Result<String, MutationError>)
    ensures
        header_kept(old(data)@, final(data)@),
        gradient_outcome(old(data)@, final(data)@, cfg.spec_of(MutationKind::Gradient), done),
{
    let spec = match cfg.spec(MutationKind::Gradient) {
        Some(spec) => spec,
        None => { return Err(MutationError::of(FailureKind::NotConfigured)); },
    };
    let iterations = spec.iterations.sample();
    let chunksize = spec.chunksize.sample();
    let (accelerate_by, accelerate_in) = match spec.extras {
        Extras::Gradient { accelerate_by, accelerate_in } => (
            accelerate_by.sample(),
            accelerate_in.sample(),
        ),
        _ => { return Err(MutationError::of(FailureKind::NotConfigured)); },
    };
    perform(data, &Operation::Gradient { chunksize, accelerate_by, accelerate_in }, iterations)
}

} // verus!
