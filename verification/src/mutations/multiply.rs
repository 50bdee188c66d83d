//! Multiply: each byte of a window is replaced by its product with a factor.
//!
//! The factor is a fraction, and the product of a byte with it lies outside
//! integer arithmetic. A `Factor` therefore holds the outcome for each of the
//! 256 bytes, worked out by whoever knows the fraction, and the text that
//! names the fraction in a description of the mutation.

use crate::configuration::Configuration;
use crate::configuration::MutationSpec;
use crate::error::FailureKind;
use crate::error::MutationError;
use crate::kind::MutationKind;
use crate::mutations::clamp_end;
use crate::mutations::operation::guarded;
use crate::mutations::operation::header_kept;
use crate::mutations::operation::Operation;
use crate::mutations::operation::perform;
use crate::mutations::operation::performed;
use crate::mutations::window_end;
use crate::mutations::window_start;
use vstd::prelude::*;

verus! {

/// A factor of Multiply: for each byte the byte that its product becomes.
pub struct Factor {
    label: String,
    table: Vec<u8>,
}

impl Factor {
    #[verifier::type_invariant]
    spec fn holds_every_byte(self) -> bool {
        self.table@.len() == 256
    }

    /// The text that names the factor.
    pub closed spec fn label(self) -> Seq<char> {
        self.label@
    }

    /// The products: `products()[b]` is what the byte `b` becomes.
    pub closed spec fn products(self) -> Seq<u8> {
        self.table@
    }

    /// A factor from its name and its products, one for each byte from 0 to
    /// 255. A table of another length is no factor.
    pub fn new(label: String, table: Vec<u8>) -> (made: Option<Factor>)
        ensures
            made is Some <==> table@.len() == 256,
            made matches Some(factor) ==> factor.label() == label@ && factor.products() == table@,
    {
        if table.len() == 256 {
            Some(Factor { label, table })
        } else {
            None
        }
    }

    /// The text that names the factor.
    pub fn name(&self) -> (text: &str)
        ensures
            text@ == self.label(),
    {
        self.label.as_str()
    }

    /// What the byte `byte` becomes.
    pub fn product(&self, byte: u8) -> (scaled: u8)
        ensures
            self.products().len() == 256,
            scaled == self.products()[byte as int],
    {
        proof {
            use_type_invariant(self);
        }
        self.table[byte as usize]
    }
}

/// `s` with each byte of the window of `chunksize` bytes at `index` replaced
/// by its product.
pub open spec fn multiplied(s: Seq<u8>, index: int, chunksize: int, products: Seq<u8>) -> Seq<u8> {
    let start = window_start(s.len() as int, index);
    let end = window_end(s.len() as int, index, chunksize);
    Seq::new(s.len(), |k: int| if start <= k < end { products[s[k] as int] } else { s[k] })
}

/// Replaces each byte of the window of `chunksize` bytes at `index`, cut off
/// at the end of the buffer, by its product with `factor`.
pub fn multiply_at(data: &mut [u8], index: usize, chunksize: usize, factor: &Factor)
    ensures
        final(data)@ == multiplied(
            old(data)@,
            index as int,
            chunksize as int,
            factor.products(),
        ),
{
    let len = data.len();
    if index >= len {
        assert(data@ =~= multiplied(data@, index as int, chunksize as int, factor.products()));
        return;
    }
    let end = clamp_end(len, index, chunksize);
    let mut k: usize = index;
    while k < end
        invariant
            index <= k <= end <= len,
            len == data@.len(),
            len == old(data)@.len(),
            forall|j: int|
                0 <= j < len ==> data@[j] == if index <= j < k {
                    factor.products()[old(data)@[j] as int]
                } else {
                    old(data)@[j]
                },
        decreases end - k,
    {
        data[k] = factor.product(data[k]);
        k += 1;
    }
    assert(data@ =~= multiplied(old(data)@, index as int, chunksize as int, factor.products()));
}

/// What an application of Multiply comes to, given the parameters `configured`
/// that the configuration holds for it, the buffer `before` and `after`, and
/// the result `done`.
pub open spec fn multiply_outcome(
    before: Seq<u8>,
    after: Seq<u8>,
    configured: Option<MutationSpec>,
    done: Result<String, MutationError>,
    factor: Factor,
) -> bool {
    &&& guarded(before, after, configured, done)
    &&& configured matches Some(spec) ==> before.len() > 0 ==> exists|
        iterations: usize,
        chunksize: usize,
    |
        spec.iterations.holds(iterations as int) && spec.chunksize.holds(chunksize as int)
            && #[trigger] performed(
            before,
            after,
            done,
            Operation::Multiply { chunksize, factor: &factor },
            iterations as int,
        )
}

/// Applies Multiply with `factor` and the parameters that the configuration
/// holds for it: the number of iterations and the chunk size are sampled
/// once, then the bytes of as many windows of the active region are replaced
/// by their products. Fails where the configuration has no parameters for
/// Multiply, or the buffer is empty.
pub fn multiply(data: &mut [u8], cfg: &Configuration, factor: &Factor) -> (done: Result<
    String,
    MutationError,
>)
    ensures
        header_kept(old(data)@, final(data)@),
        multiply_outcome(old(data)@, final(data)@, cfg.spec_of(MutationKind::Multiply), done, *factor),
{
    let spec = match cfg.spec(MutationKind::Multiply) {
        Some(spec) => spec,
        None => { return Err(MutationError::of(FailureKind::NotConfigured)); },
    };
    let iterations = spec.iterations.sample();
    let chunksize = spec.chunksize.sample();
    perform(data, &Operation::Multiply { chunksize, factor }, iterations)
}

} // verus!
