//! The range model: a half-open interval of numbers that a parameter is
//! sampled from, and the rule that makes one from the value that an option
//! declares.

use crate::error::ConfigError;
use crate::error::ConfigFault;
use crate::random::random_below;
use crate::random::thread_source;
use vstd::prelude::*;

verus! {

/// A range `[lo, hi)` with `lo < hi`.
#[derive(Clone, Copy, Debug, PartialEq, Eq, Structural)]
pub struct Range {
    lo: usize,
    hi: usize,
}

/// Whether a declared number can bound a range: it is not negative, and the
/// number after it can still be held.
pub open spec fn usable(value: i64) -> bool {
    0 <= value < usize::MAX
}

/// The lower bound of the range that `values` declare.
pub open spec fn declared_low(values: Seq<i64>) -> int {
    if values.len() == 1 || values[0] <= values[1] {
        values[0] as int
    } else {
        values[1] as int
    }
}

/// The upper bound of the range that `values` declare: one more than the
/// largest value, which can thus still be sampled.
pub open spec fn declared_high(values: Seq<i64>) -> int {
    if values.len() == 1 || values[0] >= values[1] {
        values[0] + 1
    } else {
        values[1] + 1
    }
}

/// Two ranges with the same bounds are one range.
pub proof fn lemma_range_by_bounds(a: Range, b: Range)
    requires
        a.low() == b.low(),
        a.high() == b.high(),
    ensures
        a == b,
{
}

impl Range {
    #[verifier::type_invariant]
    spec fn ordered(self) -> bool {
        self.lo < self.hi
    }

    /// The lower bound, which belongs to the range.
    pub closed spec fn low(self) -> int {
        self.lo as int
    }

    /// The upper bound, which does not belong to the range.
    pub closed spec fn high(self) -> int {
        self.hi as int
    }

    /// Whether `value` lies in the range.
    pub open spec fn holds(self, value: int) -> bool {
        self.low() <= value < self.high()
    }

    /// The range `[lo, hi)`, if it is not empty.
    pub fn new(lo: usize, hi: usize) -> (made: Option<Range>)
        ensures
            made is Some <==> lo < hi,
            made matches Some(range) ==> range.low() == lo && range.high() == hi,
    {
        if lo < hi {
            Some(Range { lo, hi })
        } else {
            None
        }
    }

    /// The lower bound.
    pub fn lo(&self) -> (lo: usize)
        ensures
            lo == self.low(),
            lo < self.high(),
    {
        proof {
            use_type_invariant(self);
        }
        self.lo
    }

    /// The upper bound.
    pub fn hi(&self) -> (hi: usize)
        ensures
            hi == self.high(),
            self.low() < hi,
    {
        proof {
            use_type_invariant(self);
        }
        self.hi
    }

    /// A number of the range, picked by the random source.
    pub fn sample(&self) -> (picked: usize)
        ensures
            self.holds(picked as int),
    {
        proof {
            use_type_invariant(self);
        }
        let mut rng = thread_source();
        random_below(&mut rng, self.lo, self.hi)
    }
}

/// Why `values` declare no range, if they do not: their number is neither
/// one nor two, or one of them cannot bound a range.
pub open spec fn declared_fault(values: Seq<i64>) -> Option<ConfigFault> {
    if !(1 <= values.len() <= 2) {
        Some(ConfigFault::InvalidRangeShape)
    } else if exists|i: int| 0 <= i < values.len() && !usable(#[trigger] values[i]) {
        Some(ConfigFault::ValueOutOfRange)
    } else {
        None
    }
}

/// The range that the values of an option declare. One value `v` declares
/// `[v, v + 1)`; two values declare the range from the smaller up to and
/// including the larger. Any other number of values is refused, and so is a
/// value that cannot bound a range.
pub fn normalize(values: &[i64]) -> (made: Result<Range, ConfigError>)
    ensures
        match declared_fault(values@) {
            Some(fault) => made matches Err(e) && e@ == fault,
            None => made matches Ok(range) && range.low() == declared_low(values@) && range.high()
                == declared_high(values@),
        },
{
    let count = values.len();
    if count == 1 {
        let only = values[0];
        if only < 0 || only as u64 >= usize::MAX as u64 {
            return Err(ConfigError::ValueOutOfRange);
        }
        let lo = only as usize;
        Ok(Range { lo, hi: lo + 1 })
    } else if count == 2 {
        let first = values[0];
        let second = values[1];
        if first < 0 || first as u64 >= usize::MAX as u64 {
            return Err(ConfigError::ValueOutOfRange);
        }
        if second < 0 || second as u64 >= usize::MAX as u64 {
            return Err(ConfigError::ValueOutOfRange);
        }
        let a = first as usize;
        let b = second as usize;
        if a <= b {
            Ok(Range { lo: a, hi: b + 1 })
        } else {
            Ok(Range { lo: b, hi: a + 1 })
        }
    } else {
        Err(ConfigError::InvalidRangeShape)
    }
}

} // verus!
