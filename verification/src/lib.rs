pub mod bignum;
pub mod eval;
pub mod expression;
pub mod matcher;

use vstd::prelude::*;

verus! {

/// A half-open byte range into the source text, carried by tokens and
/// expression nodes so that failures can point at their origin.
#[derive(Clone, Copy, PartialEq, Eq, Structural, Debug)]
pub struct Span {
    pub start: usize,
    pub end: usize,
}

/// The smallest span covering both arguments.
pub open spec fn spec_join(a: Span, b: Span) -> Span {
    Span {
        start: if a.start <= b.start { a.start } else { b.start },
        end: if a.end >= b.end { a.end } else { b.end },
    }
}

impl Span {
    /// The smallest span covering both `self` and `other`.
    pub fn join(&self, other: &Span) -> (r: Span)
        ensures
            r == spec_join(*self, *other),
    {
        Span {
            start: if self.start <= other.start { self.start } else { other.start },
            end: if self.end >= other.end { self.end } else { other.end },
        }
    }
}

} // verus!
