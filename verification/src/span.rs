use vstd::prelude::*;

verus! {

/// A half-open byte range `[lo, hi)` over the original source text,
/// locating an AST node. Position `0` is the sentinel for "no position":
/// a span whose ends are both `0` is a dummy span, which marks synthesized
/// code, carries no comments, and can never trigger a reset.
#[derive(Clone, Copy, PartialEq, Eq, Structural, Debug)]
pub struct Span {
    pub lo: u32,
    pub hi: u32,
}

impl Span {
    /// A dummy span has both ends at the sentinel position.
    pub open spec fn spec_is_dummy(&self) -> bool {
        self.lo == 0 && self.hi == 0
    }

    #[verifier::when_used_as_spec(spec_is_dummy)]
    pub fn is_dummy(&self) -> (b: bool)
        ensures
            b == self.spec_is_dummy(),
    {
        self.lo == 0 && self.hi == 0
    }

    /// Whether the span has a usable end position: comment lookups at
    /// `hi - 1` are skipped when the end is the sentinel.
    pub open spec fn spec_has_end(&self) -> bool {
        self.hi >= 1
    }

    #[verifier::when_used_as_spec(spec_has_end)]
    pub fn has_end(&self) -> (b: bool)
        ensures
            b == self.spec_has_end(),
    {
        self.hi >= 1
    }
}

} // verus!
