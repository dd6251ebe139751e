use vstd::prelude::*;

verus! {

/// Stable body identifier assigned by the game or networking layer.
///
/// Storage order is derived from this value, but the identifier itself holds
/// no index or generation and never changes while the body exists.
#[derive(Debug, Clone, Copy, PartialEq, Eq, PartialOrd, Ord, Hash, Structural)]
pub struct BodyId(u64);

impl View for BodyId {
    type V = u64;

    closed spec fn view(&self) -> u64 {
        self.0
    }
}

impl BodyId {
    /// Two identifiers are equal exactly when their raw values are.
    pub proof fn lemma_view_injective(a: Self, b: Self)
        ensures
            (a@ == b@) <==> a == b,
    {
    }

    #[inline(always)]
    pub fn new(raw: u64) -> (id: Self)
        ensures
            id@ == raw,
    {
        Self(raw)
    }

    #[inline(always)]
    pub fn raw(self) -> (r: u64)
        ensures
            r == self@,
    {
        self.0
    }

    #[inline(always)]
    pub fn from_raw(raw: u64) -> (id: Self)
        ensures
            id@ == raw,
    {
        Self(raw)
    }
}

} // verus!
