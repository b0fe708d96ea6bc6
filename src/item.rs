use vstd::prelude::*;

verus! {

/// A type whose instances can be recycled by a pool: it can be created in a
/// canonical state, and any instance can be brought back to that state.
pub trait PoolItem: Sized + View {
    /// The abstract state of a freshly created instance.
    spec fn initial() -> Self::V;

    /// Creates an instance in the canonical state.
    fn new() -> (r: Self)
        ensures
            r@ == Self::initial(),
    ;

    /// Brings the instance back to the canonical state, whatever was done to it.
    fn reset(&mut self)
        ensures
            final(self)@ == Self::initial(),
    ;
}

/// A small counter, the simplest item worth pooling.
pub struct Counter {
    value: usize,
}

impl View for Counter {
    type V = nat;

    closed spec fn view(&self) -> nat {
        self.value as nat
    }
}

impl Counter {
    /// The current count.
    pub fn get(&self) -> (r: usize)
        ensures
            r as nat == self@,
    {
        self.value
    }

    /// Adds one to the count.
    pub fn inc(&mut self)
        requires
            old(self)@ < usize::MAX,
        ensures
            final(self)@ == old(self)@ + 1,
    {
        self.value = self.value + 1;
    }
}

impl PoolItem for Counter {
    open spec fn initial() -> nat {
        0
    }

    fn new() -> (r: Counter) {
        Counter { value: 0 }
    }

    fn reset(&mut self) {
        self.value = 0;
    }
}

} // verus!
