//! Address handles.
//!
//! An `Addr` is a counted handle to one context's mailbox. The context's
//! registry keeps the count of outstanding handles; an `Addr` value itself
//! only names its target, so two handles to the same context compare equal
//! and route to the same mailbox. Handles are obtained and released through
//! the arbiter that owns the context, which keeps the count exact; an `Addr`
//! is deliberately neither `Copy` nor `Clone`.

use vstd::prelude::*;

verus! {

/// A counted handle to one context's mailbox.
#[derive(PartialEq, Eq, Structural, Debug)]
pub struct Addr {
    target: u64,
}

impl View for Addr {
    type V = u64;

    closed spec fn view(&self) -> u64 {
        self.target
    }
}

impl Addr {
    /// Wraps the identity of a context. Used by the construction paths when
    /// they hand out the first handle.
    pub(crate) fn new(target: u64) -> (a: Addr)
        ensures
            a@ == target,
    {
        Addr { target }
    }

    /// The identity of the context this handle routes to.
    pub fn target(&self) -> (t: u64)
        ensures
            t == self@,
    {
        self.target
    }
}

} // verus!
