//! The supervised actor value.
//!
//! The supervision core never reconstructs an actor: across any number of
//! restarts the same value stays in its context's slot, and only the restart
//! hook of the `Supervised` capability runs. This model actor records what
//! that hook can observe — how many times it has been invoked — and whether
//! the actor implements the capability at all (absence makes the hook a
//! no-op, which is valid).

use vstd::prelude::*;

verus! {

/// One actor's state, owned by its context for the supervisor's lifetime.
#[derive(Clone, Copy, PartialEq, Eq, Structural, Debug)]
pub struct Actor {
    /// Whether the actor implements the `Supervised` restart hook.
    pub supervised: bool,
    /// How many times the restart hook has run; untouched for an actor
    /// without the capability.
    pub hook_calls: u64,
}

impl Actor {
    /// A fresh actor that implements the restart hook iff `supervised`.
    pub fn new(supervised: bool) -> (a: Actor)
        ensures
            a == (Actor { supervised, hook_calls: 0 }),
    {
        Actor { supervised, hook_calls: 0 }
    }

    /// The restart hook: invoked by the supervisor on every restart. An
    /// actor with the `Supervised` capability records the call; one without
    /// it is left untouched.
    pub fn restarting(&mut self)
        requires
            old(self).supervised ==> old(self).hook_calls < u64::MAX,
        ensures
            final(self).supervised == old(self).supervised,
            final(self).hook_calls == if old(self).supervised {
                old(self).hook_calls + 1
            } else {
                old(self).hook_calls as int
            },
    {
        if self.supervised {
            self.hook_calls = self.hook_calls + 1;
        }
    }
}

} // verus!
