//! Laws of the supervision core.
//!
//! Each proof function here states, over the same spec functions that the
//! executable contracts use, a guarantee of the restart policy as a whole:
//! what holds of any `poll` for any pending queue and any outstanding
//! handle count.

use vstd::prelude::*;

use crate::msgs::{Envelope, MsgKind, reply_of};
use crate::supervisor::{SupView, poll_spec, polled_view};

verus! {

/// How many pending messages would fail their handler.
pub open spec fn count_fails(q: Seq<Envelope>) -> nat
    decreases q.len(),
{
    if q.len() == 0 {
        0
    } else {
        count_fails(q.drop_first()) + if q[0].kind is Fail {
            1nat
        } else {
            0nat
        }
    }
}

/// While at least one address handle is held throughout, no `poll`
/// terminates the supervisor: however many times the handler fails, the
/// actor is restarted in place and the task only yields. An actor whose
/// handler always fails therefore restarts indefinitely and never reaches
/// the terminated state.
pub proof fn lemma_held_address_keeps_running(q: Seq<Envelope>, handles: nat)
    requires
        handles > 0,
    ensures
        !poll_spec(q, handles).ready,
    decreases q.len(),
{
    if q.len() > 0 {
        lemma_held_address_keeps_running(q.drop_first(), handles);
    }
}

/// While at least one address handle is held, one `poll` answers every
/// pending message, in order: a message whose handler fails resolves to a
/// cancelled reply — it is not recovered or replayed — and every other
/// message, including any sent after a failure, is processed normally.
pub proof fn lemma_every_message_answered(q: Seq<Envelope>, handles: nat)
    requires
        handles > 0,
    ensures
        poll_spec(q, handles).replies == q.map_values(|e: Envelope| reply_of(e)),
    decreases q.len(),
{
    if q.len() == 0 {
        assert(q.map_values(|e: Envelope| reply_of(e)) =~= Seq::<
            crate::msgs::Reply,
        >::empty());
    } else {
        let rest = q.drop_first();
        lemma_every_message_answered(rest, handles);
        lemma_held_address_keeps_running(rest, handles);
        assert(q.map_values(|e: Envelope| reply_of(e)) =~= seq![reply_of(q[0])]
            + rest.map_values(|e: Envelope| reply_of(e)));
    }
}

/// While at least one address handle is held and no message requests a
/// stop, the restart hook runs exactly once per handler failure: after a
/// `poll` over a queue in which the handler fails `k` times, the hook's
/// call counter has advanced by exactly `k`.
pub proof fn lemma_hook_runs_once_per_failure(q: Seq<Envelope>, handles: nat)
    requires
        handles > 0,
        forall|i: int| 0 <= i < q.len() ==> !((#[trigger] q[i]).kind is Stop),
    ensures
        poll_spec(q, handles).restarts == count_fails(q),
    decreases q.len(),
{
    if q.len() > 0 {
        let rest = q.drop_first();
        assert forall|i: int| 0 <= i < rest.len() implies !((#[trigger] rest[i]).kind
            is Stop) by {
            assert(rest[i] == q[i + 1]);
        }
        lemma_hook_runs_once_per_failure(rest, handles);
    }
}

/// Once no address handle is outstanding, a `poll` always terminates the
/// supervisor: pending work is still drained and answered, and the task
/// then reports ready instead of yielding. In particular, dropping every
/// handle to an otherwise idle actor terminates it.
pub proof fn lemma_disconnected_poll_terminates(q: Seq<Envelope>)
    ensures
        poll_spec(q, 0).ready,
    decreases q.len(),
{
    if q.len() > 0 {
        lemma_disconnected_poll_terminates(q.drop_first());
    }
}

/// Restart never changes the actor's address identity: whatever a `poll`
/// does — any number of restarts included — it leaves the context's
/// identity, mailbox capacity, and outstanding handle count untouched, so a
/// handle captured before a forced failure and one captured after compare
/// equal and route to the same mailbox.
pub proof fn lemma_restart_preserves_identity(s: SupView)
    ensures
        polled_view(s).ctx.id == s.ctx.id,
        polled_view(s).ctx.cap == s.ctx.cap,
        polled_view(s).ctx.handles == s.ctx.handles,
{
}

} // verus!
