//! Messages and per-message outcomes.
//!
//! Every message carries an identifier chosen by its sender, so that the
//! sender can later observe the reply recorded for that identifier, and a
//! kind that fixes how the actor's handler reacts to it: handle it normally,
//! fail while handling it, or ask the context to stop.

use vstd::prelude::*;

use crate::actor::Actor;
use crate::mailbox::Mailbox;

verus! {

/// How the actor's handler reacts to a message.
#[derive(Clone, Copy, PartialEq, Eq, Structural, Debug)]
pub enum MsgKind {
    /// The handler processes the message successfully.
    Work,
    /// The handler fails (an unrecoverable error) while processing it.
    Fail,
    /// The handler processes it and requests that the context stop.
    Stop,
}

/// One message in flight: a sender-chosen identifier plus its kind.
#[derive(Clone, Copy, PartialEq, Eq, Structural, Debug)]
pub struct Envelope {
    pub id: u64,
    pub kind: MsgKind,
}

/// What the sender of a message eventually observes for it.
#[derive(Clone, Copy, PartialEq, Eq, Structural, Debug)]
pub enum Delivery {
    /// The handler ran to completion on this message.
    Processed,
    /// The actor failed while this message was in flight; it is not replayed.
    Cancelled,
}

/// The reply recorded for one message.
#[derive(Clone, Copy, PartialEq, Eq, Structural, Debug)]
pub struct Reply {
    pub id: u64,
    pub delivery: Delivery,
}

/// Why a send did not enqueue its message.
#[derive(Clone, Copy, PartialEq, Eq, Structural, Debug)]
pub enum SendError {
    /// The mailbox is at capacity; a cross-thread sender blocks until the
    /// context drains, which this core reports as backpressure.
    MailboxFull,
    /// The target context no longer exists or its channel closed.
    Disconnected,
}

/// The delivery a sender observes for a message of the given kind, once the
/// actor reaches that message.
pub open spec fn delivery_of(kind: MsgKind) -> Delivery {
    match kind {
        MsgKind::Fail => Delivery::Cancelled,
        _ => Delivery::Processed,
    }
}

/// The reply recorded for an envelope once the actor reaches it.
pub open spec fn reply_of(env: Envelope) -> Reply {
    Reply { id: env.id, delivery: delivery_of(env.kind) }
}

/// Mathematical state of a pending `Execute` request.
pub struct ExecView {
    /// The identity the constructed context will carry.
    pub id: u64,
    /// Capacity of the pre-created channel.
    pub cap: nat,
    /// Messages buffered in the channel before construction, oldest first.
    pub buffer: Seq<Envelope>,
    /// Handles already handed out on the sending side.
    pub handles: nat,
    /// The actor value to attach on the target loop.
    pub actor: Actor,
}

/// A one-shot deferred-construction request, sent to a target event loop and
/// consumed exactly once by it; it is never retried. It carries the
/// receiving end of the channel pair allocated by the caller — the future
/// mailbox transport, possibly already holding buffered messages — together
/// with the handle count of the sending side and the actor to construct.
pub struct Execute {
    pub(crate) id: u64,
    pub(crate) buffer: Mailbox,
    pub(crate) handles: usize,
    pub(crate) actor: Actor,
}

/// Relates a pending request's view to its parts, for the modules of this
/// crate that own requests.
pub(crate) proof fn lemma_exec_view(e: &Execute)
    ensures
        e@.id == e.id,
        e@.cap == e.buffer.spec_capacity(),
        e@.buffer == e.buffer@,
        e@.handles == e.handles as nat,
        e@.actor == e.actor,
{
}

impl Execute {
    /// The identity the constructed context will carry.
    pub(crate) fn buffer_id(&self) -> (i: u64)
        ensures
            i == self@.id,
    {
        self.id
    }
}

impl View for Execute {
    type V = ExecView;

    closed spec fn view(&self) -> ExecView {
        ExecView {
            id: self.id,
            cap: self.buffer.spec_capacity(),
            buffer: self.buffer@,
            handles: self.handles as nat,
            actor: self.actor,
        }
    }
}

} // verus!
