//! Execution context: one actor's mailbox, actor value, and address registry.
//!
//! The context exposes a single `drive` operation that processes as much
//! pending work as is currently available and reports whether it suspended
//! normally, completed, or failed, plus the `restart` decision the supervisor
//! takes on every completion or failure boundary. A context's identity — and
//! hence the addresses that route to it — is stable across restarts.

use vstd::prelude::*;

use crate::actor::Actor;
use crate::address::Addr;
use crate::mailbox::Mailbox;
use crate::msgs::{Delivery, Envelope, MsgKind, Reply, reply_of};

verus! {

/// What one `drive` call reports to the supervisor.
#[derive(Clone, Copy, PartialEq, Eq, Structural, Debug)]
pub enum DriveStatus {
    /// No work is currently available: the cooperative yield point.
    Suspended,
    /// Processing naturally finished — a stop was requested, or nothing is
    /// pending and no handle is outstanding.
    Completed,
    /// An unrecoverable error occurred while handling the current message.
    Failed,
}

/// Mathematical state of a context.
pub struct CtxView {
    /// Stable identity; what an `Addr` routes by.
    pub id: u64,
    /// Mailbox capacity, fixed at construction.
    pub cap: nat,
    /// Pending messages, oldest first.
    pub q: Seq<Envelope>,
    /// Outstanding address handles.
    pub handles: nat,
    /// Whether a processed message asked the context to stop.
    pub stop: bool,
    /// The owned actor value.
    pub actor: Actor,
    /// Replies recorded so far, in processing order.
    pub replies: Seq<Reply>,
}

/// Connected means at least one outstanding handle, or pending work.
pub open spec fn connected(c: CtxView) -> bool {
    c.handles > 0 || c.q.len() > 0
}

/// Everything one `drive` call changes: the status it reports, the messages
/// left pending, the replies it appends, and the stop flag it leaves behind.
pub struct DriveEffect {
    pub status: DriveStatus,
    pub q: Seq<Envelope>,
    pub replies: Seq<Reply>,
    pub stop: bool,
}

/// Exact effect of `drive` on a context with pending messages `q`, stop flag
/// `stop` and `handles` outstanding handles: messages are taken in FIFO
/// order; each handled message gets a `Processed` reply; a failing message
/// gets a `Cancelled` reply and stops the sweep; a stop request completes the
/// sweep; an empty mailbox suspends while a handle is outstanding and
/// completes once none is.
pub open spec fn drive_spec(q: Seq<Envelope>, stop: bool, handles: nat) -> DriveEffect
    decreases q.len(),
{
    if stop {
        DriveEffect { status: DriveStatus::Completed, q, replies: Seq::empty(), stop: true }
    } else if q.len() == 0 {
        if handles > 0 {
            DriveEffect { status: DriveStatus::Suspended, q, replies: Seq::empty(), stop: false }
        } else {
            DriveEffect { status: DriveStatus::Completed, q, replies: Seq::empty(), stop: false }
        }
    } else {
        let env = q[0];
        let rest = q.drop_first();
        match env.kind {
            MsgKind::Work => {
                let d = drive_spec(rest, false, handles);
                DriveEffect {
                    status: d.status,
                    q: d.q,
                    replies: seq![reply_of(env)] + d.replies,
                    stop: d.stop,
                }
            },
            MsgKind::Stop => DriveEffect {
                status: DriveStatus::Completed,
                q: rest,
                replies: seq![reply_of(env)],
                stop: true,
            },
            MsgKind::Fail => DriveEffect {
                status: DriveStatus::Failed,
                q: rest,
                replies: seq![reply_of(env)],
                stop: false,
            },
        }
    }
}

/// Bundles one actor's mailbox, its owned actor value, and its address
/// registry; exclusively owned by one supervisor.
pub struct Context {
    id: u64,
    mailbox: Mailbox,
    handles: usize,
    stop_requested: bool,
    actor: Actor,
    replies: Vec<Reply>,
}

impl View for Context {
    type V = CtxView;

    closed spec fn view(&self) -> CtxView {
        CtxView {
            id: self.id,
            cap: self.mailbox.spec_capacity(),
            q: self.mailbox@,
            handles: self.handles as nat,
            stop: self.stop_requested,
            actor: self.actor,
            replies: self.replies@,
        }
    }
}

impl Context {
    pub open spec fn wf(&self) -> bool {
        self@.q.len() <= self@.cap
    }

    /// A fresh context with identity `id` and a new default-capacity
    /// mailbox; no handle is outstanding yet and no actor is attached
    /// (the slot holds an inert placeholder until `set_actor`).
    pub fn new(id: u64) -> (c: Context)
        ensures
            c@ == (CtxView {
                id,
                cap: crate::mailbox::DEFAULT_CAPACITY as nat,
                q: Seq::<Envelope>::empty(),
                handles: 0nat,
                stop: false,
                actor: Actor { supervised: false, hook_calls: 0 },
                replies: Seq::<Reply>::empty(),
            }),
            c.wf(),
    {
        Context {
            id,
            mailbox: Mailbox::with_default_capacity(),
            handles: 0,
            stop_requested: false,
            actor: Actor::new(false),
            replies: Vec::new(),
        }
    }

    /// A fresh context built around a pre-created receiving end: the channel
    /// pair allocated by a remote start becomes this context's mailbox, so
    /// messages buffered before construction are preserved, oldest first,
    /// and `handles` handles already count as outstanding.
    pub fn with_receiver(id: u64, receiver: Mailbox, handles: usize) -> (c: Context)
        requires
            receiver.wf(),
        ensures
            c@ == (CtxView {
                id,
                cap: receiver.spec_capacity(),
                q: receiver@,
                handles: handles as nat,
                stop: false,
                actor: Actor { supervised: false, hook_calls: 0 },
                replies: Seq::<Reply>::empty(),
            }),
            c.wf(),
    {
        Context {
            id,
            mailbox: receiver,
            handles,
            stop_requested: false,
            actor: Actor::new(false),
            replies: Vec::new(),
        }
    }

    /// Attaches the constructed actor value; used only during startup.
    pub fn set_actor(&mut self, actor: Actor)
        ensures
            final(self)@ == (CtxView { actor, ..old(self)@ }),
    {
        self.actor = actor;
    }

    /// Hands out one more handle to this context's mailbox.
    pub fn address(&mut self) -> (a: Addr)
        requires
            old(self)@.handles < usize::MAX,
        ensures
            final(self)@ == (CtxView { handles: old(self)@.handles + 1, ..old(self)@ }),
            a@ == final(self)@.id,
    {
        self.handles = self.handles + 1;
        Addr::new(self.id)
    }

    /// Releases one handle; the count never goes below zero.
    pub fn release_address(&mut self)
        ensures
            final(self)@ == (CtxView {
                handles: if old(self)@.handles > 0 { (old(self)@.handles - 1) as nat } else { 0nat },
                ..old(self)@
            }),
    {
        if self.handles > 0 {
            self.handles = self.handles - 1;
        }
    }

    /// Enqueues `env`, unless the mailbox is at capacity.
    pub fn enqueue(&mut self, env: Envelope) -> (ok: bool)
        requires
            old(self).wf(),
        ensures
            final(self).wf(),
            ok == (old(self)@.q.len() < old(self)@.cap),
            ok ==> final(self)@ == (CtxView { q: old(self)@.q.push(env), ..old(self)@ }),
            !ok ==> final(self)@ == old(self)@,
    {
        self.mailbox.try_enqueue(env)
    }

    pub fn is_connected(&self) -> (b: bool)
        ensures
            b == connected(self@),
    {
        self.handles > 0 || self.mailbox.len() > 0
    }

    /// Processes as much pending work as is currently available and reports
    /// how the sweep ended; the exact effect is `drive_spec`.
    pub fn drive(&mut self) -> (status: DriveStatus)
        requires
            old(self).wf(),
        ensures
            final(self).wf(),
            ({
                let d = drive_spec(old(self)@.q, old(self)@.stop, old(self)@.handles);
                &&& status == d.status
                &&& final(self)@.q == d.q
                &&& final(self)@.stop == d.stop
                &&& final(self)@.replies == old(self)@.replies + d.replies
                &&& final(self)@.id == old(self)@.id
                &&& final(self)@.cap == old(self)@.cap
                &&& final(self)@.handles == old(self)@.handles
                &&& final(self)@.actor == old(self)@.actor
            }),
    {
        let ghost c0 = self@;
        loop
            invariant
                c0 == old(self)@,
                self.wf(),
                self@.id == c0.id,
                self@.cap == c0.cap,
                self@.handles == c0.handles,
                self@.actor == c0.actor,
                ({
                    let d0 = drive_spec(c0.q, c0.stop, c0.handles);
                    let d = drive_spec(self@.q, self@.stop, self@.handles);
                    &&& d0.status == d.status
                    &&& d0.q == d.q
                    &&& d0.stop == d.stop
                    &&& c0.replies + d0.replies == self@.replies + d.replies
                }),
            decreases self@.q.len(),
        {
            if self.stop_requested {
                assert(c0.replies + drive_spec(c0.q, c0.stop, c0.handles).replies =~= self@.replies);
                return DriveStatus::Completed;
            }
            match self.mailbox.dequeue() {
                None => {
                    assert(c0.replies + drive_spec(c0.q, c0.stop, c0.handles).replies =~= self@.replies);
                    if self.handles > 0 {
                        return DriveStatus::Suspended;
                    } else {
                        return DriveStatus::Completed;
                    }
                },
                Some(env) => {
                    let ghost pre = self@;
                    match env.kind {
                        MsgKind::Work => {
                            self.replies.push(Reply { id: env.id, delivery: Delivery::Processed });
                            proof {
                                let d0 = drive_spec(c0.q, c0.stop, c0.handles);
                                let d = drive_spec(self@.q, self@.stop, self@.handles);
                                assert(c0.replies + d0.replies =~= self@.replies + d.replies);
                            }
                        },
                        MsgKind::Stop => {
                            self.replies.push(Reply { id: env.id, delivery: Delivery::Processed });
                            self.stop_requested = true;
                            proof {
                                let d0 = drive_spec(c0.q, c0.stop, c0.handles);
                                assert(c0.replies + d0.replies =~= self@.replies);
                            }
                            return DriveStatus::Completed;
                        },
                        MsgKind::Fail => {
                            self.replies.push(Reply { id: env.id, delivery: Delivery::Cancelled });
                            proof {
                                let d0 = drive_spec(c0.q, c0.stop, c0.handles);
                                assert(c0.replies + d0.replies =~= self@.replies);
                            }
                            return DriveStatus::Failed;
                        },
                    }
                },
            }
        }
    }

    /// The restart decision taken on every completion or failure boundary:
    /// while still connected, run the actor's restart hook, clear any stop
    /// request, and report that driving should continue; once disconnected,
    /// leave everything untouched and report that the supervisor should
    /// terminate.
    pub fn restart(&mut self) -> (alive: bool)
        requires
            old(self).wf(),
            old(self)@.actor.supervised && connected(old(self)@) ==> old(self)@.actor.hook_calls
                < u64::MAX,
        ensures
            final(self).wf(),
            alive == connected(old(self)@),
            !alive ==> final(self)@ == old(self)@,
            alive ==> final(self)@ == (CtxView {
                stop: false,
                actor: Actor {
                    supervised: old(self)@.actor.supervised,
                    hook_calls: if old(self)@.actor.supervised {
                        (old(self)@.actor.hook_calls + 1) as u64
                    } else {
                        old(self)@.actor.hook_calls
                    },
                },
                ..old(self)@
            }),
    {
        if self.is_connected() {
            self.actor.restarting();
            self.stop_requested = false;
            true
        } else {
            false
        }
    }

    pub fn id(&self) -> (i: u64)
        ensures
            i == self@.id,
    {
        self.id
    }

    pub fn mailbox_len(&self) -> (n: usize)
        ensures
            n == self@.q.len(),
    {
        self.mailbox.len()
    }

    pub fn mailbox_capacity(&self) -> (c: usize)
        ensures
            c as nat == self@.cap,
    {
        self.mailbox.capacity()
    }

    pub fn handle_count(&self) -> (n: usize)
        ensures
            n as nat == self@.handles,
    {
        self.handles
    }

    pub fn actor_state(&self) -> (a: Actor)
        ensures
            a == self@.actor,
    {
        self.actor
    }

    pub fn reply_count(&self) -> (n: usize)
        ensures
            n == self@.replies.len(),
    {
        self.replies.len()
    }

    pub fn reply_at(&self, i: usize) -> (r: Option<Reply>)
        ensures
            i < self@.replies.len() ==> r == Some(self@.replies[i as int]),
            i >= self@.replies.len() ==> r is None,
    {
        if i < self.replies.len() {
            Some(self.replies[i])
        } else {
            None
        }
    }
}

} // verus!
