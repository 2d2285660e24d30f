//! Actor supervisor.
//!
//! A supervisor manages incoming messages for one actor. If the actor fails,
//! the supervisor does not re-create it: it only runs the actor's restart
//! hook in the same context and keeps driving. The supervisor has the same
//! lifecycle as its actor: once every address handle is dropped and no work
//! is pending, it terminates. A supervisor cannot guarantee that a message
//! is processed successfully — a message in flight when the actor fails is
//! not recovered, and its sender observes a cancelled reply.

use vstd::prelude::*;

use crate::actor::Actor;
use crate::address::Addr;
use crate::arbiter::Arbiter;
use crate::context::{Context, CtxView, DriveStatus, connected, drive_spec};
use crate::mailbox::{DEFAULT_CAPACITY, Mailbox};
use crate::msgs::{Envelope, ExecView, Execute, MsgKind, Reply, reply_of};

verus! {

/// Externally visible supervisor states; `Terminated` is absorbing.
#[derive(Clone, Copy, PartialEq, Eq, Structural, Debug)]
pub enum SupervisorState {
    Running,
    Terminated,
}

/// What one `poll` call reports to the hosting scheduler.
#[derive(Clone, Copy, PartialEq, Eq, Structural, Debug)]
pub enum PollStatus {
    /// The task yielded; the scheduler polls again when new work arrives.
    NotReady,
    /// The task is finished; the scheduler releases it.
    Ready,
}

/// Mathematical state of a supervisor.
pub struct SupView {
    pub ctx: CtxView,
    pub state: SupervisorState,
}

/// Everything one `poll` call amounts to: whether the task finished, the
/// replies recorded, and how many times the restart decision ran the hook.
pub struct PollEffect {
    pub ready: bool,
    pub replies: Seq<Reply>,
    pub restarts: nat,
    /// Whether the boundary that ended the call was an explicit stop
    /// request; only meaningful when the call terminated the task.
    pub stopped: bool,
}

/// Exact effect of `poll` on a running supervisor whose context holds
/// pending messages `q` and `handles` outstanding handles. Messages are
/// consumed in order; every completion or failure boundary at which the
/// context is still connected (a handle outstanding, or work still pending)
/// restarts the actor in place and keeps driving within the same call; the
/// first boundary at which the context is disconnected terminates the task.
/// With no boundary left, the task yields — or terminates if nothing is
/// pending and no handle remains.
pub open spec fn poll_spec(q: Seq<Envelope>, handles: nat) -> PollEffect
    decreases q.len(),
{
    if q.len() == 0 {
        PollEffect { ready: handles == 0, replies: Seq::empty(), restarts: 0, stopped: false }
    } else {
        let env = q[0];
        let rest = q.drop_first();
        match env.kind {
            MsgKind::Work => {
                let p = poll_spec(rest, handles);
                PollEffect {
                    ready: p.ready,
                    replies: seq![reply_of(env)] + p.replies,
                    restarts: p.restarts,
                    stopped: p.stopped,
                }
            },
            _ => {
                if handles > 0 || rest.len() > 0 {
                    let p = poll_spec(rest, handles);
                    PollEffect {
                        ready: p.ready,
                        replies: seq![reply_of(env)] + p.replies,
                        restarts: (p.restarts + 1) as nat,
                        stopped: p.stopped,
                    }
                } else {
                    PollEffect {
                        ready: true,
                        replies: seq![reply_of(env)],
                        restarts: 0,
                        stopped: env.kind is Stop,
                    }
                }
            },
        }
    }
}

/// The restart decision never runs the hook more often than there were
/// pending messages: each restart consumes at least the message at whose
/// boundary it happened.
pub proof fn lemma_poll_spec_restarts_bounded(q: Seq<Envelope>, handles: nat)
    ensures
        poll_spec(q, handles).restarts <= q.len(),
    decreases q.len(),
{
    if q.len() > 0 {
        lemma_poll_spec_restarts_bounded(q.drop_first(), handles);
    }
}

/// One `drive` sweep never grows the pending queue, and any sweep that does
/// not suspend consumes at least one message (when one was pending and no
/// stop was carried in).
pub proof fn lemma_drive_spec_len(q: Seq<Envelope>, stop: bool, handles: nat)
    ensures
        drive_spec(q, stop, handles).q.len() <= q.len(),
        (!stop && q.len() > 0 && drive_spec(q, stop, handles).status != DriveStatus::Suspended)
            ==> drive_spec(q, stop, handles).q.len() < q.len(),
        drive_spec(q, stop, handles).status == DriveStatus::Suspended
            ==> drive_spec(q, stop, handles).q.len() == 0 && !drive_spec(q, stop, handles).stop,
    decreases q.len(),
{
    if !stop && q.len() > 0 {
        lemma_drive_spec_len(q.drop_first(), false, handles);
    }
}

/// How one `drive` sweep followed by the restart decision advances the
/// overall `poll` effect: a suspension ends the call with the sweep's
/// replies; a completion or failure boundary with the context still
/// connected restarts once and continues on the remaining messages; one with
/// the context disconnected terminates the call.
pub proof fn lemma_drive_then_policy(q: Seq<Envelope>, handles: nat)
    ensures
        ({
            let d = drive_spec(q, false, handles);
            let p = poll_spec(q, handles);
            let pr = poll_spec(d.q, handles);
            &&& d.status == DriveStatus::Suspended ==> p == (PollEffect {
                ready: false,
                replies: d.replies,
                restarts: 0,
                stopped: false,
            })
            &&& d.status != DriveStatus::Suspended && (handles > 0 || d.q.len() > 0) ==> p
                == (PollEffect {
                ready: pr.ready,
                replies: d.replies + pr.replies,
                restarts: (pr.restarts + 1) as nat,
                stopped: pr.stopped,
            })
            &&& d.status != DriveStatus::Suspended && handles == 0 && d.q.len() == 0 ==> p
                == (PollEffect { ready: true, replies: d.replies, restarts: 0, stopped: d.stop })
        }),
    decreases q.len(),
{
    let d = drive_spec(q, false, handles);
    let p = poll_spec(q, handles);
    if q.len() == 0 {
        assert(d.replies =~= p.replies);
    } else if q[0].kind is Work {
        let rest = q.drop_first();
        lemma_drive_then_policy(rest, handles);
        if d.status == DriveStatus::Suspended {
            assert(p.replies =~= d.replies);
        } else if handles > 0 || d.q.len() > 0 {
            let pr = poll_spec(d.q, handles);
            assert(p.replies =~= d.replies + pr.replies);
        } else {
            assert(p.replies =~= d.replies);
        }
    } else {
        let rest = q.drop_first();
        if handles > 0 || rest.len() > 0 {
            let pr = poll_spec(rest, handles);
            assert(p.replies =~= d.replies + pr.replies);
        }
    }
}

/// The supervisor view after one `poll` call: a terminated supervisor is
/// untouched; a running one has consumed its whole pending queue, appended
/// the replies of `poll_spec`, run the restart hook `restarts` times, and
/// terminated exactly when the effect says so.
pub open spec fn polled_view(s: SupView) -> SupView {
    if s.state is Terminated {
        s
    } else {
        let p = poll_spec(s.ctx.q, s.ctx.handles);
        SupView {
            state: if p.ready {
                SupervisorState::Terminated
            } else {
                SupervisorState::Running
            },
            ctx: CtxView {
                id: s.ctx.id,
                cap: s.ctx.cap,
                q: Seq::empty(),
                handles: s.ctx.handles,
                stop: p.ready && p.stopped,
                actor: Actor {
                    supervised: s.ctx.actor.supervised,
                    hook_calls: if s.ctx.actor.supervised {
                        (s.ctx.actor.hook_calls + p.restarts) as u64
                    } else {
                        s.ctx.actor.hook_calls
                    },
                },
                replies: s.ctx.replies + p.replies,
            },
        }
    }
}

/// What one `poll` call reports for a supervisor in the given state.
pub open spec fn polled_status(s: SupView) -> PollStatus {
    if s.state is Terminated {
        PollStatus::Ready
    } else if poll_spec(s.ctx.q, s.ctx.handles).ready {
        PollStatus::Ready
    } else {
        PollStatus::NotReady
    }
}

/// A schedulable unit of cooperative work that owns exactly one context for
/// its entire lifetime and drives it, applying the restart policy on every
/// completion or failure boundary.
pub struct Supervisor {
    pub(crate) ctx: Context,
    pub(crate) state: SupervisorState,
}

impl View for Supervisor {
    type V = SupView;

    closed spec fn view(&self) -> SupView {
        SupView { ctx: self.ctx@, state: self.state }
    }
}

/// Relates a supervisor's view to its parts, for the modules of this crate
/// that own supervisors.
pub(crate) proof fn lemma_sup_view(s: &Supervisor)
    ensures
        s@.ctx == s.ctx@,
        s@.state == s.state,
{
}

impl Supervisor {
    /// The context never overfills its mailbox, and whenever the supervisor
    /// may still be driven, no stale stop request is carried in.
    pub open spec fn wf(&self) -> bool {
        &&& self@.ctx.q.len() <= self@.ctx.cap
        &&& self@.state is Running ==> !self@.ctx.stop
    }

    /// Wraps a freshly built context into a running supervisor task.
    pub(crate) fn from_context(ctx: Context) -> (s: Supervisor)
        requires
            ctx.wf(),
            !ctx@.stop,
        ensures
            s@ == (SupView { ctx: ctx@, state: SupervisorState::Running }),
            s.wf(),
    {
        Supervisor { ctx, state: SupervisorState::Running }
    }

    pub fn state(&self) -> (s: SupervisorState)
        ensures
            s == self@.state,
    {
        self.state
    }

    /// Shared access to the owned context, for observation.
    pub fn context(&self) -> (c: &Context)
        ensures
            c@ == self@.ctx,
    {
        &self.ctx
    }

    /// The scheduler's unit of cooperative work. Drives the context; on a
    /// suspension it yields, and on every completion or failure boundary it
    /// either restarts the actor in place (still connected) and keeps
    /// driving without yielding, or terminates (disconnected). Polling a
    /// terminated supervisor changes nothing and reports `Ready` at once.
    pub fn poll(&mut self) -> (status: PollStatus)
        requires
            old(self).wf(),
            old(self)@.state is Running && old(self)@.ctx.actor.supervised ==> old(
                self,
            )@.ctx.actor.hook_calls + old(self)@.ctx.q.len() <= u64::MAX,
        ensures
            final(self).wf(),
            old(self)@.state is Terminated ==> final(self)@ == old(self)@ && status
                == PollStatus::Ready,
            old(self)@.state is Running ==> ({
                let p = poll_spec(old(self)@.ctx.q, old(self)@.ctx.handles);
                &&& status == if p.ready {
                    PollStatus::Ready
                } else {
                    PollStatus::NotReady
                }
                &&& final(self)@.state == if p.ready {
                    SupervisorState::Terminated
                } else {
                    SupervisorState::Running
                }
                &&& final(self)@.ctx.q == Seq::<Envelope>::empty()
                &&& final(self)@.ctx.replies == old(self)@.ctx.replies + p.replies
                &&& final(self)@.ctx.actor.supervised == old(self)@.ctx.actor.supervised
                &&& final(self)@.ctx.actor.hook_calls == old(self)@.ctx.actor.hook_calls + (
                if old(self)@.ctx.actor.supervised {
                    p.restarts as int
                } else {
                    0
                })
                &&& final(self)@.ctx.id == old(self)@.ctx.id
                &&& final(self)@.ctx.cap == old(self)@.ctx.cap
                &&& final(self)@.ctx.handles == old(self)@.ctx.handles
                &&& final(self)@.ctx.stop == (p.ready && p.stopped)
            }),
    {
        match self.state {
            SupervisorState::Terminated => {
                return PollStatus::Ready;
            },
            SupervisorState::Running => {},
        }
        let ghost c0 = self@.ctx;
        let ghost p0 = poll_spec(c0.q, c0.handles);
        loop
            invariant
                c0 == old(self)@.ctx,
                old(self)@.state is Running,
                p0 == poll_spec(c0.q, c0.handles),
                self@.state is Running,
                !self@.ctx.stop,
                self@.ctx.q.len() <= self@.ctx.cap,
                self@.ctx.id == c0.id,
                self@.ctx.cap == c0.cap,
                self@.ctx.handles == c0.handles,
                self@.ctx.actor.supervised == c0.actor.supervised,
                c0.actor.supervised ==> self@.ctx.actor.hook_calls + self@.ctx.q.len()
                    <= u64::MAX,
                ({
                    let pc = poll_spec(self@.ctx.q, self@.ctx.handles);
                    &&& p0.ready == pc.ready
                    &&& p0.stopped == pc.stopped
                    &&& c0.replies + p0.replies == self@.ctx.replies + pc.replies
                    &&& c0.actor.hook_calls + (if c0.actor.supervised {
                        p0.restarts as int
                    } else {
                        0
                    }) == self@.ctx.actor.hook_calls + (if c0.actor.supervised {
                        pc.restarts as int
                    } else {
                        0
                    })
                }),
            decreases self@.ctx.q.len(),
        {
            let ghost qpre = self@.ctx.q;
            proof {
                lemma_drive_then_policy(qpre, c0.handles);
                lemma_drive_spec_len(qpre, false, c0.handles);
            }
            let ghost d = drive_spec(qpre, false, c0.handles);
            let status = self.ctx.drive();
            match status {
                DriveStatus::Suspended => {
                    proof {
                        let pc = poll_spec(qpre, c0.handles);
                        assert(c0.replies + p0.replies =~= self@.ctx.replies);
                    }
                    return PollStatus::NotReady;
                },
                DriveStatus::Completed | DriveStatus::Failed => {
                    let alive = self.ctx.restart();
                    if !alive {
                        self.state = SupervisorState::Terminated;
                        proof {
                            let pc = poll_spec(qpre, c0.handles);
                            assert(!connected(CtxView { q: d.q, ..c0 }));
                            assert(c0.replies + p0.replies =~= self@.ctx.replies);
                        }
                        return PollStatus::Ready;
                    }
                    proof {
                        let pc = poll_spec(qpre, c0.handles);
                        let pr = poll_spec(d.q, c0.handles);
                        assert(c0.replies + p0.replies =~= self@.ctx.replies + pr.replies);
                    }
                },
            }
        }
    }

    /// Starts a new supervised actor on the caller's current event loop:
    /// a context with a fresh default-capacity mailbox is built, the actor
    /// value is constructed and attached, a cross-thread-capable address is
    /// extracted, and a supervisor task wrapping the context is scheduled.
    /// The returned address is valid for sending immediately — messages
    /// queue in the mailbox up to capacity even before the supervisor first
    /// runs.
    pub fn start(arbiter: &mut Arbiter, actor: Actor) -> (addr: Addr)
        requires
            old(arbiter).wf(),
            old(arbiter)@.next_id < u64::MAX,
        ensures
            final(arbiter).wf(),
            addr@ == old(arbiter)@.next_id,
            final(arbiter)@.next_id == old(arbiter)@.next_id + 1,
            final(arbiter)@.executes == old(arbiter)@.executes,
            final(arbiter)@.tasks == old(arbiter)@.tasks.push(
                SupView {
                    ctx: CtxView {
                        id: old(arbiter)@.next_id,
                        cap: DEFAULT_CAPACITY as nat,
                        q: Seq::<Envelope>::empty(),
                        handles: 1nat,
                        stop: false,
                        actor,
                        replies: Seq::<Reply>::empty(),
                    },
                    state: SupervisorState::Running,
                },
            ),
    {
        arbiter.spawn_fresh(actor)
    }

    /// Starts a new supervised actor on another event loop. The bounded
    /// channel pair that will become the actor's mailbox is allocated on
    /// the calling side at default capacity; a one-shot `Execute` request
    /// carrying its receiving end and the actor travels to the target loop,
    /// which builds the context, attaches the actor, and schedules the
    /// supervisor when it processes the request. An address wrapping the
    /// sending end returns at once: messages sent before the request runs
    /// are buffered in the channel up to capacity, and further sends
    /// backpressure until the remote context begins draining. If the
    /// target loop never processes the request, nothing retries it.
    pub fn start_in(arbiter: &mut Arbiter, actor: Actor) -> (addr: Addr)
        requires
            old(arbiter).wf(),
            old(arbiter)@.next_id < u64::MAX,
        ensures
            final(arbiter).wf(),
            addr@ == old(arbiter)@.next_id,
            final(arbiter)@.next_id == old(arbiter)@.next_id + 1,
            final(arbiter)@.tasks == old(arbiter)@.tasks,
            final(arbiter)@.executes == old(arbiter)@.executes.push(
                ExecView {
                    id: old(arbiter)@.next_id,
                    cap: DEFAULT_CAPACITY as nat,
                    buffer: Seq::<Envelope>::empty(),
                    handles: 1nat,
                    actor,
                },
            ),
    {
        arbiter.spawn_remote(actor)
    }
}

} // verus!
