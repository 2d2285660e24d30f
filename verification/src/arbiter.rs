//! Event loop ("arbiter").
//!
//! A single-threaded, non-preemptive cooperative scheduler. It owns the
//! supervisor tasks scheduled onto it and the queue of one-shot `Execute`
//! requests other threads have sent it, and it routes sends: an address
//! reaches either a scheduled task's mailbox or the channel buffer of a
//! construction that has not run yet. Only one task runs at any instant;
//! a task never migrates to another loop.

use vstd::prelude::*;

use crate::actor::Actor;
use crate::address::Addr;
use crate::context::{Context, CtxView, connected};
use crate::mailbox::{DEFAULT_CAPACITY, Mailbox};
use crate::msgs::{Envelope, ExecView, Execute, Reply, SendError};
use crate::msgs::lemma_exec_view;
use crate::supervisor::{
    PollStatus, SupView, Supervisor, SupervisorState, lemma_poll_spec_restarts_bounded,
    lemma_sup_view, poll_spec, polled_status, polled_view,
};

verus! {

/// Mathematical state of an event loop.
pub struct ArbView {
    /// Scheduled supervisor tasks, in scheduling order.
    pub tasks: Seq<SupView>,
    /// Pending one-shot construction requests, oldest first.
    pub executes: Seq<ExecView>,
    /// Source of fresh context identities.
    pub next_id: u64,
}

/// Per-task well-formedness, as the loop maintains it.
pub open spec fn task_ok(t: SupView, next_id: u64) -> bool {
    &&& t.ctx.q.len() <= t.ctx.cap
    &&& t.state is Running ==> !t.ctx.stop
    &&& t.ctx.id < next_id
}

/// Per-request well-formedness, as the loop maintains it.
pub open spec fn exec_ok(e: ExecView, next_id: u64) -> bool {
    &&& e.buffer.len() <= e.cap
    &&& e.id < next_id
}

/// Every task and pending request is well formed, and identities are unique
/// across both, so an address routes to at most one mailbox.
pub open spec fn arb_wf(v: ArbView) -> bool {
    &&& forall|i: int| 0 <= i < v.tasks.len() ==> task_ok(#[trigger] v.tasks[i], v.next_id)
    &&& forall|j: int|
        0 <= j < v.executes.len() ==> exec_ok(#[trigger] v.executes[j], v.next_id)
    &&& forall|i1: int, i2: int|
        0 <= i1 < v.tasks.len() && 0 <= i2 < v.tasks.len() && i1 != i2 ==> (
        #[trigger] v.tasks[i1]).ctx.id != (#[trigger] v.tasks[i2]).ctx.id
    &&& forall|j1: int, j2: int|
        0 <= j1 < v.executes.len() && 0 <= j2 < v.executes.len() && j1 != j2 ==> (
        #[trigger] v.executes[j1]).id != (#[trigger] v.executes[j2]).id
    &&& forall|i: int, j: int|
        0 <= i < v.tasks.len() && 0 <= j < v.executes.len() ==> (#[trigger] v.tasks[i]).ctx.id
            != (#[trigger] v.executes[j]).id
}

/// Whether some scheduled task carries the identity `id`.
pub open spec fn task_has(tasks: Seq<SupView>, id: u64) -> bool {
    exists|i: int| 0 <= i < tasks.len() && (#[trigger] tasks[i]).ctx.id == id
}

/// The index of the scheduled task carrying `id`; meaningful under
/// `task_has` and, with unique identities, unique.
pub open spec fn task_index(tasks: Seq<SupView>, id: u64) -> int {
    choose|i: int| 0 <= i < tasks.len() && (#[trigger] tasks[i]).ctx.id == id
}

/// Whether some pending request carries the identity `id`.
pub open spec fn exec_has(executes: Seq<ExecView>, id: u64) -> bool {
    exists|j: int| 0 <= j < executes.len() && (#[trigger] executes[j]).id == id
}

/// The index of the pending request carrying `id`.
pub open spec fn exec_index(executes: Seq<ExecView>, id: u64) -> int {
    choose|j: int| 0 <= j < executes.len() && (#[trigger] executes[j]).id == id
}

/// Single-threaded cooperative event loop.
pub struct Arbiter {
    pub(crate) tasks: Vec<Supervisor>,
    pub(crate) executes: Vec<Execute>,
    pub(crate) next_id: u64,
}

impl View for Arbiter {
    type V = ArbView;

    closed spec fn view(&self) -> ArbView {
        ArbView {
            tasks: self.tasks@.map_values(|s: Supervisor| s@),
            executes: self.executes@.map_values(|e: Execute| e@),
            next_id: self.next_id,
        }
    }
}

impl Arbiter {
    pub open spec fn wf(&self) -> bool {
        arb_wf(self@)
    }

    /// A fresh event loop with nothing scheduled.
    pub fn new() -> (a: Arbiter)
        ensures
            a@.tasks == Seq::<SupView>::empty(),
            a@.executes == Seq::<ExecView>::empty(),
            a@.next_id == 0,
            a.wf(),
    {
        let a = Arbiter { tasks: Vec::new(), executes: Vec::new(), next_id: 0 };
        proof {
            assert(a@.tasks =~= Seq::<SupView>::empty());
            assert(a@.executes =~= Seq::<ExecView>::empty());
        }
        a
    }

    pub fn task_count(&self) -> (n: usize)
        ensures
            n == self@.tasks.len(),
    {
        self.tasks.len()
    }

    pub fn pending_execute_count(&self) -> (n: usize)
        ensures
            n == self@.executes.len(),
    {
        self.executes.len()
    }

    /// Shared access to a scheduled task, for observation.
    pub fn task_at(&self, i: usize) -> (t: &Supervisor)
        requires
            i < self@.tasks.len(),
        ensures
            t@ == self@.tasks[i as int],
    {
        &self.tasks[i]
    }

    /// Index of the scheduled task an address routes to, if any.
    fn find_task_idx(&self, id: u64) -> (r: Option<usize>)
        ensures
            match r {
                Some(i) => i < self@.tasks.len() && self@.tasks[i as int].ctx.id == id,
                None => !task_has(self@.tasks, id),
            },
    {
        let n = self.tasks.len();
        let mut k: usize = 0;
        while k < n
            invariant
                k <= n,
                n == self@.tasks.len(),
                forall|m: int| 0 <= m < k ==> (#[trigger] self@.tasks[m]).ctx.id != id,
            decreases n - k,
        {
            let t: &Supervisor = &self.tasks[k];
            if t.context().id() == id {
                return Some(k);
            }
            k = k + 1;
        }
        None
    }

    /// Index of the pending request an address routes to, if any.
    fn find_exec_idx(&self, id: u64) -> (r: Option<usize>)
        ensures
            match r {
                Some(j) => j < self@.executes.len() && self@.executes[j as int].id == id,
                None => !exec_has(self@.executes, id),
            },
    {
        let n = self.executes.len();
        let mut k: usize = 0;
        while k < n
            invariant
                k <= n,
                n == self@.executes.len(),
                forall|m: int| 0 <= m < k ==> (#[trigger] self@.executes[m]).id != id,
            decreases n - k,
        {
            let e: &Execute = &self.executes[k];
            if e.buffer_id() == id {
                return Some(k);
            }
            k = k + 1;
        }
        None
    }

    /// Sends a message through an address. It is enqueued into the mailbox
    /// of the scheduled task the address routes to, or buffered in the
    /// channel of a construction that has not run yet; a full mailbox is
    /// reported as backpressure, and an address whose target terminated or
    /// never existed as disconnected. Messages sent through a single
    /// address are enqueued in send order.
    pub fn send(&mut self, addr: &Addr, env: Envelope) -> (r: Result<(), SendError>)
        requires
            old(self).wf(),
        ensures
            final(self).wf(),
            final(self)@.next_id == old(self)@.next_id,
            ({
                let v = old(self)@;
                let id = addr@;
                if task_has(v.tasks, id) {
                    let i = task_index(v.tasks, id);
                    let t = v.tasks[i];
                    if t.state is Terminated {
                        r == Err::<(), SendError>(SendError::Disconnected) && final(self)@ == v
                    } else if t.ctx.q.len() < t.ctx.cap {
                        r == Ok::<(), SendError>(()) && final(self)@.executes == v.executes
                            && final(self)@.tasks == v.tasks.update(
                            i,
                            SupView { ctx: CtxView { q: t.ctx.q.push(env), ..t.ctx }, ..t },
                        )
                    } else {
                        r == Err::<(), SendError>(SendError::MailboxFull) && final(self)@ == v
                    }
                } else if exec_has(v.executes, id) {
                    let j = exec_index(v.executes, id);
                    let e = v.executes[j];
                    if e.buffer.len() < e.cap {
                        r == Ok::<(), SendError>(()) && final(self)@.tasks == v.tasks
                            && final(self)@.executes == v.executes.update(
                            j,
                            ExecView { buffer: e.buffer.push(env), ..e },
                        )
                    } else {
                        r == Err::<(), SendError>(SendError::MailboxFull) && final(self)@ == v
                    }
                } else {
                    r == Err::<(), SendError>(SendError::Disconnected) && final(self)@ == v
                }
            }),
    {
        let ghost v = self@;
        let target = addr.target();
        match self.find_task_idx(target) {
            Some(i) => {
                proof {
                    assert(task_has(v.tasks, target));
                    let k = task_index(v.tasks, target);
                    assert(0 <= k < v.tasks.len() && v.tasks[k].ctx.id == target);
                    assert(k == i as int);
                }
                let terminated = {
                    let t: &Supervisor = &self.tasks[i];
                    match t.state() {
                        SupervisorState::Terminated => true,
                        SupervisorState::Running => false,
                    }
                };
                if terminated {
                    return Err(SendError::Disconnected);
                }
                let mut task = self.tasks.remove(i);
                proof {
                    assert(task@ == v.tasks[i as int]);
                    assert(task_ok(v.tasks[i as int], v.next_id));
                    lemma_sup_view(&task);
                    assert(task.ctx.wf());
                }
                let ok = task.ctx.enqueue(env);
                self.tasks.insert(i, task);
                proof {
                    lemma_sup_view(&task);
                    vstd::seq_lib::lemma_update_is_remove_insert(
                        old(self).tasks@,
                        i as int,
                        task,
                    );
                    assert(self.tasks@ =~= old(self).tasks@.update(i as int, task));
                    assert(self@.tasks =~= v.tasks.update(i as int, task@));
                    if !ok {
                        assert(task@ == v.tasks[i as int]);
                        assert(self@.tasks =~= v.tasks);
                        assert(self@ == v);
                    } else {
                        assert(task@ == (SupView {
                            ctx: CtxView {
                                q: v.tasks[i as int].ctx.q.push(env),
                                ..v.tasks[i as int].ctx
                            },
                            ..v.tasks[i as int]
                        }));
                        assert forall|m: int| 0 <= m < self@.tasks.len() implies task_ok(
                            #[trigger] self@.tasks[m],
                            self@.next_id,
                        ) by {
                            assert(task_ok(v.tasks[m], v.next_id));
                        }
                        assert(self.wf());
                    }
                }
                if ok {
                    Ok(())
                } else {
                    Err(SendError::MailboxFull)
                }
            },
            None => {
                match self.find_exec_idx(target) {
                    Some(j) => {
                        proof {
                            assert(exec_has(v.executes, target));
                            let k = exec_index(v.executes, target);
                            assert(0 <= k < v.executes.len() && v.executes[k].id == target);
                            assert(k == j as int);
                        }
                        let mut ex = self.executes.remove(j);
                        proof {
                            assert(ex@ == v.executes[j as int]);
                            assert(exec_ok(v.executes[j as int], v.next_id));
                            lemma_exec_view(&ex);
                            assert(ex.buffer.wf());
                        }
                        let ok = ex.buffer.try_enqueue(env);
                        self.executes.insert(j, ex);
                        proof {
                            lemma_exec_view(&ex);
                            vstd::seq_lib::lemma_update_is_remove_insert(
                                old(self).executes@,
                                j as int,
                                ex,
                            );
                            assert(self.executes@ =~= old(self).executes@.update(j as int, ex));
                            assert(self@.executes =~= v.executes.update(j as int, ex@));
                            if !ok {
                                assert(ex@ == v.executes[j as int]);
                                assert(self@.executes =~= v.executes);
                                assert(self@ == v);
                            } else {
                                assert(ex@ == (ExecView {
                                    buffer: v.executes[j as int].buffer.push(env),
                                    ..v.executes[j as int]
                                }));
                                assert forall|m: int| 0 <= m < self@.executes.len() implies
                                    exec_ok(#[trigger] self@.executes[m], self@.next_id) by {
                                    assert(exec_ok(v.executes[m], v.next_id));
                                }
                                assert(self.wf());
                            }
                        }
                        if ok {
                            Ok(())
                        } else {
                            Err(SendError::MailboxFull)
                        }
                    },
                    None => Err(SendError::Disconnected),
                }
            },
        }
    }

    /// Processes the oldest pending `Execute` request, if there is one: on
    /// this loop's thread, a context is built around the pre-created
    /// receiving end (preserving any buffered messages and the handles
    /// already handed out), the actor value is attached, and a supervisor
    /// task wrapping the context is scheduled here. The request is consumed
    /// exactly once and is never retried.
    pub fn process_execute(&mut self) -> (done: bool)
        requires
            old(self).wf(),
        ensures
            final(self).wf(),
            final(self)@.next_id == old(self)@.next_id,
            done == (old(self)@.executes.len() > 0),
            !done ==> final(self)@ == old(self)@,
            done ==> final(self)@.executes == old(self)@.executes.drop_first() && final(self)@.tasks == old(self)@.tasks.push(
                SupView {
                    ctx: CtxView {
                        id: old(self)@.executes[0].id,
                        cap: old(self)@.executes[0].cap,
                        q: old(self)@.executes[0].buffer,
                        handles: old(self)@.executes[0].handles,
                        stop: false,
                        actor: old(self)@.executes[0].actor,
                        replies: Seq::<Reply>::empty(),
                    },
                    state: SupervisorState::Running,
                },
            ),
    {
        if self.executes.len() == 0 {
            return false;
        }
        let ghost v = self@;
        let ex = self.executes.remove(0);
        proof {
            assert(ex@ == v.executes[0]);
            assert(exec_ok(v.executes[0], v.next_id));
            lemma_exec_view(&ex);
        }
        let Execute { id, buffer, handles, actor } = ex;
        let mut ctx = Context::with_receiver(id, buffer, handles);
        ctx.set_actor(actor);
        let sup = Supervisor::from_context(ctx);
        self.tasks.push(sup);
        proof {
            let w = self@;
            assert(w.executes =~= v.executes.drop_first());
            assert(w.tasks =~= v.tasks.push(sup@));
            assert(sup@.ctx.id == v.executes[0].id);
            assert forall|m: int| 0 <= m < w.tasks.len() implies task_ok(
                #[trigger] w.tasks[m],
                w.next_id,
            ) by {
                if m < v.tasks.len() {
                    assert(task_ok(v.tasks[m], v.next_id));
                }
            }
            assert forall|m: int| 0 <= m < w.executes.len() implies exec_ok(
                #[trigger] w.executes[m],
                w.next_id,
            ) by {
                assert(w.executes[m] == v.executes[m + 1]);
                assert(exec_ok(v.executes[m + 1], v.next_id));
            }
            assert forall|i1: int, i2: int|
                0 <= i1 < w.tasks.len() && 0 <= i2 < w.tasks.len() && i1 != i2 implies (
            #[trigger] w.tasks[i1]).ctx.id != (#[trigger] w.tasks[i2]).ctx.id by {
                if i1 < v.tasks.len() && i2 < v.tasks.len() {
                    assert(v.tasks[i1].ctx.id != v.tasks[i2].ctx.id);
                } else if i1 < v.tasks.len() {
                    assert(v.tasks[i1].ctx.id != v.executes[0].id);
                } else if i2 < v.tasks.len() {
                    assert(v.tasks[i2].ctx.id != v.executes[0].id);
                }
            }
            assert forall|j1: int, j2: int|
                0 <= j1 < w.executes.len() && 0 <= j2 < w.executes.len() && j1 != j2 implies (
            #[trigger] w.executes[j1]).id != (#[trigger] w.executes[j2]).id by {
                assert(v.executes[j1 + 1].id != v.executes[j2 + 1].id);
            }
            assert forall|i: int, j: int|
                0 <= i < w.tasks.len() && 0 <= j < w.executes.len() implies (
            #[trigger] w.tasks[i]).ctx.id != (#[trigger] w.executes[j]).id by {
                assert(w.executes[j] == v.executes[j + 1]);
                if i < v.tasks.len() {
                    assert(v.tasks[i].ctx.id != v.executes[j + 1].id);
                } else {
                    assert(v.executes[0].id != v.executes[j + 1].id);
                }
            }
            assert(self.wf());
        }
        true
    }

    /// Runs one scheduled task for one unit of cooperative work by polling
    /// it. A task that reports `Ready` has terminated; polling a terminated
    /// task again changes nothing.
    pub fn run_task(&mut self, i: usize) -> (status: PollStatus)
        requires
            old(self).wf(),
            i < old(self)@.tasks.len(),
            ({
                let t = old(self)@.tasks[i as int];
                t.state is Running && t.ctx.actor.supervised ==> t.ctx.actor.hook_calls
                    + t.ctx.q.len() <= u64::MAX
            }),
        ensures
            final(self).wf(),
            final(self)@.next_id == old(self)@.next_id,
            final(self)@.executes == old(self)@.executes,
            final(self)@.tasks == old(self)@.tasks.update(
                i as int,
                polled_view(old(self)@.tasks[i as int]),
            ),
            status == polled_status(old(self)@.tasks[i as int]),
    {
        let ghost v = self@;
        let mut task = self.tasks.remove(i);
        proof {
            assert(task@ == v.tasks[i as int]);
            assert(task_ok(v.tasks[i as int], v.next_id));
        }
        let status = task.poll();
        self.tasks.insert(i, task);
        proof {
            vstd::seq_lib::lemma_update_is_remove_insert(old(self).tasks@, i as int, task);
            assert(self.tasks@ =~= old(self).tasks@.update(i as int, task));
            assert(self@.tasks =~= v.tasks.update(i as int, task@));
            let t0 = v.tasks[i as int];
            if t0.state is Running {
                let p = poll_spec(t0.ctx.q, t0.ctx.handles);
                lemma_poll_spec_restarts_bounded(t0.ctx.q, t0.ctx.handles);
                if t0.ctx.actor.supervised {
                    assert((t0.ctx.actor.hook_calls + p.restarts) as u64 == t0.ctx.actor.hook_calls
                        + p.restarts);
                }
                assert(task@.ctx.q =~= Seq::<Envelope>::empty());
                assert(task@.ctx == polled_view(t0).ctx);
                assert(task@ == polled_view(t0));
            } else {
                assert(task@ == polled_view(t0));
            }
            let w = self@;
            assert forall|m: int| 0 <= m < w.tasks.len() implies task_ok(
                #[trigger] w.tasks[m],
                w.next_id,
            ) by {
                assert(task_ok(v.tasks[m], v.next_id));
            }
            assert forall|i1: int, i2: int|
                0 <= i1 < w.tasks.len() && 0 <= i2 < w.tasks.len() && i1 != i2 implies (
            #[trigger] w.tasks[i1]).ctx.id != (#[trigger] w.tasks[i2]).ctx.id by {
                assert(v.tasks[i1].ctx.id != v.tasks[i2].ctx.id);
            }
            assert forall|m: int, j: int|
                0 <= m < w.tasks.len() && 0 <= j < w.executes.len() implies (
            #[trigger] w.tasks[m]).ctx.id != (#[trigger] w.executes[j]).id by {
                assert(v.tasks[m].ctx.id != v.executes[j].id);
            }
            assert forall|m: int| 0 <= m < w.executes.len() implies exec_ok(
                #[trigger] w.executes[m],
                w.next_id,
            ) by {
                assert(exec_ok(v.executes[m], v.next_id));
            }
            assert forall|j1: int, j2: int|
                0 <= j1 < w.executes.len() && 0 <= j2 < w.executes.len() && j1 != j2 implies (
            #[trigger] w.executes[j1]).id != (#[trigger] w.executes[j2]).id by {
                assert(v.executes[j1].id != v.executes[j2].id);
            }
            assert(self.wf());
        }
        status
    }

    /// Releases one address handle: the registry entry the handle routes to
    /// loses one outstanding handle. Dropping the last handle of an
    /// otherwise idle actor leaves its context disconnected, which its
    /// supervisor observes at its next completion or failure boundary.
    pub fn drop_address(&mut self, addr: Addr)
        requires
            old(self).wf(),
        ensures
            final(self).wf(),
            final(self)@.next_id == old(self)@.next_id,
            ({
                let v = old(self)@;
                let id = addr@;
                if task_has(v.tasks, id) {
                    let i = task_index(v.tasks, id);
                    let t = v.tasks[i];
                    final(self)@.executes == v.executes && final(self)@.tasks == v.tasks.update(
                        i,
                        SupView {
                            ctx: CtxView {
                                handles: if t.ctx.handles > 0 {
                                    (t.ctx.handles - 1) as nat
                                } else {
                                    0nat
                                },
                                ..t.ctx
                            },
                            ..t
                        },
                    )
                } else if exec_has(v.executes, id) {
                    let j = exec_index(v.executes, id);
                    let e = v.executes[j];
                    final(self)@.tasks == v.tasks && final(self)@.executes == v.executes.update(
                        j,
                        ExecView {
                            handles: if e.handles > 0 {
                                (e.handles - 1) as nat
                            } else {
                                0nat
                            },
                            ..e
                        },
                    )
                } else {
                    final(self)@ == v
                }
            }),
    {
        let ghost v = self@;
        let target = addr.target();
        match self.find_task_idx(target) {
            Some(i) => {
                proof {
                    assert(task_has(v.tasks, target));
                    let k = task_index(v.tasks, target);
                    assert(0 <= k < v.tasks.len() && v.tasks[k].ctx.id == target);
                    assert(k == i as int);
                }
                let mut task = self.tasks.remove(i);
                proof {
                    assert(task@ == v.tasks[i as int]);
                    assert(task_ok(v.tasks[i as int], v.next_id));
                    lemma_sup_view(&task);
                }
                task.ctx.release_address();
                self.tasks.insert(i, task);
                proof {
                    lemma_sup_view(&task);
                    vstd::seq_lib::lemma_update_is_remove_insert(old(self).tasks@, i as int, task);
                    assert(self.tasks@ =~= old(self).tasks@.update(i as int, task));
                    assert(self@.tasks =~= v.tasks.update(i as int, task@));
                    let w = self@;
                    assert forall|m: int| 0 <= m < w.tasks.len() implies task_ok(
                        #[trigger] w.tasks[m],
                        w.next_id,
                    ) by {
                        assert(task_ok(v.tasks[m], v.next_id));
                    }
                    assert(self.wf());
                }
            },
            None => {
                match self.find_exec_idx(target) {
                    Some(j) => {
                        proof {
                            assert(exec_has(v.executes, target));
                            let k = exec_index(v.executes, target);
                            assert(0 <= k < v.executes.len() && v.executes[k].id == target);
                            assert(k == j as int);
                        }
                        let mut ex = self.executes.remove(j);
                        proof {
                            assert(ex@ == v.executes[j as int]);
                            assert(exec_ok(v.executes[j as int], v.next_id));
                            lemma_exec_view(&ex);
                        }
                        if ex.handles > 0 {
                            ex.handles = ex.handles - 1;
                        }
                        self.executes.insert(j, ex);
                        proof {
                            lemma_exec_view(&ex);
                            vstd::seq_lib::lemma_update_is_remove_insert(
                                old(self).executes@,
                                j as int,
                                ex,
                            );
                            assert(self.executes@ =~= old(self).executes@.update(j as int, ex));
                            assert(self@.executes =~= v.executes.update(j as int, ex@));
                            let w = self@;
                            assert forall|m: int| 0 <= m < w.executes.len() implies exec_ok(
                                #[trigger] w.executes[m],
                                w.next_id,
                            ) by {
                                assert(exec_ok(v.executes[m], v.next_id));
                            }
                            assert(self.wf());
                        }
                    },
                    None => {},
                }
            },
        }
    }

    /// Obtains one more counted handle to whatever the address routes to.
    /// The new handle names the same context, so it compares equal to the
    /// one it was cloned from and routes to the same mailbox. Returns
    /// nothing if the address no longer routes anywhere (or the handle
    /// count cannot grow).
    pub fn clone_address(&mut self, addr: &Addr) -> (r: Option<Addr>)
        requires
            old(self).wf(),
        ensures
            final(self).wf(),
            final(self)@.next_id == old(self)@.next_id,
            ({
                let v = old(self)@;
                let id = addr@;
                if task_has(v.tasks, id) {
                    let i = task_index(v.tasks, id);
                    let t = v.tasks[i];
                    if t.ctx.handles < usize::MAX {
                        r matches Some(a) && a@ == id && final(self)@.executes == v.executes
                            && final(self)@.tasks == v.tasks.update(
                            i,
                            SupView {
                                ctx: CtxView { handles: (t.ctx.handles + 1) as nat, ..t.ctx },
                                ..t
                            },
                        )
                    } else {
                        r is None && final(self)@ == v
                    }
                } else if exec_has(v.executes, id) {
                    let j = exec_index(v.executes, id);
                    let e = v.executes[j];
                    if e.handles < usize::MAX {
                        r matches Some(a) && a@ == id && final(self)@.tasks == v.tasks && final(self)@.executes == v.executes.update(
                            j,
                            ExecView { handles: (e.handles + 1) as nat, ..e },
                        )
                    } else {
                        r is None && final(self)@ == v
                    }
                } else {
                    r is None && final(self)@ == v
                }
            }),
    {
        let ghost v = self@;
        let target = addr.target();
        match self.find_task_idx(target) {
            Some(i) => {
                proof {
                    assert(task_has(v.tasks, target));
                    let k = task_index(v.tasks, target);
                    assert(0 <= k < v.tasks.len() && v.tasks[k].ctx.id == target);
                    assert(k == i as int);
                }
                let full = {
                    let t: &Supervisor = &self.tasks[i];
                    t.context().handle_count() == usize::MAX
                };
                if full {
                    return None;
                }
                let mut task = self.tasks.remove(i);
                proof {
                    assert(task@ == v.tasks[i as int]);
                    assert(task_ok(v.tasks[i as int], v.next_id));
                    lemma_sup_view(&task);
                }
                let a = task.ctx.address();
                self.tasks.insert(i, task);
                proof {
                    lemma_sup_view(&task);
                    vstd::seq_lib::lemma_update_is_remove_insert(old(self).tasks@, i as int, task);
                    assert(self.tasks@ =~= old(self).tasks@.update(i as int, task));
                    assert(self@.tasks =~= v.tasks.update(i as int, task@));
                    let w = self@;
                    assert forall|m: int| 0 <= m < w.tasks.len() implies task_ok(
                        #[trigger] w.tasks[m],
                        w.next_id,
                    ) by {
                        assert(task_ok(v.tasks[m], v.next_id));
                    }
                    assert(self.wf());
                }
                Some(a)
            },
            None => {
                match self.find_exec_idx(target) {
                    Some(j) => {
                        proof {
                            assert(exec_has(v.executes, target));
                            let k = exec_index(v.executes, target);
                            assert(0 <= k < v.executes.len() && v.executes[k].id == target);
                            assert(k == j as int);
                        }
                        let mut ex = self.executes.remove(j);
                        proof {
                            assert(ex@ == v.executes[j as int]);
                            assert(exec_ok(v.executes[j as int], v.next_id));
                            lemma_exec_view(&ex);
                        }
                        if ex.handles == usize::MAX {
                            self.executes.insert(j, ex);
                            proof {
                                vstd::seq_lib::lemma_update_is_remove_insert(
                                    old(self).executes@,
                                    j as int,
                                    ex,
                                );
                                assert(self.executes@ =~= old(self).executes@.update(
                                    j as int,
                                    ex,
                                ));
                                assert(self@.executes =~= v.executes.update(j as int, ex@));
                                assert(self@.executes =~= v.executes);
                                assert(self@ == v);
                            }
                            return None;
                        }
                        ex.handles = ex.handles + 1;
                        let id_copy = ex.buffer_id();
                        self.executes.insert(j, ex);
                        proof {
                            lemma_exec_view(&ex);
                            vstd::seq_lib::lemma_update_is_remove_insert(
                                old(self).executes@,
                                j as int,
                                ex,
                            );
                            assert(self.executes@ =~= old(self).executes@.update(j as int, ex));
                            assert(self@.executes =~= v.executes.update(j as int, ex@));
                            let w = self@;
                            assert forall|m: int| 0 <= m < w.executes.len() implies exec_ok(
                                #[trigger] w.executes[m],
                                w.next_id,
                            ) by {
                                assert(exec_ok(v.executes[m], v.next_id));
                            }
                            assert(self.wf());
                        }
                        Some(Addr::new(id_copy))
                    },
                    None => None,
                }
            },
        }
    }

    /// Whether the address still reaches a live target: a running task
    /// whose context is connected, or a construction that has not run yet.
    pub fn is_connected(&self, addr: &Addr) -> (b: bool)
        requires
            self.wf(),
        ensures
            b == ({
                let v = self@;
                if task_has(v.tasks, addr@) {
                    let t = v.tasks[task_index(v.tasks, addr@)];
                    t.state is Running && connected(t.ctx)
                } else {
                    exec_has(v.executes, addr@)
                }
            }),
    {
        let ghost v = self@;
        let target = addr.target();
        match self.find_task_idx(target) {
            Some(i) => {
                proof {
                    assert(task_has(v.tasks, target));
                    let k = task_index(v.tasks, target);
                    assert(0 <= k < v.tasks.len() && v.tasks[k].ctx.id == target);
                    assert(k == i as int);
                }
                let t: &Supervisor = &self.tasks[i];
                match t.state() {
                    SupervisorState::Terminated => false,
                    SupervisorState::Running => t.context().is_connected(),
                }
            },
            None => {
                match self.find_exec_idx(target) {
                    Some(_) => true,
                    None => false,
                }
            },
        }
    }

    /// Schedules a fresh supervised actor on this loop: a new context with
    /// a default-capacity mailbox, the actor attached, one address handle
    /// out, and a running supervisor task. Used by the local start path.
    pub(crate) fn spawn_fresh(&mut self, actor: Actor) -> (addr: Addr)
        requires
            old(self).wf(),
            old(self)@.next_id < u64::MAX,
        ensures
            final(self).wf(),
            addr@ == old(self)@.next_id,
            final(self)@.next_id == old(self)@.next_id + 1,
            final(self)@.executes == old(self)@.executes,
            final(self)@.tasks == old(self)@.tasks.push(
                SupView {
                    ctx: CtxView {
                        id: old(self)@.next_id,
                        cap: DEFAULT_CAPACITY as nat,
                        q: Seq::<Envelope>::empty(),
                        handles: 1nat,
                        stop: false,
                        actor,
                        replies: Seq::<Reply>::empty(),
                    },
                    state: SupervisorState::Running,
                },
            ),
    {
        let ghost v = self@;
        let id = self.next_id;
        self.next_id = id + 1;
        let mut ctx = Context::new(id);
        let addr = ctx.address();
        ctx.set_actor(actor);
        let sup = Supervisor::from_context(ctx);
        self.tasks.push(sup);
        proof {
            let w = self@;
            assert(w.tasks =~= v.tasks.push(sup@));
            assert forall|m: int| 0 <= m < w.tasks.len() implies task_ok(
                #[trigger] w.tasks[m],
                w.next_id,
            ) by {
                if m < v.tasks.len() {
                    assert(task_ok(v.tasks[m], v.next_id));
                }
            }
            assert forall|m: int| 0 <= m < w.executes.len() implies exec_ok(
                #[trigger] w.executes[m],
                w.next_id,
            ) by {
                assert(exec_ok(v.executes[m], v.next_id));
            }
            assert forall|i1: int, i2: int|
                0 <= i1 < w.tasks.len() && 0 <= i2 < w.tasks.len() && i1 != i2 implies (
            #[trigger] w.tasks[i1]).ctx.id != (#[trigger] w.tasks[i2]).ctx.id by {
                if i1 < v.tasks.len() && i2 < v.tasks.len() {
                    assert(v.tasks[i1].ctx.id != v.tasks[i2].ctx.id);
                } else if i1 < v.tasks.len() {
                    assert(task_ok(v.tasks[i1], v.next_id));
                } else if i2 < v.tasks.len() {
                    assert(task_ok(v.tasks[i2], v.next_id));
                }
            }
            assert forall|m: int, j: int|
                0 <= m < w.tasks.len() && 0 <= j < w.executes.len() implies (
            #[trigger] w.tasks[m]).ctx.id != (#[trigger] w.executes[j]).id by {
                assert(exec_ok(v.executes[j], v.next_id));
                if m < v.tasks.len() {
                    assert(v.tasks[m].ctx.id != v.executes[j].id);
                }
            }
            assert forall|j1: int, j2: int|
                0 <= j1 < w.executes.len() && 0 <= j2 < w.executes.len() && j1 != j2 implies (
            #[trigger] w.executes[j1]).id != (#[trigger] w.executes[j2]).id by {
                assert(v.executes[j1].id != v.executes[j2].id);
            }
            assert(self.wf());
        }
        addr
    }

    /// Queues a one-shot construction request on this loop: the channel
    /// pair that will become the actor's mailbox is allocated now at
    /// default capacity, its receiving end travels inside the request, and
    /// an address wrapping the sending end is handed back at once. Used by
    /// the remote start path.
    pub(crate) fn spawn_remote(&mut self, actor: Actor) -> (addr: Addr)
        requires
            old(self).wf(),
            old(self)@.next_id < u64::MAX,
        ensures
            final(self).wf(),
            addr@ == old(self)@.next_id,
            final(self)@.next_id == old(self)@.next_id + 1,
            final(self)@.tasks == old(self)@.tasks,
            final(self)@.executes == old(self)@.executes.push(
                ExecView {
                    id: old(self)@.next_id,
                    cap: DEFAULT_CAPACITY as nat,
                    buffer: Seq::<Envelope>::empty(),
                    handles: 1nat,
                    actor,
                },
            ),
    {
        let ghost v = self@;
        let id = self.next_id;
        self.next_id = id + 1;
        let buffer = Mailbox::with_default_capacity();
        let ex = Execute { id, buffer, handles: 1, actor };
        proof {
            lemma_exec_view(&ex);
        }
        self.executes.push(ex);
        proof {
            let w = self@;
            assert(w.executes =~= v.executes.push(ex@));
            assert forall|m: int| 0 <= m < w.tasks.len() implies task_ok(
                #[trigger] w.tasks[m],
                w.next_id,
            ) by {
                assert(task_ok(v.tasks[m], v.next_id));
            }
            assert forall|m: int| 0 <= m < w.executes.len() implies exec_ok(
                #[trigger] w.executes[m],
                w.next_id,
            ) by {
                if m < v.executes.len() {
                    assert(exec_ok(v.executes[m], v.next_id));
                }
            }
            assert forall|j1: int, j2: int|
                0 <= j1 < w.executes.len() && 0 <= j2 < w.executes.len() && j1 != j2 implies (
            #[trigger] w.executes[j1]).id != (#[trigger] w.executes[j2]).id by {
                if j1 < v.executes.len() && j2 < v.executes.len() {
                    assert(v.executes[j1].id != v.executes[j2].id);
                } else if j1 < v.executes.len() {
                    assert(exec_ok(v.executes[j1], v.next_id));
                } else if j2 < v.executes.len() {
                    assert(exec_ok(v.executes[j2], v.next_id));
                }
            }
            assert forall|m: int, j: int|
                0 <= m < w.tasks.len() && 0 <= j < w.executes.len() implies (
            #[trigger] w.tasks[m]).ctx.id != (#[trigger] w.executes[j]).id by {
                assert(task_ok(v.tasks[m], v.next_id));
                if j < v.executes.len() {
                    assert(v.tasks[m].ctx.id != v.executes[j].id);
                }
            }
            assert(self.wf());
        }
        Addr::new(id)
    }
}

} // verus!
