use supervise::actor::Actor;
use supervise::arbiter::Arbiter;
use supervise::mailbox::DEFAULT_CAPACITY;
use supervise::msgs::{Delivery, Envelope, MsgKind, Reply, SendError};
use supervise::supervisor::{PollStatus, Supervisor, SupervisorState};

fn env(id: u64, kind: MsgKind) -> Envelope {
    Envelope { id, kind }
}

fn reply_of_task(arb: &Arbiter, task: usize, i: usize) -> Reply {
    arb.task_at(task).context().reply_at(i).unwrap()
}

#[test]
fn hook_counter_reaches_failure_count() {
    let mut arb = Arbiter::new();
    let addr = Supervisor::start(&mut arb, Actor::new(true));
    let k = 5u64;
    for i in 0..k {
        assert_eq!(arb.send(&addr, env(i, MsgKind::Fail)), Ok(()));
    }
    let status = arb.run_task(0);
    assert_eq!(status, PollStatus::NotReady);
    let actor = arb.task_at(0).context().actor_state();
    assert_eq!(actor.hook_calls, k);
    assert_eq!(arb.task_at(0).state(), SupervisorState::Running);
    // the same address still routes messages to the same mailbox
    assert_eq!(arb.send(&addr, env(100, MsgKind::Work)), Ok(()));
    assert_eq!(arb.run_task(0), PollStatus::NotReady);
    let n = arb.task_at(0).context().reply_count();
    assert_eq!(
        reply_of_task(&arb, 0, n - 1),
        Reply { id: 100, delivery: Delivery::Processed }
    );
}

#[test]
fn dropping_all_addresses_terminates_idle_actor() {
    let mut arb = Arbiter::new();
    let addr = Supervisor::start(&mut arb, Actor::new(true));
    arb.drop_address(addr);
    let status = arb.run_task(0);
    assert_eq!(status, PollStatus::Ready);
    assert_eq!(arb.task_at(0).state(), SupervisorState::Terminated);
    // a terminated task is never driven again: polling it changes nothing
    let hooks_before = arb.task_at(0).context().actor_state().hook_calls;
    let replies_before = arb.task_at(0).context().reply_count();
    assert_eq!(arb.run_task(0), PollStatus::Ready);
    assert_eq!(arb.task_at(0).context().actor_state().hook_calls, hooks_before);
    assert_eq!(arb.task_at(0).context().reply_count(), replies_before);
}

#[test]
fn failed_message_cancelled_next_message_processed() {
    let mut arb = Arbiter::new();
    let addr = Supervisor::start(&mut arb, Actor::new(true));
    assert_eq!(arb.send(&addr, env(1, MsgKind::Fail)), Ok(()));
    assert_eq!(arb.run_task(0), PollStatus::NotReady);
    assert_eq!(
        reply_of_task(&arb, 0, 0),
        Reply { id: 1, delivery: Delivery::Cancelled }
    );
    // after the restart, the same address delivers normally
    assert_eq!(arb.send(&addr, env(2, MsgKind::Work)), Ok(()));
    assert_eq!(arb.run_task(0), PollStatus::NotReady);
    assert_eq!(
        reply_of_task(&arb, 0, 1),
        Reply { id: 2, delivery: Delivery::Processed }
    );
}

#[test]
fn start_in_buffers_up_to_capacity_then_backpressures() {
    let mut arb = Arbiter::new();
    let addr = Supervisor::start_in(&mut arb, Actor::new(false));
    assert_eq!(arb.pending_execute_count(), 1);
    let c = DEFAULT_CAPACITY as u64;
    for i in 0..c {
        assert_eq!(arb.send(&addr, env(i, MsgKind::Work)), Ok(()));
    }
    // the (C+1)-th send backpressures until the remote context drains
    assert_eq!(
        arb.send(&addr, env(c, MsgKind::Work)),
        Err(SendError::MailboxFull)
    );
    assert!(arb.process_execute());
    assert_eq!(arb.pending_execute_count(), 0);
    // the mailbox is still full: construction alone does not drain
    assert_eq!(
        arb.send(&addr, env(c, MsgKind::Work)),
        Err(SendError::MailboxFull)
    );
    // once the loop drives the actor, the buffered messages are processed
    // in send order and the blocked send would now go through
    assert_eq!(arb.run_task(0), PollStatus::NotReady);
    assert_eq!(arb.task_at(0).context().reply_count(), DEFAULT_CAPACITY);
    for i in 0..DEFAULT_CAPACITY {
        assert_eq!(
            reply_of_task(&arb, 0, i),
            Reply { id: i as u64, delivery: Delivery::Processed }
        );
    }
    assert_eq!(arb.send(&addr, env(c, MsgKind::Work)), Ok(()));
}

#[test]
fn restart_preserves_address_identity() {
    let mut arb = Arbiter::new();
    let before = Supervisor::start(&mut arb, Actor::new(true));
    assert_eq!(arb.send(&before, env(7, MsgKind::Fail)), Ok(()));
    assert_eq!(arb.run_task(0), PollStatus::NotReady);
    let after = arb.clone_address(&before).unwrap();
    assert_eq!(before, after);
    assert_eq!(before.target(), after.target());
    // both handles route to the same mailbox
    assert_eq!(arb.send(&before, env(8, MsgKind::Work)), Ok(()));
    assert_eq!(arb.send(&after, env(9, MsgKind::Work)), Ok(()));
    assert_eq!(arb.task_at(0).context().mailbox_len(), 2);
    assert_eq!(arb.run_task(0), PollStatus::NotReady);
    assert_eq!(
        reply_of_task(&arb, 0, 1),
        Reply { id: 8, delivery: Delivery::Processed }
    );
    assert_eq!(
        reply_of_task(&arb, 0, 2),
        Reply { id: 9, delivery: Delivery::Processed }
    );
}

#[test]
fn always_failing_actor_restarts_indefinitely() {
    let mut arb = Arbiter::new();
    let addr = Supervisor::start(&mut arb, Actor::new(true));
    let n = 200u64;
    for i in 0..n {
        assert_eq!(arb.send(&addr, env(i, MsgKind::Fail)), Ok(()));
        assert_eq!(arb.run_task(0), PollStatus::NotReady);
        assert_eq!(arb.task_at(0).state(), SupervisorState::Running);
    }
    assert_eq!(arb.task_at(0).context().actor_state().hook_calls, n);
}

#[test]
fn stop_request_restarts_while_connected() {
    let mut arb = Arbiter::new();
    let addr = Supervisor::start(&mut arb, Actor::new(true));
    assert_eq!(arb.send(&addr, env(1, MsgKind::Stop)), Ok(()));
    assert_eq!(arb.run_task(0), PollStatus::NotReady);
    // the stop completed the context, but a handle was still held, so the
    // supervisor restarted the actor instead of terminating
    assert_eq!(arb.task_at(0).state(), SupervisorState::Running);
    assert_eq!(arb.task_at(0).context().actor_state().hook_calls, 1);
    assert_eq!(
        reply_of_task(&arb, 0, 0),
        Reply { id: 1, delivery: Delivery::Processed }
    );
}

#[test]
fn stop_request_terminates_once_disconnected() {
    let mut arb = Arbiter::new();
    let addr = Supervisor::start(&mut arb, Actor::new(false));
    assert_eq!(arb.send(&addr, env(1, MsgKind::Stop)), Ok(()));
    arb.drop_address(addr);
    assert_eq!(arb.run_task(0), PollStatus::Ready);
    assert_eq!(arb.task_at(0).state(), SupervisorState::Terminated);
}

#[test]
fn send_to_terminated_actor_is_disconnected() {
    let mut arb = Arbiter::new();
    let addr = Supervisor::start(&mut arb, Actor::new(false));
    arb.drop_address(addr);
    assert_eq!(arb.run_task(0), PollStatus::Ready);
    // a handle carrying the terminated context's identity, minted on a
    // second loop where the same identity is still live
    let mut other = Arbiter::new();
    let twin = Supervisor::start(&mut other, Actor::new(false));
    assert_eq!(twin.target(), 0);
    assert_eq!(
        arb.send(&twin, env(1, MsgKind::Work)),
        Err(SendError::Disconnected)
    );
    assert!(!arb.is_connected(&twin));
}

#[test]
fn send_to_unknown_address_is_disconnected() {
    let mut arb = Arbiter::new();
    let _local = Supervisor::start(&mut arb, Actor::new(false));
    let mut other = Arbiter::new();
    let _first = Supervisor::start(&mut other, Actor::new(false));
    let foreign = Supervisor::start(&mut other, Actor::new(false));
    // `foreign` carries an identity no context on `arb` has ever had
    assert_eq!(foreign.target(), 1);
    assert_eq!(
        arb.send(&foreign, env(1, MsgKind::Work)),
        Err(SendError::Disconnected)
    );
    assert!(!arb.is_connected(&foreign));
    assert!(arb.clone_address(&foreign).is_none());
}

#[test]
fn unsupervised_actor_hook_is_noop() {
    let mut arb = Arbiter::new();
    let addr = Supervisor::start(&mut arb, Actor::new(false));
    for i in 0..3 {
        assert_eq!(arb.send(&addr, env(i, MsgKind::Fail)), Ok(()));
    }
    assert_eq!(arb.run_task(0), PollStatus::NotReady);
    assert_eq!(arb.task_at(0).context().actor_state().hook_calls, 0);
    assert_eq!(arb.task_at(0).state(), SupervisorState::Running);
}

#[test]
fn remote_construction_preserves_buffered_order_and_identity() {
    let mut arb = Arbiter::new();
    let addr = Supervisor::start_in(&mut arb, Actor::new(true));
    assert!(arb.is_connected(&addr));
    assert_eq!(arb.send(&addr, env(10, MsgKind::Work)), Ok(()));
    assert_eq!(arb.send(&addr, env(11, MsgKind::Fail)), Ok(()));
    assert_eq!(arb.send(&addr, env(12, MsgKind::Work)), Ok(()));
    assert!(arb.process_execute());
    assert_eq!(arb.task_count(), 1);
    assert_eq!(arb.task_at(0).context().id(), addr.target());
    assert_eq!(arb.task_at(0).context().mailbox_len(), 3);
    assert_eq!(arb.run_task(0), PollStatus::NotReady);
    assert_eq!(
        reply_of_task(&arb, 0, 0),
        Reply { id: 10, delivery: Delivery::Processed }
    );
    assert_eq!(
        reply_of_task(&arb, 0, 1),
        Reply { id: 11, delivery: Delivery::Cancelled }
    );
    assert_eq!(
        reply_of_task(&arb, 0, 2),
        Reply { id: 12, delivery: Delivery::Processed }
    );
    assert_eq!(arb.task_at(0).context().actor_state().hook_calls, 1);
}

#[test]
fn dropping_handle_before_remote_construction() {
    let mut arb = Arbiter::new();
    let addr = Supervisor::start_in(&mut arb, Actor::new(false));
    assert_eq!(arb.send(&addr, env(1, MsgKind::Work)), Ok(()));
    arb.drop_address(addr);
    assert!(arb.process_execute());
    // the buffered message is pending work, so the actor still drains it,
    // then terminates for want of any handle
    assert_eq!(arb.run_task(0), PollStatus::Ready);
    assert_eq!(arb.task_at(0).state(), SupervisorState::Terminated);
    assert_eq!(
        reply_of_task(&arb, 0, 0),
        Reply { id: 1, delivery: Delivery::Processed }
    );
}

#[test]
fn connectivity_follows_handles_and_termination() {
    let mut arb = Arbiter::new();
    let addr = Supervisor::start(&mut arb, Actor::new(false));
    assert!(arb.is_connected(&addr));
    let extra = arb.clone_address(&addr).unwrap();
    arb.drop_address(extra);
    assert!(arb.is_connected(&addr));
    arb.drop_address(addr);
    assert_eq!(arb.run_task(0), PollStatus::Ready);
    let stale = Supervisor::start(&mut arb, Actor::new(false));
    assert!(arb.is_connected(&stale));
}

#[test]
fn cloning_a_handle_to_a_pending_construction() {
    let mut arb = Arbiter::new();
    let addr = Supervisor::start_in(&mut arb, Actor::new(false));
    let twin = arb.clone_address(&addr).unwrap();
    assert_eq!(addr, twin);
    assert_eq!(arb.send(&addr, env(1, MsgKind::Work)), Ok(()));
    arb.drop_address(addr);
    // one handle is still out, so the construction stays connected
    assert!(arb.is_connected(&twin));
    assert!(arb.process_execute());
    assert_eq!(arb.run_task(0), PollStatus::NotReady);
    assert_eq!(arb.task_at(0).context().handle_count(), 1);
    assert_eq!(
        reply_of_task(&arb, 0, 0),
        Reply { id: 1, delivery: Delivery::Processed }
    );
}
