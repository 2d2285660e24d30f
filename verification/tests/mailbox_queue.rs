use supervise::actor::Actor;
use supervise::context::{Context, DriveStatus};
use supervise::mailbox::{DEFAULT_CAPACITY, Mailbox};
use supervise::msgs::{Delivery, Envelope, MsgKind, Reply};

fn env(id: u64, kind: MsgKind) -> Envelope {
    Envelope { id, kind }
}

#[test]
fn default_capacity_is_fixed() {
    let m = Mailbox::with_default_capacity();
    assert_eq!(m.capacity(), DEFAULT_CAPACITY);
    assert_eq!(DEFAULT_CAPACITY, 16);
    assert!(m.is_empty());
}

#[test]
fn mailbox_is_fifo_and_bounded() {
    let mut m = Mailbox::new(3);
    assert!(m.try_enqueue(env(1, MsgKind::Work)));
    assert!(m.try_enqueue(env(2, MsgKind::Fail)));
    assert!(m.try_enqueue(env(3, MsgKind::Stop)));
    // at capacity: backpressure, nothing dropped and nothing grown
    assert!(!m.try_enqueue(env(4, MsgKind::Work)));
    assert_eq!(m.len(), 3);
    assert_eq!(m.dequeue(), Some(env(1, MsgKind::Work)));
    assert_eq!(m.dequeue(), Some(env(2, MsgKind::Fail)));
    assert!(m.try_enqueue(env(4, MsgKind::Work)));
    assert_eq!(m.dequeue(), Some(env(3, MsgKind::Stop)));
    assert_eq!(m.dequeue(), Some(env(4, MsgKind::Work)));
    assert_eq!(m.dequeue(), None);
}

#[test]
fn zero_capacity_mailbox_refuses_everything() {
    let mut m = Mailbox::new(0);
    assert!(!m.try_enqueue(env(1, MsgKind::Work)));
    assert_eq!(m.dequeue(), None);
}

#[test]
fn drive_suspends_only_while_a_handle_is_out() {
    let mut ctx = Context::new(9);
    ctx.set_actor(Actor::new(true));
    let addr = ctx.address();
    assert_eq!(addr.target(), 9);
    // empty mailbox, one handle out: the cooperative yield point
    assert_eq!(ctx.drive(), DriveStatus::Suspended);
    ctx.release_address();
    // empty mailbox, no handle: processing naturally finishes
    assert_eq!(ctx.drive(), DriveStatus::Completed);
}

#[test]
fn drive_processes_work_until_a_failure() {
    let mut ctx = Context::new(0);
    ctx.set_actor(Actor::new(true));
    let _addr = ctx.address();
    assert!(ctx.enqueue(env(1, MsgKind::Work)));
    assert!(ctx.enqueue(env(2, MsgKind::Fail)));
    assert!(ctx.enqueue(env(3, MsgKind::Work)));
    assert_eq!(ctx.drive(), DriveStatus::Failed);
    // the failing message is lost to its sender; the next one is untouched
    assert_eq!(ctx.reply_count(), 2);
    assert_eq!(ctx.reply_at(0), Some(Reply { id: 1, delivery: Delivery::Processed }));
    assert_eq!(ctx.reply_at(1), Some(Reply { id: 2, delivery: Delivery::Cancelled }));
    assert_eq!(ctx.mailbox_len(), 1);
    assert!(ctx.is_connected());
    // the restart decision runs the hook and driving picks up the rest
    assert!(ctx.restart());
    assert_eq!(ctx.actor_state().hook_calls, 1);
    assert_eq!(ctx.drive(), DriveStatus::Suspended);
    assert_eq!(ctx.reply_at(2), Some(Reply { id: 3, delivery: Delivery::Processed }));
}

#[test]
fn drive_completes_on_stop_and_restart_clears_it() {
    let mut ctx = Context::new(0);
    ctx.set_actor(Actor::new(false));
    let _addr = ctx.address();
    assert!(ctx.enqueue(env(1, MsgKind::Stop)));
    assert!(ctx.enqueue(env(2, MsgKind::Work)));
    assert_eq!(ctx.drive(), DriveStatus::Completed);
    assert_eq!(ctx.reply_at(0), Some(Reply { id: 1, delivery: Delivery::Processed }));
    // still connected: a handle is out and one message is pending
    assert!(ctx.restart());
    // the hook is a no-op for an actor without the capability
    assert_eq!(ctx.actor_state().hook_calls, 0);
    assert_eq!(ctx.drive(), DriveStatus::Suspended);
    assert_eq!(ctx.reply_at(1), Some(Reply { id: 2, delivery: Delivery::Processed }));
}

#[test]
fn restart_reports_dead_context_untouched() {
    let mut ctx = Context::new(0);
    ctx.set_actor(Actor::new(true));
    assert!(!ctx.is_connected());
    assert!(!ctx.restart());
    assert_eq!(ctx.actor_state().hook_calls, 0);
}
