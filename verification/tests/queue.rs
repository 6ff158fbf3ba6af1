//! The queue of correction blocks between the workers.
use open_ntrip_client::span::Span;
use open_ntrip_client::workers::{join_timeout, CorrQueue, JoinStep, PushOutcome, TimedPop};

#[test]
fn inactive_queue_discards() {
    let mut q = CorrQueue::new(4);
    assert!(matches!(q.push(vec![1]), PushOutcome::Inactive));
    assert!(q.try_pop().is_none());
    assert_eq!(q.overruns(), 0);
}

#[test]
fn overflow_drops_oldest_and_counts() {
    let mut q = CorrQueue::new(2);
    q.set_active(true);
    assert!(matches!(q.push(vec![1]), PushOutcome::Queued));
    assert!(matches!(q.push(vec![2]), PushOutcome::Queued));
    let PushOutcome::DroppedOldest(n) = q.push(vec![3]) else {
        panic!("expected overflow");
    };
    assert_eq!(n, 1);
    assert_eq!(q.try_pop(), Some(vec![2]), "oldest (1) was dropped");
    assert_eq!(q.try_pop(), Some(vec![3]));
    assert_eq!(q.overruns(), 1);
}

#[test]
fn deactivate_clears_backlog() {
    let mut q = CorrQueue::new(4);
    q.set_active(true);
    q.push(vec![1]);
    q.set_active(false);
    q.set_active(true);
    assert!(q.try_pop().is_none(), "stale backlog must not survive");
}

#[test]
fn pop_timeout_wakes_on_push() {
    let mut q = CorrQueue::new(4);
    q.set_active(true);
    let five = Span::from_secs(5);
    let TimedPop::WaitFor(left) = q.pop_timeout(Span::from_millis(0), five) else {
        panic!("nothing queued yet");
    };
    assert_eq!(left.nanos, 5_000_000_000);
    q.push(vec![9]);
    let TimedPop::Block(b) = q.pop_timeout(Span::from_millis(30), five) else {
        panic!("a push ends the wait");
    };
    assert_eq!(b, vec![9]);
    assert!(matches!(q.pop_timeout(five, five), TimedPop::TimedOut));
}

#[test]
fn queue_is_first_in_first_out() {
    let mut q = CorrQueue::new(8);
    q.set_active(true);
    for i in 0..5u8 {
        q.push(vec![i]);
    }
    for i in 0..5u8 {
        assert_eq!(q.try_pop(), Some(vec![i]));
    }
    assert_eq!(q.try_pop(), None);
}

#[test]
fn waiting_for_a_worker_ends_at_the_deadline() {
    assert_eq!(join_timeout(false, 5, 10), JoinStep::Sleep);
    assert_eq!(join_timeout(false, 10, 10), JoinStep::Abandon);
    assert_eq!(join_timeout(true, 11, 10), JoinStep::Join);
}
