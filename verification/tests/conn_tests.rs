use sonicast::conn::Multiplexer;

#[test]
fn tickets_are_issued_and_resolved_in_fifo_order() {
    let mut m = Multiplexer::new();
    let t0 = m.submit(false);
    let t1 = m.submit(false);
    let t2 = m.submit(false);
    assert_eq!((t0, t1, t2), (0, 1, 2));
    assert_eq!(m.pending(), 3);
    // frames resolve the oldest waiter first: the pairing is FIFO
    assert_eq!(m.deliver(), 0);
    assert_eq!(m.deliver(), 1);
    assert_eq!(m.deliver(), 2);
    assert_eq!(m.pending(), 0);
}

#[test]
fn wait_command_holds_the_writer_until_its_own_frame() {
    let mut m = Multiplexer::new();
    let first = m.submit(false);
    let wait = m.submit(true);
    assert!(m.idle_outstanding());
    // an earlier command's frame does not release the writer
    assert_eq!(m.deliver(), first);
    assert!(m.idle_outstanding());
    // the wait command's own frame does
    assert_eq!(m.deliver(), wait);
    assert!(!m.idle_outstanding());
}

#[test]
fn submissions_interleave_with_deliveries() {
    let mut m = Multiplexer::new();
    assert_eq!(m.submit(false), 0);
    assert_eq!(m.deliver(), 0);
    assert_eq!(m.submit(false), 1);
    assert_eq!(m.submit(false), 2);
    assert_eq!(m.deliver(), 1);
    assert_eq!(m.submit(false), 3);
    assert_eq!(m.deliver(), 2);
    assert_eq!(m.deliver(), 3);
    assert_eq!(m.pending(), 0);
}
