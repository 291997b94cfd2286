use serial_bridge::session::{ReadEvent, Serial, WriteStatus};

#[test]
fn write_while_open_is_enqueued() {
    let mut s = Serial::open(115200, 100);
    assert_eq!(s.write(vec![1, 2, 3]), WriteStatus::Enqueued);
}

#[test]
fn write_after_close_is_dropped() {
    let mut s = Serial::open(115200, 100);
    s.close();
    assert_eq!(s.write(vec![1, 2, 3]), WriteStatus::Closed);
    // The dropped buffer never reaches the device: no step ever drains it.
    let out = s.step(ReadEvent::TimedOut);
    assert_eq!(out.device_write, None);
    assert!(out.exit);
}

#[test]
fn close_twice_has_no_extra_effect() {
    let mut s = Serial::open(9600, 0);
    assert_eq!(s.write(vec![7]), WriteStatus::Enqueued);
    s.close();
    s.close();
    // The buffer queued before the first close is still drained once.
    let out = s.step(ReadEvent::TimedOut);
    assert_eq!(out.device_write, Some(vec![7]));
    assert!(out.exit);
    // And a write after the double close is still dropped.
    assert_eq!(s.write(vec![8]), WriteStatus::Closed);
}

#[test]
fn one_delivery_per_nonempty_read() {
    let mut s = Serial::open(115200, 100);
    let out = s.step(ReadEvent::Data(vec![1, 2, 3, 4, 5]));
    assert_eq!(out.deliver, Some(vec![1, 2, 3, 4, 5]));
    assert!(!out.exit);
    // The chunk is not retained: the next iteration delivers nothing.
    let out = s.step(ReadEvent::TimedOut);
    assert_eq!(out.deliver, None);
}

#[test]
fn empty_read_and_timeout_deliver_nothing() {
    let mut s = Serial::open(115200, 100);
    let out = s.step(ReadEvent::Data(vec![]));
    assert_eq!(out.deliver, None);
    assert!(!out.exit);
    let out = s.step(ReadEvent::TimedOut);
    assert_eq!(out.deliver, None);
    assert!(!out.exit);
}

#[test]
fn failed_read_exits_without_draining() {
    let mut s = Serial::open(115200, 100);
    assert_eq!(s.write(vec![10, 20]), WriteStatus::Enqueued);
    let out = s.step(ReadEvent::Failed);
    assert_eq!(out.deliver, None);
    assert_eq!(out.device_write, None);
    assert!(out.exit);
    // The loop downed the flag itself, so later writes see a dead session.
    assert_eq!(s.write(vec![30]), WriteStatus::Closed);
}

#[test]
fn buffers_drain_whole_and_in_call_order() {
    let mut s = Serial::open(115200, 100);
    assert_eq!(s.write(vec![1, 2]), WriteStatus::Enqueued);
    assert_eq!(s.write(vec![3]), WriteStatus::Enqueued);
    assert_eq!(s.write(vec![4, 5, 6]), WriteStatus::Enqueued);
    // One buffer per iteration, oldest first, each in full.
    let out = s.step(ReadEvent::TimedOut);
    assert_eq!(out.device_write, Some(vec![1, 2]));
    let out = s.step(ReadEvent::Data(vec![9]));
    assert_eq!(out.device_write, Some(vec![3]));
    assert_eq!(out.deliver, Some(vec![9]));
    let out = s.step(ReadEvent::TimedOut);
    assert_eq!(out.device_write, Some(vec![4, 5, 6]));
    let out = s.step(ReadEvent::TimedOut);
    assert_eq!(out.device_write, None);
}

#[test]
fn write_then_close_is_all_or_nothing() {
    // The queued buffer either reaches the device whole in the one
    // iteration that still runs, or not at all on a failed read.
    let mut s = Serial::open(115200, 100);
    assert_eq!(s.write(vec![10, 20]), WriteStatus::Enqueued);
    s.close();
    let out = s.step(ReadEvent::TimedOut);
    assert_eq!(out.device_write, Some(vec![10, 20]));
    assert!(out.exit);

    let mut s2 = Serial::open(115200, 100);
    assert_eq!(s2.write(vec![10, 20]), WriteStatus::Enqueued);
    s2.close();
    let out = s2.step(ReadEvent::Failed);
    assert_eq!(out.device_write, None);
    assert!(out.exit);
}

#[test]
fn loop_exits_only_after_observing_close() {
    let mut s = Serial::open(115200, 100);
    let out = s.step(ReadEvent::TimedOut);
    assert!(!out.exit);
    s.close();
    let out = s.step(ReadEvent::TimedOut);
    assert!(out.exit);
}
