use neuromorphic_drivers::usb::{
    BufferView, CompletionStatus, Configuration, Error, Ring, Speed, Teardown, TransferStatus,
    TransportError,
};

fn configuration(ring_size: usize, transfer_queue_size: usize) -> Configuration {
    Configuration { buffer_size: 64, ring_size, transfer_queue_size, allow_dma: false }
}

/// Descriptors complete in submission order; this tracks which one is next.
struct Producer {
    next: usize,
    queue: usize,
}

impl Producer {
    fn complete(&mut self, ring: &mut Ring, length: usize) -> neuromorphic_drivers::usb::Completion {
        // skip retired descriptors, as a transport would never call them back
        let mut tries = 0;
        while ring.status(self.next) != TransferStatus::Active {
            self.next = (self.next + 1) % self.queue;
            tries += 1;
            assert!(tries <= self.queue, "no active descriptor");
        }
        let completion = ring.complete(self.next, CompletionStatus::Completed, length);
        self.next = (self.next + 1) % self.queue;
        completion
    }
}

fn backlog(ring: &Ring, slot: usize) -> usize {
    let (start, end) = ring.write_range();
    let view = BufferView {
        instant: std::time::Instant::now(),
        slice: &[],
        read: slot,
        write_range: (start, end),
        ring_length: ring.ring_length(),
    };
    view.backlog()
}

#[test]
fn ring_size_must_exceed_queue_size() {
    assert!(matches!(Ring::new(&configuration(2, 2)), Err(Error::ConfigurationSizes)));
    assert!(matches!(Ring::new(&configuration(2, 3)), Err(Error::ConfigurationSizes)));
    assert!(Ring::new(&configuration(3, 2)).is_ok());
}

#[test]
fn fresh_ring() {
    let ring = Ring::new(&configuration(4, 2)).unwrap();
    assert_eq!(ring.read(), 3);
    assert_eq!(ring.write_range(), (0, 2));
    assert_eq!(ring.ring_length(), 4);
    assert_eq!(ring.transfer_queue_size(), 2);
    assert_eq!(ring.pending(), 0);
    assert_eq!(ring.status(0), TransferStatus::Active);
    assert_eq!(ring.status(1), TransferStatus::Active);
}

#[test]
fn consumer_keeping_up_sees_no_backlog() {
    let mut ring = Ring::new(&configuration(4, 2)).unwrap();
    let mut producer = Producer { next: 0, queue: 2 };
    for round in 0..20 {
        assert_eq!(ring.next(), None);
        let completion = producer.complete(&mut ring, 64);
        assert!(!completion.overflow);
        assert_eq!(completion.error, None);
        assert_eq!(completion.recorded, Some(round % 4));
        assert_eq!(completion.resubmit, Some((round + 2) % 4));
        let slot = ring.next().unwrap();
        assert_eq!(slot, round % 4);
        assert_eq!(ring.length(slot), 64);
        assert_eq!(backlog(&ring, slot), 0);
    }
}

#[test]
fn short_sleep_leaves_a_backlog_without_overflow() {
    // a ring of N slots and Q transfers holds N - Q - 1 filled buffers for the consumer
    let mut ring = Ring::new(&configuration(8, 2)).unwrap();
    let mut producer = Producer { next: 0, queue: 2 };
    for _ in 0..5 {
        assert!(!producer.complete(&mut ring, 64).overflow);
    }
    assert_eq!(ring.pending(), 5);
    let slot = ring.next().unwrap();
    assert_eq!(slot, 0);
    assert_eq!(backlog(&ring, slot), 4);
}

#[test]
fn long_sleep_overflows_and_keeps_delivering_what_was_filled() {
    let mut ring = Ring::new(&configuration(4, 2)).unwrap();
    let mut producer = Producer { next: 0, queue: 2 };
    let first = producer.complete(&mut ring, 64);
    assert!(!first.overflow);
    let second = producer.complete(&mut ring, 64);
    assert!(second.overflow);
    assert_eq!(second.resubmit, None);
    assert_eq!(second.recorded, None);
    assert_eq!(ring.status(1), TransferStatus::Complete);
    // the buffered data is still delivered
    assert_eq!(ring.next(), Some(0));
    assert_eq!(ring.next(), None);
    // the surviving descriptor keeps the stream going
    let third = producer.complete(&mut ring, 32);
    assert!(!third.overflow);
    assert_eq!(ring.next(), Some(1));
    assert_eq!(ring.length(1), 32);
}

#[test]
fn zero_length_buffers_are_skipped() {
    let mut ring = Ring::new(&configuration(6, 2)).unwrap();
    let mut producer = Producer { next: 0, queue: 2 };
    producer.complete(&mut ring, 0);
    producer.complete(&mut ring, 0);
    producer.complete(&mut ring, 10);
    assert_eq!(ring.next(), Some(2));
    assert_eq!(ring.read(), 2);
    producer.complete(&mut ring, 0);
    assert_eq!(ring.next(), None);
    assert_eq!(ring.read(), 3);
}

#[test]
fn transport_errors_retire_the_descriptor() {
    let mut ring = Ring::new(&configuration(4, 2)).unwrap();
    let completion = ring.complete(0, CompletionStatus::Stall, 16);
    assert_eq!(completion.error, Some(TransportError::Pipe));
    assert_eq!(completion.recorded, Some(0));
    assert_eq!(completion.resubmit, None);
    assert_eq!(ring.status(0), TransferStatus::Complete);
    assert_eq!(ring.next(), Some(0));
    let completion = ring.complete(1, CompletionStatus::NoDevice, 0);
    assert_eq!(completion.error, Some(TransportError::NoDevice));
    assert_eq!(CompletionStatus::Error.error(), Some(TransportError::Io));
    assert_eq!(CompletionStatus::Cancelled.error(), Some(TransportError::Io));
    assert_eq!(CompletionStatus::Overflow.error(), Some(TransportError::Overflow));
    assert_eq!(CompletionStatus::TimedOut.error(), None);
}

#[test]
fn resubmission_failure_retires_the_descriptor() {
    let mut ring = Ring::new(&configuration(4, 2)).unwrap();
    let completion = ring.complete(0, CompletionStatus::Completed, 8);
    assert_eq!(completion.resubmit, Some(2));
    ring.resubmit_failed(0);
    assert_eq!(ring.status(0), TransferStatus::Complete);
}

#[test]
fn unsubmitted_descriptors_are_complete() {
    let mut ring = Ring::new(&configuration(8, 4)).unwrap();
    ring.abandon_from(1);
    assert_eq!(ring.status(0), TransferStatus::Active);
    for index in 1..4 {
        assert_eq!(ring.status(index), TransferStatus::Complete);
    }
}

#[test]
fn teardown_deallocates_every_descriptor() {
    let mut ring = Ring::new(&configuration(4, 3)).unwrap();
    ring.complete(2, CompletionStatus::Error, 0);
    // first pass: the transport accepts one cancellation and refuses another
    let mut accepted = vec![true, false, true];
    for pass in 0..3 {
        for index in 0..3 {
            match ring.teardown_action(index) {
                Teardown::Cancel => ring.cancel_requested(index, accepted[index]),
                Teardown::Free => ring.freed(index),
                Teardown::Wait | Teardown::Done => {}
            }
        }
        if pass == 0 {
            assert_eq!(ring.status(0), TransferStatus::Cancelling);
            assert_eq!(ring.status(1), TransferStatus::Complete);
            assert_eq!(ring.status(2), TransferStatus::Deallocated);
            assert!(!ring.released());
            // the cancelled transfer calls back
            ring.complete(0, CompletionStatus::Cancelled, 0);
        }
        accepted = vec![true, true, true];
    }
    assert!(ring.released());
}

#[test]
fn cancel_all_marks_active_descriptors() {
    let mut ring = Ring::new(&configuration(4, 2)).unwrap();
    ring.complete(1, CompletionStatus::Stall, 0);
    ring.cancel_all();
    assert_eq!(ring.status(0), TransferStatus::Cancelling);
    assert_eq!(ring.status(1), TransferStatus::Complete);
    // a cancelled transfer's completion still delivers its data
    let completion = ring.complete(0, CompletionStatus::Completed, 5);
    assert_eq!(completion.error, None);
    assert_eq!(completion.resubmit, None);
    assert_eq!(ring.status(0), TransferStatus::Complete);
}

#[test]
fn backlog_formula() {
    let view = BufferView {
        instant: std::time::Instant::now(),
        slice: &[1, 2, 3],
        read: 5,
        write_range: (2, 4),
        ring_length: 8,
    };
    assert_eq!(view.backlog(), 4);
    assert!(view.delay() < std::time::Duration::from_secs(60));
}

#[test]
fn speed_descriptions() {
    assert_eq!(Speed::High.to_string(), "USB 2.0 High Speed (480 Mb/s)");
    assert_eq!(Speed::Unknown.to_string(), "USB Unknown speed");
}
