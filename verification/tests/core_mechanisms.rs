use caliber::{
    ControlQueue, Error, LatestTelemetry, ResourceRegistry, SpscStream, StatePublisher, StreamError,
    WakeSignal,
};
use std::time::Duration;

#[test]
fn control_queue_is_bounded_and_ordered() {
    let mut queue = ControlQueue::new(2, 3).unwrap();
    assert_eq!(queue.try_push(b"one"), Ok(()));
    assert_eq!(queue.try_push(b"two"), Ok(()));
    assert_eq!(
        queue.try_push(b"four"),
        Err(Error::TooLarge {
            kind: "control message",
            actual: 4,
            maximum: 3,
        })
    );
    assert_eq!(queue.try_pop().as_deref(), Some(&b"one"[..]));
    assert_eq!(queue.try_pop().as_deref(), Some(&b"two"[..]));
    assert!(queue.try_pop().is_none());
    assert!(queue.wake_signal().try_take());
    assert!(!queue.wake_signal().is_pending());
}

#[test]
fn oversized_state_is_rejected_without_revision_change() {
    let mut publisher = StatePublisher::new(2).unwrap();
    assert_eq!(publisher.latest_revision(), None);
    assert_eq!(
        publisher.publish(1, b"abc"),
        Err(Error::TooLarge {
            kind: "state publication",
            actual: 3,
            maximum: 2,
        })
    );
    assert_eq!(publisher.latest_revision(), None);
    assert_eq!(
        publisher.publish(0, b"ok"),
        Err(Error::InvalidSchemaVersion)
    );
    let revision = publisher.publish(1, b"ok").unwrap();
    assert_eq!(revision, 1);
    let state = publisher.read().unwrap();
    assert_eq!(state.schema(), 1);
    assert_eq!(state.payload(), b"ok");
}

#[test]
fn stale_resource_handles_are_rejected_but_views_keep_bytes_alive() {
    let mut registry = ResourceRegistry::new(1, 16).unwrap();
    let handle = registry.insert(b"immutable").unwrap();
    let view = registry.get(handle).unwrap();
    let replacement = registry.replace(handle, b"replacement").unwrap();
    assert_eq!(view.bytes(), b"immutable");
    assert_eq!(registry.get(handle), Err(Error::StaleResource(handle)));
    assert_eq!(registry.get(replacement).unwrap().bytes(), b"replacement");
    registry.release(replacement).unwrap();
    assert_eq!(
        registry.get(replacement),
        Err(Error::StaleResource(replacement))
    );
    assert_eq!(registry.len(), 0);
    let reused = registry.insert(b"reused").unwrap();
    assert_eq!(reused.id, replacement.id);
    assert!(reused.generation > replacement.generation);
    assert_eq!(registry.get(reused).unwrap().bytes(), b"reused");
}

#[test]
fn telemetry_rejects_wrong_width_and_concurrent_writer() {
    let mut telemetry = LatestTelemetry::new(2).unwrap();
    assert_eq!(
        telemetry.publish(&[1]),
        Err(Error::WrongSize {
            kind: "telemetry sample",
            actual: 1,
            expected: 2,
        })
    );
    // A completed publish leaves the slot available for the next writer.
    telemetry.publish(&[1, 2]).unwrap();
    assert_eq!(telemetry.sequence(), 1);
}

#[test]
fn stream_reports_explicit_overflow_and_preserves_order() {
    let mut stream = SpscStream::new(2).unwrap();
    assert_eq!(stream.push(10), Ok(()));
    assert_eq!(stream.push(20), Ok(()));
    assert_eq!(stream.push(30), Err(StreamError::Full));
    assert_eq!(stream.dropped_count(), 1);
    assert_eq!(stream.pop(), Some(10));
    assert_eq!(stream.pop(), Some(20));
    assert_eq!(stream.pop(), None);
}

#[test]
fn stream_rejects_capacities_that_cannot_add_ring_sentinel() {
    assert!(matches!(
        SpscStream::<u8>::new(usize::MAX),
        Err(StreamError::InvalidCapacity)
    ));
    assert!(matches!(
        SpscStream::<u8>::new(usize::MAX - 1),
        Err(StreamError::InvalidCapacity)
    ));
}

#[test]
fn wake_signal_is_idle_until_notified_and_coalesces_notifications() {
    let mut signal = WakeSignal::new();
    assert!(!signal.is_pending());
    assert!(!signal.wait_timeout(Duration::from_millis(1)));
    signal.notify();
    signal.notify();
    assert!(signal.is_pending());
    assert!(signal.wait_timeout(Duration::from_millis(1)));
    assert!(signal.try_take());
    assert!(!signal.try_take());
}

#[test]
fn control_queue_rejects_zero_limits_and_reports_full() {
    assert_eq!(
        ControlQueue::new(0, 3).unwrap_err(),
        Error::InvalidLimit { name: "control capacity" }
    );
    assert_eq!(
        ControlQueue::new(1, 0).unwrap_err(),
        Error::InvalidLimit { name: "control message bytes" }
    );
    let mut queue = ControlQueue::new(1, 8).unwrap();
    assert!(queue.is_empty());
    queue.try_push(b"ready").unwrap();
    assert_eq!(queue.try_push(b"again"), Err(Error::Full { kind: "control queue" }));
    assert_eq!(queue.len(), 1);
    assert_eq!(queue.wait_pop(), b"ready".to_vec());
    queue.try_push(b"again").unwrap();
    assert_eq!(queue.wait_pop(), b"again".to_vec());
    let defaults = ControlQueue::with_defaults();
    assert!(defaults.is_empty());
}

#[test]
fn control_queue_push_raises_the_wake_signal_only_on_success() {
    let mut queue = ControlQueue::new(1, 2).unwrap();
    assert_eq!(
        queue.try_push(b"abc"),
        Err(Error::TooLarge { kind: "control message", actual: 3, maximum: 2 })
    );
    assert!(!queue.wake_signal().is_pending());
    queue.try_push(b"ab").unwrap();
    assert!(queue.wake_signal().is_pending());
}

#[test]
fn state_revisions_increase_by_one_and_reads_see_the_last_publication() {
    let mut publisher = StatePublisher::new(64).unwrap();
    for value in 1..=2_000_u64 {
        let revision = publisher.publish(1, &value.to_le_bytes()).unwrap();
        assert_eq!(revision, value);
        assert_eq!(publisher.latest_revision(), Some(value));
    }
    let snapshot = publisher.read().unwrap();
    assert_eq!(snapshot.revision(), 2_000);
    assert_eq!(snapshot.payload(), &2_000_u64.to_le_bytes());
    assert_eq!(
        StatePublisher::new(0).unwrap_err(),
        Error::InvalidLimit { name: "state bytes" }
    );
    assert!(StatePublisher::with_defaults().read().is_none());
}

#[test]
fn resource_registry_reports_unknown_full_and_too_large() {
    let mut registry = ResourceRegistry::new(1, 4).unwrap();
    assert!(registry.is_empty());
    assert_eq!(
        registry.insert(b"12345"),
        Err(Error::TooLarge { kind: "resource", actual: 5, maximum: 4 })
    );
    let handle = registry.insert(b"1234").unwrap();
    assert_eq!(handle.id, 1);
    assert_eq!(handle.generation, 1);
    assert_eq!(registry.insert(b"x"), Err(Error::Full { kind: "resource registry" }));
    let unknown = caliber::ResourceHandle { id: 9, generation: 1 };
    assert_eq!(registry.get(unknown), Err(Error::UnknownResource(unknown)));
    assert_eq!(registry.release(unknown), Err(Error::UnknownResource(unknown)));
    assert_eq!(registry.replace(handle, b"12345"), Err(Error::TooLarge { kind: "resource", actual: 5, maximum: 4 }));
    let view = registry.get(handle).unwrap();
    assert_eq!(view.handle(), handle);
    registry.release(handle).unwrap();
    assert_eq!(registry.release(handle), Err(Error::StaleResource(handle)));
    assert_eq!(view.bytes(), b"1234");
    assert_eq!(
        ResourceRegistry::new(0, 1).unwrap_err(),
        Error::InvalidLimit { name: "resource count" }
    );
    assert_eq!(
        ResourceRegistry::new(1, 0).unwrap_err(),
        Error::InvalidLimit { name: "resource bytes" }
    );
    assert_eq!(ResourceRegistry::with_defaults().len(), 0);
}

#[test]
fn telemetry_reads_the_latest_sample_and_counts_publications() {
    let mut telemetry = LatestTelemetry::new(2).unwrap();
    let mut output = [0_usize; 2];
    assert_eq!(telemetry.read_into(&mut output), Err(Error::NoTelemetry));
    assert_eq!(
        telemetry.read_into(&mut [0; 3]),
        Err(Error::WrongSize { kind: "telemetry output", actual: 3, expected: 2 })
    );
    for value in 1..=10_000_usize {
        assert_eq!(telemetry.publish(&[value, !value]), Ok(value as u64));
    }
    assert_eq!(telemetry.read_into(&mut output), Ok(10_000));
    assert_eq!(output, [10_000, !10_000]);
    assert_eq!(telemetry.sequence(), 10_000);
    assert_eq!(telemetry.width(), 2);
    assert_eq!(LatestTelemetry::new(0).unwrap_err(), Error::InvalidLimit { name: "telemetry width" });
    assert_eq!(LatestTelemetry::with_defaults().unwrap().width(), 8);
}

#[test]
fn stream_wraps_around_and_keeps_fifo_order() {
    let mut stream = SpscStream::new(3).unwrap();
    assert_eq!(stream.capacity(), 3);
    let mut next = 0_u64;
    for value in 0..100_u64 {
        stream.push(value).unwrap();
        if value % 2 == 1 {
            assert_eq!(stream.pop(), Some(next));
            next += 1;
            assert_eq!(stream.pop(), Some(next));
            next += 1;
        }
    }
    assert!(stream.is_empty());
    assert_eq!(stream.len(), 0);
    assert!(matches!(SpscStream::<u8>::new(0), Err(StreamError::InvalidCapacity)));
    assert_eq!(SpscStream::<u8>::with_defaults().unwrap().capacity(), 1024);
}

#[test]
fn error_messages_describe_the_failure() {
    assert_eq!(Error::Full { kind: "control queue" }.message(), "control queue is full");
    assert_eq!(
        Error::TooLarge { kind: "resource", actual: 5, maximum: 4 }.message(),
        "resource is 5 bytes, maximum is 4"
    );
    assert_eq!(StreamError::Full.message(), "SPSC stream is full");
}

#[test]
fn publication_replacement_trace_keeps_the_last_valid_revision() {
    let mut publisher = StatePublisher::new(8).unwrap();
    assert_eq!(publisher.publish(1, b"n").unwrap(), 1);
    assert!(publisher.publish(1, b"too large!").is_err());
    assert!(publisher.publish(0, b"x").is_err());
    let observed = publisher.read().unwrap();
    assert_eq!((observed.revision(), observed.payload()), (1, &b"n"[..]));
    assert_eq!(publisher.publish(2, b"n+2").unwrap(), 2);
    let observed = publisher.read().unwrap();
    assert_eq!(observed.revision(), 2);
    assert_eq!(observed.schema(), 2);
    assert_eq!(observed.payload(), b"n+2");
}

#[test]
fn queue_and_stream_are_first_in_first_out() {
    let mut queue = ControlQueue::new(4, 8).unwrap();
    queue.try_push(b"a").unwrap();
    queue.try_push(b"b").unwrap();
    assert_eq!(queue.try_pop().unwrap(), b"a");
    queue.try_push(b"c").unwrap();
    assert_eq!(queue.try_pop().unwrap(), b"b");
    assert_eq!(queue.try_pop().unwrap(), b"c");
    assert!(queue.try_pop().is_none());
    let mut stream = SpscStream::new(2).unwrap();
    stream.push(1u32).unwrap();
    stream.push(2u32).unwrap();
    assert_eq!(stream.pop(), Some(1));
    stream.push(3u32).unwrap();
    assert_eq!(stream.pop(), Some(2));
    assert_eq!(stream.pop(), Some(3));
}

#[test]
fn state_publication_revision_and_payload_are_coherent() {
    let mut publisher = StatePublisher::new(64).unwrap();
    for value in 1..=2_000_u64 {
        let payload = value.to_le_bytes();
        publisher.publish(1, &payload).unwrap();
        let snapshot = publisher.read().unwrap();
        let seen = u64::from_le_bytes(snapshot.payload().try_into().unwrap());
        assert_eq!(snapshot.revision(), value);
        assert_eq!(seen, value);
    }
    assert_eq!(publisher.read().unwrap().payload(), &2_000_u64.to_le_bytes());
}

#[test]
fn telemetry_reads_are_coherent_and_publish_does_not_need_history() {
    let mut telemetry = LatestTelemetry::new(2).unwrap();
    assert_eq!(telemetry.read_into(&mut [0; 2]), Err(Error::NoTelemetry));
    let mut output = [0; 2];
    for value in 1..=10_000_usize {
        telemetry.publish(&[value, !value]).unwrap();
        if value % 97 == 0 {
            telemetry.read_into(&mut output).unwrap();
            assert_eq!(output[1], !output[0]);
        }
    }
    telemetry.read_into(&mut output).unwrap();
    assert_eq!(output, [10_000, !10_000]);
    assert_eq!(telemetry.sequence(), 10_000);
}

#[test]
fn stream_handles_one_producer_and_one_consumer() {
    let mut stream = SpscStream::new(32).unwrap();
    let mut produced = 0_u64;
    let mut next = 0_u64;
    while next < 10_000 {
        while produced < 10_000 && stream.push(produced).is_ok() {
            produced += 1;
        }
        while let Some(value) = stream.pop() {
            assert_eq!(value, next);
            next += 1;
        }
    }
    assert_eq!(stream.dropped_count(), 10_000 / 32);
}

#[test]
fn waiting_control_queue_does_not_poll_while_idle() {
    let mut queue = ControlQueue::new(1, 8).unwrap();
    queue.try_push(b"ready").unwrap();
    let first = queue.wait_pop();
    queue.try_push(b"again").unwrap();
    let second = queue.wait_pop();
    assert_eq!((first, second), (b"ready".to_vec(), b"again".to_vec()));
}

#[test]
fn every_error_describes_itself() {
    let handle = caliber::ResourceHandle { id: 3, generation: 7 };
    assert_eq!(Error::InvalidLimit { name: "state bytes" }.message(), "invalid limit: state bytes");
    assert_eq!(
        Error::WrongSize { kind: "telemetry sample", actual: 1, expected: 20 }.message(),
        "telemetry sample has size 1, expected 20"
    );
    assert_eq!(
        Error::StaleResource(handle).message(),
        format!("stale resource handle {handle:?}")
    );
    assert_eq!(
        Error::UnknownResource(handle).message(),
        format!("unknown resource handle {handle:?}")
    );
    assert_eq!(
        Error::InvalidSchemaVersion.message(),
        "state schema version must be non-zero"
    );
    assert_eq!(Error::TelemetryBusy.message(), "telemetry is being published");
    assert_eq!(Error::RevisionExhausted.message(), "revision counter exhausted");
    assert_eq!(
        Error::AllocationFailed { kind: "control message" }.message(),
        "allocation failed: control message"
    );
    assert_eq!(
        StreamError::InvalidCapacity.message(),
        "SPSC stream capacity must be non-zero"
    );
    assert_eq!(
        Error::TooLarge { kind: "resource", actual: 1_000_000, maximum: 0 }.message(),
        "resource is 1000000 bytes, maximum is 0"
    );
}

#[test]
fn copies_of_empty_bytes_always_succeed() {
    assert_eq!(caliber::bytes::try_copy_bytes(&[]), Some(Vec::new()));
    assert_eq!(caliber::bytes::try_copy_bytes(b"abc"), Some(b"abc".to_vec()));
}

#[test]
fn streams_of_zero_sized_values_take_any_countable_capacity() {
    let mut stream = caliber::stream::SpscStream::<()>::new(isize::MAX as usize).unwrap();
    assert_eq!(stream.capacity(), isize::MAX as usize);
    assert!(stream.push(()).is_ok());
    assert_eq!(stream.len(), 1);
    assert_eq!(stream.pop(), Some(()));
    assert!(caliber::stream::SpscStream::<()>::new(usize::MAX).is_err());
}
