use caliber::abi::{config_prefix, prefix_covers, ConfigPrefix};
use caliber::abi::{
    default_or, map_core_error, CaliberContextConfig, CaliberStatus, CaliberTelemetryInfo, Limits,
    CALIBER_DEFAULT_MAX_COMMAND_BYTES, CALIBER_HARD_MAX_PENDING_COMMANDS,
};
use caliber::context::CaliberContext;
use caliber::Error as CoreError;

fn context() -> Box<CaliberContext> {
    CaliberContext::new(CaliberContextConfig::default()).expect("default config")
}

#[test]
fn command_bytes_are_bounded_and_wake_sequence_changes() {
    let mut context = context();
    let wake = context.wake_sequence();
    assert_eq!(context.dispatch(b"hello"), CaliberStatus::Success);
    let after = context.wake_sequence();
    assert_ne!(wake, after);

    let limits = CaliberContextConfig {
        max_command_bytes: 2,
        ..CaliberContextConfig::default()
    };
    let mut small = CaliberContext::new(limits).expect("small config");
    assert_eq!(small.dispatch(b"123"), CaliberStatus::LimitExceeded);
}

#[test]
fn state_lease_survives_context_destroy() {
    let mut context = context();
    assert_eq!(context.publish_state(3, b"state"), Ok(1));
    let publication = context.read_state().expect("state");
    assert_eq!(publication.revision(), 1);
    assert_eq!(publication.schema(), 3);
    assert_eq!(publication.payload(), b"state");
    drop(context);
    assert_eq!(publication.payload(), b"state");
}

#[test]
fn resource_generation_is_exact_and_release_clears_view() {
    let mut context = context();
    let (resource_id, generation) = context
        .publish_resource(b"waveform")
        .expect("resource publication");
    assert!(matches!(
        context.map_resource(resource_id, generation - 1),
        Err(CaliberStatus::Stale)
    ));
    let view = context
        .map_resource(resource_id, generation)
        .expect("resource");
    assert_eq!(view.bytes(), b"waveform");
}

#[test]
fn released_resource_slots_are_reused_with_a_new_generation() {
    let config = CaliberContextConfig {
        max_resources: 1,
        ..CaliberContextConfig::default()
    };
    let mut context = CaliberContext::new(config).expect("bounded config");
    let (resource_id, generation) = context.publish_resource(b"first").expect("first resource");
    assert_eq!(
        context.publish_resource(b"still full"),
        Err(CaliberStatus::QueueFull)
    );
    assert_eq!(
        context.release_resource(resource_id, generation),
        CaliberStatus::Success
    );
    let (reused_id, reused_generation) = context
        .publish_resource(b"second")
        .expect("reused resource slot");
    assert_eq!(reused_id, resource_id);
    assert!(reused_generation > generation);
    assert!(matches!(
        context.map_resource(resource_id, generation),
        Err(CaliberStatus::Stale)
    ));
    let view = context
        .map_resource(reused_id, reused_generation)
        .expect("new generation");
    assert_eq!(view.bytes().len(), 6);
}

#[test]
fn telemetry_reports_required_size_without_partial_copy() {
    let mut context = context();
    assert_eq!(
        context.publish_telemetry(&[44, 8, 7, 6, 5, 4, 3, 2]),
        CaliberStatus::Success
    );
    let mut out = [0_usize; 2];
    let (status, info) = context.read_latest_telemetry_into(&mut out);
    assert_eq!(status, CaliberStatus::BufferTooSmall);
    let info = info.unwrap();
    assert_eq!(info.sequence, 1);
    assert_eq!(info.value_count, 8);
    assert_eq!(out, [0, 0]);
    let mut out = [0_usize; 8];
    let (status, _) = context.read_latest_telemetry_into(&mut out);
    assert_eq!(status, CaliberStatus::Success);
    assert_eq!(&out, &[44, 8, 7, 6, 5, 4, 3, 2]);
}

#[test]
fn oversized_config_is_rejected_before_allocating_context() {
    let config = CaliberContextConfig {
        max_pending_commands: CALIBER_HARD_MAX_PENDING_COMMANDS + 1,
        ..CaliberContextConfig::default()
    };
    assert!(matches!(
        CaliberContext::new(config),
        Err(CaliberStatus::LimitExceeded)
    ));
}

#[test]
fn null_and_zero_length_rules_are_explicit() {
    let mut context = context();
    // An empty command is a valid command.
    assert_eq!(context.dispatch(&[]), CaliberStatus::Success);
    assert_eq!(context.peek_command_size(), Ok(0));
}

#[test]
fn commands_are_taken_in_order_and_short_buffers_keep_them_queued() {
    let mut context = context();
    assert_eq!(context.take_command_into(&mut [0_u8; 4]), (CaliberStatus::Unavailable, None));
    assert_eq!(context.dispatch(b"select:9"), CaliberStatus::Success);
    assert_eq!(context.dispatch(b"next"), CaliberStatus::Success);
    assert_eq!(context.peek_command_size(), Ok(8));
    let mut short = [0_u8; 1];
    assert_eq!(
        context.take_command_into(&mut short),
        (CaliberStatus::BufferTooSmall, Some(8))
    );
    assert_eq!(short, [0]);
    let mut taken = [0_u8; 32];
    assert_eq!(
        context.take_command_into(&mut taken),
        (CaliberStatus::Success, Some(8))
    );
    assert_eq!(&taken[..8], b"select:9");
    let mut taken = [0_u8; 4];
    assert_eq!(context.take_command(&mut taken), Ok(4));
    assert_eq!(&taken, b"next");
    assert_eq!(context.take_command(&mut taken), Err(CaliberStatus::Unavailable));
}

#[test]
fn command_queue_fills_at_the_configured_bound() {
    let config = CaliberContextConfig {
        max_pending_commands: 1,
        ..CaliberContextConfig::default()
    };
    let mut context = CaliberContext::new(config).unwrap();
    assert_eq!(context.dispatch(b"a"), CaliberStatus::Success);
    assert_eq!(context.dispatch(b"b"), CaliberStatus::QueueFull);
}

#[test]
fn state_publication_maps_errors_to_statuses() {
    let mut context = context();
    assert_eq!(context.read_state().unwrap_err(), CaliberStatus::Unavailable);
    assert_eq!(context.publish_state(0, b"x"), Err(CaliberStatus::InvalidArgument));
    assert_eq!(context.publish_state(1, b"a"), Ok(1));
    assert_eq!(context.publish_state(1, b"b"), Ok(2));
    assert_eq!(context.read_state().unwrap().payload(), b"b");
}

#[test]
fn resource_ids_are_checked_before_generations() {
    let mut context = context();
    assert!(matches!(context.map_resource(5, 1), Err(CaliberStatus::NotFound)));
    assert_eq!(context.release_resource(5, 1), CaliberStatus::NotFound);
    let (id, generation) = context.publish_resource(b"bulk").unwrap();
    assert_eq!((id, generation), (1, 1));
    assert_eq!(context.release_resource(id, generation + 1), CaliberStatus::Stale);
    assert_eq!(context.release_resource(id, generation), CaliberStatus::Success);
    assert_eq!(context.release_resource(id, generation), CaliberStatus::Stale);
}

#[test]
fn telemetry_width_is_enforced() {
    let mut context = context();
    let mut out = [0_usize; 8];
    assert_eq!(context.read_telemetry(&mut out), Err(CaliberStatus::Unavailable));
    assert_eq!(context.telemetry_info(), Err(CaliberStatus::Unavailable));
    assert_eq!(context.publish_telemetry(&[1, 2]), CaliberStatus::InvalidArgument);
    assert_eq!(context.publish_telemetry(&[1, 2, 3, 4, 5, 6, 7, 8]), CaliberStatus::Success);
    assert_eq!(
        context.read_telemetry(&mut out),
        Ok(CaliberTelemetryInfo {
            sequence: 1,
            schema: 0,
            reserved: 0,
            value_count: 8,
            value_size: std::mem::size_of::<usize>(),
        })
    );
    assert_eq!(context.read_telemetry(&mut [0; 2]), Err(CaliberStatus::BufferTooSmall));
}

#[test]
fn limits_default_zero_fields_and_reject_hard_overflows() {
    let config = CaliberContextConfig {
        struct_size: 0,
        max_command_bytes: 0,
        max_publication_bytes: 0,
        max_resource_bytes: 0,
        max_resources: 0,
        telemetry_width: 0,
        max_pending_commands: 0,
    };
    let limits = Limits::from_config(config).unwrap();
    assert_eq!(limits.command_bytes, CALIBER_DEFAULT_MAX_COMMAND_BYTES);
    assert_eq!(limits.pending_commands, 256);
    assert_eq!(limits.telemetry_width, 8);
    let too_wide = CaliberContextConfig { telemetry_width: 4097, ..config };
    assert_eq!(Limits::from_config(too_wide), Err(CaliberStatus::LimitExceeded));
    assert_eq!(default_or(0, 7), 7);
    assert_eq!(default_or(3, 7), 3);
}

#[test]
fn core_errors_map_to_fixed_statuses() {
    assert_eq!(map_core_error(CoreError::TelemetryBusy), CaliberStatus::QueueFull);
    assert_eq!(map_core_error(CoreError::NoTelemetry), CaliberStatus::Unavailable);
    assert_eq!(map_core_error(CoreError::AllocationFailed { kind: "x" }), CaliberStatus::Internal);
    assert_eq!(map_core_error(CoreError::RevisionExhausted), CaliberStatus::InvalidArgument);
    assert_eq!(CaliberStatus::Success.code(), 0);
    assert_eq!(CaliberStatus::QueueFull.code(), 8);
    assert_eq!(CaliberStatus::Internal.code(), 10);
}

#[test]
fn short_config_prefix_is_read_without_overreading_new_fields() {
    let word = std::mem::size_of::<usize>();
    let command_offset = word.max(4);
    let advertised = command_offset + word;
    assert_eq!(config_prefix(advertised), ConfigPrefix::Fields);
    assert_eq!(prefix_covers(advertised, command_offset, word), Ok(true));
    assert_eq!(prefix_covers(advertised, command_offset + word, word), Ok(false));
    assert_eq!(prefix_covers(advertised, usize::MAX, word), Err(CaliberStatus::InvalidArgument));
    assert_eq!(config_prefix(0), ConfigPrefix::Defaults);
    assert_eq!(config_prefix(3), ConfigPrefix::Invalid);
    let config = CaliberContextConfig {
        max_command_bytes: 3,
        ..CaliberContextConfig::default()
    };
    let mut context = CaliberContext::new(config).expect("short config");
    assert_eq!(context.dispatch(b"1234"), CaliberStatus::LimitExceeded);
}

#[test]
fn release_answers_not_found_only_for_ids_never_issued() {
    let mut context = context();
    assert_eq!(context.release_resource(1, 1), CaliberStatus::NotFound);
    let (id, generation) = context.publish_resource(b"bytes").unwrap();
    assert_eq!(context.release_resource(id, generation + 1), CaliberStatus::Stale);
    assert_eq!(context.release_resource(id, generation), CaliberStatus::Success);
    assert_eq!(context.release_resource(id, generation), CaliberStatus::Stale);
    assert!(matches!(context.map_resource(id, generation), Err(CaliberStatus::Stale)));
    assert_eq!(context.release_resource(id + 1, 1), CaliberStatus::NotFound);
}
