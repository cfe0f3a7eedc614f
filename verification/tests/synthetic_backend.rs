use caliber::backend::{
    replay_trace, Command, SyntheticBackend, TraceOutcome, WAVEFORM,
};
use caliber::synthetic::{
    decode_state, encode_state, AppState, BackendError, WaveformRef, MAX_STATE_BYTES, SAMPLE_HAT,
    SAMPLE_KICK, SAMPLE_SNARE, WAVEFORM_KEY, WAVEFORM_KEY_BYTES,
};
use caliber::Error as CoreError;
use caliber::Revision;
use std::collections::BTreeSet;

fn at_revision(revision: Revision, command: impl FnOnce(Revision) -> Command) -> Command {
    command(revision)
}

type WireTuple = (String, Option<u32>, Option<u32>, u8, u8, Option<([u8; 18], u32)>);

fn valid_wire_state() -> WireTuple {
    (String::new(), None, None, 100, 0, None)
}

fn encode_wire_state_for_test(wire: &WireTuple) -> Vec<u8> {
    postcard::to_allocvec(wire).expect("test wire state is serializable")
}

#[test]
fn command_state_and_waveform_use_separate_planes() {
    let mut backend = SyntheticBackend::new().unwrap();
    assert_eq!(backend.read_state().unwrap().revision, 1);
    assert_eq!(backend.live_resource_count(), 1);

    let state = backend
        .dispatch(Command::SetSearch {
            query: "snare".into(),
            based_on_revision: 1,
        })
        .unwrap();
    assert_eq!(state.visible_samples[0].name, "snare");
    let state = backend
        .dispatch(Command::SelectSample {
            sample_id: SAMPLE_SNARE,
            based_on_revision: state.revision,
        })
        .unwrap();
    let reference = state.waveform.clone().expect("selection publishes ref");
    let first_view = backend.map_waveform(&reference).unwrap();
    assert_eq!(first_view.bytes().len(), reference.byte_len);
    assert_eq!(backend.live_resource_count(), 1);

    let state = backend
        .dispatch(Command::StartPreview {
            sample_id: SAMPLE_SNARE,
            based_on_revision: state.revision,
        })
        .unwrap();
    assert_eq!(state.preview_sample, Some(SAMPLE_SNARE));
    let second_view = backend.map_waveform(&reference).unwrap();
    assert_eq!(first_view.bytes(), second_view.bytes());
}

#[test]
fn stale_commands_are_rejected_without_a_new_publication() {
    let mut backend = SyntheticBackend::new().unwrap();
    let before = backend.read_state().unwrap();
    let error = backend
        .dispatch(Command::SetSearch {
            query: "late".into(),
            based_on_revision: before.revision - 1,
        })
        .unwrap_err();
    assert_eq!(
        error,
        BackendError::StaleRevision {
            expected: before.revision,
            supplied: before.revision - 1,
        }
    );
    assert_eq!(backend.read_state().unwrap(), before);
    assert!(matches!(
        backend.trace()[0].outcome,
        TraceOutcome::Rejected(_)
    ));
}

#[test]
fn malformed_candidate_preserves_last_atomic_publication() {
    let mut backend = SyntheticBackend::new().unwrap();
    let before = backend.read_state().unwrap();
    let error = backend
        .try_publish_raw_for_test(b"not-a-state")
        .unwrap_err();
    assert!(matches!(error, BackendError::InvalidState(_)));
    assert_eq!(backend.read_state().unwrap(), before);
}

#[test]
fn oversized_state_is_rejected_before_postcard_decode() {
    let mut backend = SyntheticBackend::new().unwrap();
    let before = backend.read_state().unwrap();
    let error = backend
        .try_publish_raw_for_test(&vec![0xff; MAX_STATE_BYTES + 1])
        .unwrap_err();
    assert_eq!(
        error,
        BackendError::StateTooLarge {
            bytes: MAX_STATE_BYTES + 1,
            maximum: MAX_STATE_BYTES,
        }
    );
    assert_eq!(backend.read_state().unwrap(), before);
}

#[test]
fn postcard_state_keeps_favorites_and_resource_reference_fixed_size() {
    let mut wire = valid_wire_state();
    wire.4 = 1 << 1;
    wire.5 = Some((WAVEFORM_KEY_BYTES, 64));
    let decoded = decode_state(&encode_wire_state_for_test(&wire)).unwrap();
    assert_eq!(decoded.favorite_samples, BTreeSet::from([SAMPLE_SNARE]));
    assert_eq!(decoded.waveform.unwrap().byte_len, 64);

    wire.4 = 0b1000;
    let error = decode_state(&encode_wire_state_for_test(&wire)).unwrap_err();
    assert!(matches!(error, BackendError::InvalidState(_)));
}

#[test]
fn waveform_reference_fails_closed_after_resource_release() {
    let mut backend = SyntheticBackend::new().unwrap();
    let state = backend
        .dispatch(Command::SelectSample {
            sample_id: SAMPLE_KICK,
            based_on_revision: 1,
        })
        .unwrap();
    let reference = state.waveform.unwrap();
    let view = backend.map_waveform(&reference).unwrap();
    backend.release_waveform_for_test().unwrap();
    assert_eq!(view.bytes().len(), reference.byte_len);
    assert!(matches!(
        backend.map_waveform(&reference),
        Err(BackendError::Core(CoreError::StaleResource(_)))
    ));
}

#[test]
fn meter_keeps_only_the_newest_coherent_value() {
    let mut backend = SyntheticBackend::new().unwrap();
    for index in 0..500 {
        backend
            .publish_meter_bits((index as f32).to_bits(), ((index as f32) + 0.5).to_bits())
            .unwrap();
    }
    let (sequence, left, right) = backend.read_meter_bits().unwrap();
    assert_eq!(sequence, 500);
    assert_eq!(f32::from_bits(left), 499.0);
    assert_eq!(f32::from_bits(right), 499.5);
}

#[test]
fn deterministic_trace_replays_identically() {
    let commands = vec![
        at_revision(1, |revision| Command::SetSearch {
            query: "s".into(),
            based_on_revision: revision,
        }),
        at_revision(2, |revision| Command::SelectSample {
            sample_id: SAMPLE_SNARE,
            based_on_revision: revision,
        }),
        at_revision(3, |revision| Command::ToggleFavorite {
            sample_id: SAMPLE_SNARE,
            based_on_revision: revision,
        }),
    ];
    let first = replay_trace(&commands).unwrap();
    let second = replay_trace(&commands).unwrap();
    assert_eq!(first, second);
    assert_eq!(first.1.revision, 4);
    assert!(first.1.favorite_samples.contains(&SAMPLE_SNARE));
}

#[test]
fn invalid_command_does_not_advance_revision() {
    let mut backend = SyntheticBackend::new().unwrap();
    let before = backend.read_state().unwrap();
    let error = backend
        .dispatch(Command::SelectSample {
            sample_id: 99,
            based_on_revision: before.revision,
        })
        .unwrap_err();
    assert_eq!(error, BackendError::UnknownSample(99));
    assert_eq!(backend.read_state().unwrap(), before);
}

#[test]
fn search_is_case_insensitive_and_empty_query_shows_everything() {
    let mut backend = SyntheticBackend::new().unwrap();
    let state = backend.read_state().unwrap();
    let names: Vec<&str> = state.visible_samples.iter().map(|s| s.name).collect();
    assert_eq!(names, vec!["kick", "snare", "hat"]);
    let state = backend
        .dispatch(Command::SetSearch { query: "HA".into(), based_on_revision: 1 })
        .unwrap();
    let names: Vec<&str> = state.visible_samples.iter().map(|s| s.name).collect();
    assert_eq!(names, vec!["hat"]);
    assert_eq!(state.query, "HA");
    let state = backend
        .dispatch(Command::SetSearch { query: "zzz".into(), based_on_revision: 2 })
        .unwrap();
    assert!(state.visible_samples.is_empty());
}

#[test]
fn favorite_toggles_and_is_reported_in_visible_samples() {
    let mut backend = SyntheticBackend::new().unwrap();
    let state = backend
        .dispatch(Command::ToggleFavorite { sample_id: SAMPLE_HAT, based_on_revision: 1 })
        .unwrap();
    assert!(state.favorite_samples.contains(&SAMPLE_HAT));
    assert!(state.visible_samples[2].favorite);
    assert!(!state.visible_samples[0].favorite);
    let state = backend
        .dispatch(Command::ToggleFavorite { sample_id: SAMPLE_HAT, based_on_revision: 2 })
        .unwrap();
    assert!(state.favorite_samples.is_empty());
    assert_eq!(state.revision, 3);
}

#[test]
fn preview_stops_and_oversized_query_is_rejected() {
    let mut backend = SyntheticBackend::new().unwrap();
    let state = backend
        .dispatch(Command::StartPreview { sample_id: SAMPLE_KICK, based_on_revision: 1 })
        .unwrap();
    assert_eq!(state.preview_sample, Some(SAMPLE_KICK));
    let state = backend.dispatch(Command::StopPreview { based_on_revision: 2 }).unwrap();
    assert_eq!(state.preview_sample, None);
    let error = backend
        .dispatch(Command::SetSearch { query: "x".repeat(257), based_on_revision: 3 })
        .unwrap_err();
    assert_eq!(error, BackendError::QueryTooLarge { bytes: 257, maximum: 256 });
    let trace = backend.trace();
    assert_eq!(trace.len(), 3);
    assert_eq!(trace[0].outcome, TraceOutcome::Published(2));
    assert_eq!(trace[2].outcome, TraceOutcome::Rejected(error));
}

#[test]
fn state_encoding_round_trips_and_refuses_unknown_favorites() {
    let state = AppState {
        query: "snare".into(),
        selected_sample: Some(SAMPLE_SNARE),
        preview_sample: None,
        favorite_samples: BTreeSet::from([SAMPLE_KICK, SAMPLE_HAT]),
        indexing_percent: 100,
        waveform: Some(WaveformRef { resource_key: WAVEFORM_KEY, byte_len: 64 }),
    };
    let bytes = encode_state(&state).unwrap();
    assert_eq!(decode_state(&bytes).unwrap(), state);
    let mut trailing = bytes.clone();
    trailing.push(0);
    assert_eq!(
        decode_state(&trailing).unwrap_err(),
        BackendError::InvalidState("trailing state bytes".into())
    );
    let unknown = AppState { favorite_samples: BTreeSet::from([7]), ..state };
    assert_eq!(
        encode_state(&unknown).unwrap_err(),
        BackendError::InvalidState("unknown favorite sample".into())
    );
}

#[test]
fn waveform_view_holds_the_fixture_bytes() {
    let mut backend = SyntheticBackend::new().unwrap();
    let state = backend
        .dispatch(Command::SelectSample { sample_id: SAMPLE_HAT, based_on_revision: 1 })
        .unwrap();
    let view = backend.map_waveform(&state.waveform.unwrap()).unwrap();
    assert_eq!(view.bytes(), &WAVEFORM[..]);
    let other = WaveformRef { resource_key: "other", byte_len: 64 };
    assert_eq!(
        backend.map_waveform(&other).unwrap_err(),
        BackendError::InvalidState("unknown waveform reference".into())
    );
}

#[test]
fn non_finite_meter_values_are_refused() {
    let mut backend = SyntheticBackend::new().unwrap();
    assert_eq!(
        backend.publish_meter_bits(f32::NAN.to_bits(), 0),
        Err(BackendError::InvalidState("meter must be finite".into()))
    );
    assert_eq!(
        backend.read_meter_bits(),
        Err(BackendError::Core(CoreError::NoTelemetry))
    );
}

#[test]
fn waveform_table_is_the_rectified_sine_fixture() {
    let expected: Vec<u8> = (0..64)
        .map(|index| {
            let phase = index as f32 / 63.0;
            ((phase * std::f32::consts::TAU).sin().abs() * 255.0) as u8
        })
        .collect();
    assert_eq!(&WAVEFORM[..], expected.as_slice());
}

#[test]
fn backend_errors_describe_themselves() {
    assert_eq!(
        BackendError::StaleRevision { expected: 3, supplied: 1 }.message(),
        "stale revision: expected 3, supplied 1"
    );
    assert_eq!(BackendError::UnknownSample(9).message(), "unknown sample 9");
    assert_eq!(
        BackendError::QueryTooLarge { bytes: 300, maximum: 256 }.message(),
        "search query is 300 bytes, maximum is 256"
    );
    assert_eq!(
        BackendError::InvalidState("meter must be finite".into()).message(),
        "invalid state publication: meter must be finite"
    );
    assert_eq!(
        BackendError::Core(CoreError::NoTelemetry).message(),
        "no telemetry value has been published"
    );
}

#[test]
fn an_empty_replay_is_the_initial_publication() {
    let (trace, snapshot) = replay_trace(&[]).unwrap();
    assert!(trace.is_empty());
    assert_eq!(snapshot.revision, 1);
    assert_eq!(
        BackendError::StateTooLarge { bytes: 70_000, maximum: 65_536 }.message(),
        "state publication is 70000 bytes, maximum is 65536"
    );
}
