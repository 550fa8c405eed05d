use tune::backend::MidiOutBackend;
use tune::keypress::{IllegalState, KeypressTracker, LiftAction, PlaceAction};
use tune::magnetron::{BufferIndex, CopySpec, LoadSpec, NamedEnvelopeSpec, OutSpec, StageRef, WaveformSpec};
use tune::tuner::{MidiTarget, MidiTunerMessage, TuningMethod};

const SEMITONE: i64 = 16384;

fn packets(messages: &[MidiTunerMessage]) -> Vec<Vec<u8>> {
    let mut out = Vec::new();
    for message in messages {
        message.send_to(&mut out);
    }
    out
}

#[test]
fn keypress_tracker_counts_fingers_per_location() {
    let mut tracker = KeypressTracker::new();
    assert_eq!(tracker.place_finger_at(1, 10), Ok(PlaceAction::KeyPressed));
    assert_eq!(tracker.place_finger_at(2, 10), Ok(PlaceAction::KeyAlreadyPressed));
    assert_eq!(tracker.place_finger_at(1, 11), Err(1));
    assert_eq!(tracker.pressed_locations(), vec![10]);
    assert_eq!(tracker.lift_finger(1), Ok(LiftAction::KeyRemainsPressed));
    assert_eq!(tracker.location_of(2), Some(10));
    assert_eq!(
        tracker.move_finger_to(2, 12),
        Ok((LiftAction::KeyReleased(10), PlaceAction::KeyPressed))
    );
    assert_eq!(tracker.lift_finger(2), Ok(LiftAction::KeyReleased(12)));
    assert_eq!(tracker.lift_finger(2), Err(IllegalState));
    assert_eq!(tracker.move_finger_to(5, 1), Err(IllegalState));
    assert_eq!(tracker.location_of(2), None);
}

#[test]
fn backend_untuned_sends_nothing() {
    let mut backend = MidiOutBackend::new(MidiTarget { first_channel: 0, num_channels: 2 }, TuningMethod::PitchBend);
    assert!(!backend.is_tuned());
    assert!(backend.start(1, 60, 60 * SEMITONE, 100).is_empty());
    assert!(backend.control_change(7, 100).is_empty());
    assert!(backend.program_change(130).is_empty());
    assert_eq!(backend.program_number(), 2);
}

#[test]
fn backend_jit_after_no_tuning() {
    let mut backend = MidiOutBackend::new(MidiTarget { first_channel: 0, num_channels: 2 }, TuningMethod::PitchBend);
    assert!(backend.set_no_tuning().is_empty());
    assert!(backend.is_tuned());
    assert_eq!(
        packets(&backend.start(1, 0, 60 * SEMITONE, 100)),
        vec![vec![0xE0, 0, 64], vec![0x90, 60, 100]]
    );
    assert_eq!(packets(&backend.update_pressure(1, 9)), vec![vec![0xA0, 60, 9]]);
    assert_eq!(packets(&backend.stop(1, 0)), vec![vec![0x80, 60, 0]]);
    assert_eq!(
        packets(&backend.channel_pressure(5)),
        vec![vec![0xD0, 5], vec![0xD1, 5]]
    );
}

#[test]
fn backend_aot_tracks_fingers_and_releases_on_retune() {
    let mut backend = MidiOutBackend::new(
        MidiTarget { first_channel: 0, num_channels: 1 },
        TuningMethod::ChannelFineTuning,
    );
    let tuning: Vec<(i32, i64)> = (0..3).map(|k| (k, (60 + i64::from(k)) * SEMITONE)).collect();
    let (setup, result) = backend.set_tuning(&tuning);
    assert_eq!(result, Ok(()));
    assert_eq!(packets(&setup).len(), 4);
    assert_eq!(packets(&backend.start(7, 1, 0, 90)), vec![vec![0x90, 61, 90]]);
    assert_eq!(
        packets(&backend.start(8, 1, 0, 90)),
        vec![vec![0x80, 61, 90], vec![0x90, 61, 90]]
    );
    assert!(packets(&backend.stop(7, 0)).is_empty());
    assert_eq!(
        packets(&backend.update_pitch(8, 2, 0, 90)),
        vec![vec![0x80, 61, 90], vec![0x90, 62, 90]]
    );
    let detuned = vec![(0, 60 * SEMITONE), (1, 61 * SEMITONE + 10)];
    let (sent, result) = backend.set_tuning(&detuned);
    assert_eq!(result, Err(2));
    // the previous tuning stays, with its held key
    assert!(packets(&sent).is_empty());
    assert!(backend.is_tuned());
    assert_eq!(packets(&backend.stop(8, 0)), vec![vec![0x80, 62, 0]]);

    assert_eq!(packets(&backend.start(9, 0, 0, 90)), vec![vec![0x90, 60, 90]]);
    let (sent, result) = backend.set_tuning(&tuning);
    assert_eq!(result, Ok(()));
    let sent = packets(&sent);
    assert_eq!(sent[0], vec![0x80, 60, 0]);
    assert_eq!(sent.len(), 5);
}

#[test]
fn backend_failed_retuning_keeps_just_in_time_tuner() {
    let mut backend = MidiOutBackend::new(MidiTarget { first_channel: 0, num_channels: 1 }, TuningMethod::PitchBend);
    assert!(backend.set_no_tuning().is_empty());
    assert_eq!(packets(&backend.start(1, 0, 60 * SEMITONE, 100)).len(), 2);
    let detuned = vec![(0, 60 * SEMITONE), (1, 61 * SEMITONE + 10)];
    let (sent, result) = backend.set_tuning(&detuned);
    assert_eq!(result, Err(2));
    assert!(sent.is_empty());
    assert_eq!(packets(&backend.stop(1, 0)), vec![vec![0x80, 60, 0]]);
}

#[test]
fn waveform_plan_puts_envelope_last() {
    let waveform = WaveformSpec { name: "Sine".to_string(), envelope: "Organ".to_string(), stages: vec![1, 2, 3] };
    let envelopes = vec![
        NamedEnvelopeSpec { name: "Piano".to_string(), spec: () },
        NamedEnvelopeSpec { name: "Organ".to_string(), spec: () },
        NamedEnvelopeSpec { name: "Organ".to_string(), spec: () },
    ];
    assert_eq!(waveform.name(), "Sine");
    assert_eq!(waveform.envelope_type(), "Organ");
    assert_eq!(waveform.find_envelope(&envelopes), Some(1));
    assert_eq!(
        waveform.stage_plan(&envelopes),
        vec![StageRef::Stage(0), StageRef::Stage(1), StageRef::Stage(2), StageRef::Envelope(1)]
    );
    let unknown = WaveformSpec { name: "X".to_string(), envelope: "Pad".to_string(), stages: vec![7] };
    assert_eq!(unknown.stage_plan(&envelopes), vec![StageRef::Stage(0)]);
}

#[test]
fn copy_and_load_buffers() {
    let copy = CopySpec { in_buffer: 1, out_spec: OutSpec { out_buffer: 2, out_level: () } };
    assert_eq!(copy.buffers(), (BufferIndex::Internal(1), BufferIndex::Internal(2)));
    let load = LoadSpec { in_buffer: 0, out_spec: OutSpec { out_buffer: 3, out_level: () } };
    assert_eq!(load.buffers(), (BufferIndex::External(0), BufferIndex::Internal(3)));
}
