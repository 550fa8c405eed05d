use tune::jit::PoolingMode;
use tune::live::accepts_pitch_bend;
use tune::tuner::TuningMethod;
use tune::live::{
    accepts_message, action_of, mitigation_from_lowercase, out_channels, parse_mitigation,
    validate_channels, ChannelError, TunerAction,
};
use tune::midi::{ChannelMessage, ChannelMessageType};

#[test]
fn validate_channel_options() {
    assert_eq!(validate_channels(0, 0, 16), Ok(()));
    assert_eq!(validate_channels(0, 0, 17), Err(ChannelError::TooManyChannels));
    assert_eq!(validate_channels(16, 16, 17), Err(ChannelError::TooManyChannels));
    assert_eq!(validate_channels(16, 0, 9), Err(ChannelError::InputChannelOutOfRange));
    assert_eq!(validate_channels(15, 16, 9), Err(ChannelError::OutputChannelOutOfRange));
    assert_eq!(ChannelError::TooManyChannels.message(), "Cannot use more than 16 channels");
    assert_eq!(
        ChannelError::OutputChannelOutOfRange.message(),
        "Output channel is not in the range [0..16)"
    );
}

#[test]
fn out_channels_wrap_around() {
    assert_eq!(out_channels(10, 15), vec![10, 11, 12, 13, 14, 15, 0, 1, 2, 3, 4, 5, 6, 7, 8]);
    assert!(out_channels(3, 0).is_empty());
}

#[test]
fn input_filter() {
    let bend = ChannelMessage { channel: 2, message_type: ChannelMessageType::PitchBendChange { value: 0 } };
    let note = ChannelMessage { channel: 2, message_type: ChannelMessageType::NoteOn { key: 1, velocity: 2 } };
    assert!(accepts_message(&bend, 2, true));
    assert!(!accepts_message(&bend, 2, false));
    assert!(accepts_message(&note, 2, false));
    assert!(!accepts_message(&note, 3, true));
}

#[test]
fn routing_of_incoming_messages() {
    assert_eq!(
        action_of(ChannelMessageType::NoteOn { key: 1, velocity: 2 }),
        TunerAction::NoteOn { key: 1, velocity: 2 }
    );
    assert_eq!(
        action_of(ChannelMessageType::NoteOff { key: 1, velocity: 2 }),
        TunerAction::NoteOff { key: 1, velocity: 2 }
    );
    assert_eq!(
        action_of(ChannelMessageType::PolyphonicKeyPressure { key: 3, pressure: 4 }),
        TunerAction::KeyPressure { key: 3, pressure: 4 }
    );
    let cc = ChannelMessageType::ControlChange { controller: 1, value: 2 };
    assert_eq!(action_of(cc), TunerAction::Monophonic(cc));
}

#[test]
fn clash_mitigation_names() {
    assert_eq!(parse_mitigation("block"), Ok(PoolingMode::Block));
    assert_eq!(parse_mitigation("STOP"), Ok(PoolingMode::Stop));
    assert_eq!(parse_mitigation("Ignore"), Ok(PoolingMode::Ignore));
    assert_eq!(
        parse_mitigation("halt"),
        Err("Invalid mode. Should be `block`, `stop` or `ignore`")
    );
    assert_eq!(mitigation_from_lowercase(&"stop".to_string()), Ok(PoolingMode::Stop));
    assert!(mitigation_from_lowercase(&"Stop".to_string()).is_err());
}

#[test]
fn pitch_bend_passes_unless_tuning_by_pitch_bend() {
    assert!(!accepts_pitch_bend(TuningMethod::PitchBend));
    assert!(accepts_pitch_bend(TuningMethod::ChannelFineTuning));
    assert!(accepts_pitch_bend(TuningMethod::FullKeyboard { device_id: 1, first_tuning_program: 0 }));
}
