use tune::midi::{channel_message, note_off, note_on, rpn_message, ChannelMessage, ChannelMessageType};

#[test]
fn parse_note_off() {
    let message = ChannelMessage::from_raw_message(&[0b1000_0111, 88, 99]).unwrap();
    assert!(matches!(
        message,
        ChannelMessage {
            channel: 7,
            message_type: ChannelMessageType::NoteOff {
                key: 88,
                velocity: 99
            }
        }
    ));
}

#[test]
fn parse_note_on() {
    let message = ChannelMessage::from_raw_message(&[0b1001_1000, 77, 88]).unwrap();
    assert!(matches!(
        message,
        ChannelMessage {
            channel: 8,
            message_type: ChannelMessageType::NoteOn {
                key: 77,
                velocity: 88
            }
        }
    ));
}

#[test]
fn parse_polyphonic_key_pressure() {
    let message = ChannelMessage::from_raw_message(&[0b1010_1001, 66, 77]).unwrap();
    assert!(matches!(
        message,
        ChannelMessage {
            channel: 9,
            message_type: ChannelMessageType::PolyphonicKeyPressure {
                key: 66,
                pressure: 77
            }
        }
    ));
}

#[test]
fn parse_control_change() {
    let message = ChannelMessage::from_raw_message(&[0b1011_1010, 55, 66]).unwrap();
    assert!(matches!(
        message,
        ChannelMessage {
            channel: 10,
            message_type: ChannelMessageType::ControlChange {
                controller: 55,
                value: 66
            }
        }
    ));
}

#[test]
fn parse_program_change() {
    let message = ChannelMessage::from_raw_message(&[0b1100_1011, 44]).unwrap();
    assert!(matches!(
        message,
        ChannelMessage {
            channel: 11,
            message_type: ChannelMessageType::ProgramChange { program: 44 }
        }
    ));
}

#[test]
fn parse_channel_pressure() {
    let message = ChannelMessage::from_raw_message(&[0b1101_1100, 33]).unwrap();
    assert!(matches!(
        message,
        ChannelMessage {
            channel: 12,
            message_type: ChannelMessageType::ChannelPressure { pressure: 33 }
        }
    ));
}

#[test]
fn parse_pitch_bend_change() {
    let message = ChannelMessage::from_raw_message(&[0b1110_1101, 22, 33]).unwrap();
    assert!(matches!(
        message,
        ChannelMessage {
            channel: 13,
            message_type: ChannelMessageType::PitchBendChange { value: 4246 }
        }
    ));
}

#[test]
fn parse_rejects_short_and_unknown_messages() {
    assert!(ChannelMessage::from_raw_message(&[]).is_none());
    assert!(ChannelMessage::from_raw_message(&[0x90, 60]).is_none());
    assert!(ChannelMessage::from_raw_message(&[0xC0]).is_none());
    assert!(ChannelMessage::from_raw_message(&[0xF0, 1, 2]).is_none());
    assert!(ChannelMessage::from_raw_message(&[0x45, 1, 2]).is_none());
}

#[test]
fn parse_ignores_trailing_bytes() {
    let message = ChannelMessage::from_raw_message(&[0xC3, 5, 99, 99]).unwrap();
    assert_eq!(message.channel(), 3);
    assert_eq!(message.message_type(), ChannelMessageType::ProgramChange { program: 5 });
}

#[test]
fn encode_and_parse_round_trip() {
    let messages = [
        ChannelMessageType::NoteOff { key: 1, velocity: 2 },
        ChannelMessageType::NoteOn { key: 60, velocity: 127 },
        ChannelMessageType::PolyphonicKeyPressure { key: 3, pressure: 4 },
        ChannelMessageType::ControlChange { controller: 7, value: 100 },
        ChannelMessageType::ProgramChange { program: 9 },
        ChannelMessageType::ChannelPressure { pressure: 10 },
        ChannelMessageType::PitchBendChange { value: 16383 },
    ];
    for channel in 0..16 {
        for message_type in messages {
            let message = message_type.in_channel(channel).unwrap();
            let raw = message.to_raw_message();
            assert_eq!(ChannelMessage::from_raw_message(&raw), Some(message));
        }
    }
}

#[test]
fn encode_pitch_bend_splits_value() {
    let message = ChannelMessageType::PitchBendChange { value: 4246 }.in_channel(13).unwrap();
    assert_eq!(message.to_raw_message(), vec![0xED, 22, 33]);
}

#[test]
fn in_channel_rejects_channel_16() {
    assert!(ChannelMessageType::NoteOn { key: 1, velocity: 1 }.in_channel(16).is_none());
}

#[test]
fn raw_note_helpers() {
    assert_eq!(channel_message(0b1001, 5), 0x95);
    assert_eq!(note_on(2, 60, 100), [0x92, 60, 100]);
    assert_eq!(note_off(15, 61, 0), [0x8F, 61, 0]);
    assert_eq!(
        rpn_message(1, 0, 3, 7),
        [[0xB1, 0x65, 0], [0xB1, 0x64, 3], [0xB1, 0x06, 7]]
    );
}
