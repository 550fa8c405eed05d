use tune::aot::{AotTuner, Group, KeyLocation};
use tune::jit::{AccessKeyResult, JitTuner, PoolingMode, RegisterKeyResult};
use tune::mts::{
    channel_fine_tuning, pitch_bend_value, tuning_program_change, MtsError,
    ScaleOctaveTuningFormat, ScaleOctaveTuningMessage, SingleNoteTuningChange,
    SingleNoteTuningChangeMessage,
};
use tune::midi::{ChannelMessage, ChannelMessageType};
use tune::tuner::{pitch_bend_message, AotMidiTuner, JitMidiTuner, MidiTarget, MidiTunerMessage};

const SEMITONE: i64 = 16384;

fn packets(messages: &[MidiTunerMessage]) -> Vec<Vec<u8>> {
    let mut out = Vec::new();
    for message in messages {
        message.send_to(&mut out);
    }
    out
}

fn equal_temperament(keys: std::ops::Range<i32>) -> Vec<(i32, i64)> {
    keys.map(|key| (key, i64::from(key) * SEMITONE)).collect()
}

fn target(first_channel: u8, num_channels: u8) -> MidiTarget {
    MidiTarget { first_channel, num_channels }
}

#[test]
fn aot_full_keyboard_12_edo_one_channel() {
    let (mut tuner, setup) =
        AotMidiTuner::single_note_tuning_change(target(0, 1), &equal_temperament(0..128), 0x7f, 0)
            .ok()
            .unwrap();
    let setup = packets(&setup);
    assert_eq!(setup[0], vec![0xB0, 0x65, 0]);
    assert_eq!(setup[1], vec![0xB0, 0x64, 3]);
    assert_eq!(setup[2], vec![0xB0, 0x06, 0]);
    assert_eq!(setup.len(), 5);
    let first = &setup[3];
    assert_eq!(&first[..7], &[0xF0, 0x7F, 0x7F, 0x08, 0x02, 0, 127]);
    assert_eq!(first.len(), 7 + 4 * 127 + 1);
    let at_69 = 7 + 4 * 69;
    assert_eq!(&first[at_69..at_69 + 4], &[69, 69, 0, 0]);
    assert_eq!(setup[4], vec![0xF0, 0x7F, 0x7F, 0x08, 0x02, 0, 1, 127, 127, 0, 0, 0xF7]);

    assert_eq!(packets(&tuner.note_on(69, 100)), vec![vec![0x90, 69, 100]]);
    assert_eq!(packets(&tuner.note_off(69, 0)), vec![vec![0x80, 69, 0]]);
    assert_eq!(packets(&tuner.key_pressure(69, 5)), vec![vec![0xA0, 69, 5]]);
    assert!(packets(&tuner.note_on(200, 100)).is_empty());
}

#[test]
fn aot_full_keyboard_needs_a_channel_per_repeated_note() {
    let tuning = vec![(0, 60 * SEMITONE), (1, 60 * SEMITONE + 100), (2, 61 * SEMITONE)];
    assert!(matches!(
        AotMidiTuner::single_note_tuning_change(target(0, 1), &tuning, 0x7f, 0),
        Err(2)
    ));
    let (mut tuner, setup) =
        AotMidiTuner::single_note_tuning_change(target(3, 2), &tuning, 0x7f, 10)
            .ok()
            .unwrap();
    let setup = packets(&setup);
    assert_eq!(setup[0], vec![0xB3, 0x65, 0]);
    assert_eq!(setup[2], vec![0xB3, 0x06, 10]);
    assert_eq!(
        setup[3],
        vec![0xF0, 0x7F, 0x7F, 0x08, 0x02, 10, 2, 60, 60, 0, 0, 61, 61, 0, 0, 0xF7]
    );
    assert_eq!(setup[4], vec![0xB4, 0x65, 0]);
    assert_eq!(setup[6], vec![0xB4, 0x06, 11]);
    assert_eq!(setup[7], vec![0xF0, 0x7F, 0x7F, 0x08, 0x02, 11, 1, 60, 60, 0, 100, 0xF7]);
    assert_eq!(packets(&tuner.note_on(1, 9)), vec![vec![0x94, 60, 9]]);
}

#[test]
fn aot_channel_based_tuning_counts_detunings() {
    let tuning = vec![(0, 60 * SEMITONE + 10), (1, 62 * SEMITONE + 20), (2, 64 * SEMITONE + 10), (3, 65 * SEMITONE + 30)];
    assert!(matches!(AotMidiTuner::pitch_bend(target(0, 2), &tuning), Err(3)));
    let (mut tuner, setup) = AotMidiTuner::pitch_bend(target(0, 3), &tuning).ok().unwrap();
    // 8192 + 10 / 4 = 8194, 8192 + 20 / 4 = 8197, 8192 + 30 / 4 = 8199
    assert_eq!(
        packets(&setup),
        vec![vec![0xE0, 2, 64], vec![0xE1, 5, 64], vec![0xE2, 7, 64]]
    );
    assert_eq!(packets(&tuner.note_on(2, 1)), vec![vec![0x90, 64, 1]]);
    assert_eq!(packets(&tuner.note_on(3, 1)), vec![vec![0x92, 65, 1]]);

    let (_, setup) = AotMidiTuner::channel_fine_tuning(target(0, 3), &tuning).ok().unwrap();
    let setup = packets(&setup);
    assert_eq!(setup.len(), 12);
    // (10 + 16384) / 2 = 8197 = 64 * 128 + 5
    assert_eq!(setup[2], vec![0xB0, 0x06, 64]);
    assert_eq!(setup[3], vec![0xB0, 0x26, 5]);
}

#[test]
fn aot_octave_tuning_sends_pitch_class_table() {
    // 1638 steps are about 10 cents
    let tuning = vec![(0, 60 * SEMITONE + 1638), (1, 69 * SEMITONE - 1638), (2, 72 * SEMITONE + 1638)];
    let (_, setup) = AotMidiTuner::scale_octave_tuning(
        target(9, 1),
        &tuning,
        0x7f,
        ScaleOctaveTuningFormat::OneByte,
    )
    .ok()
    .unwrap();
    assert_eq!(
        packets(&setup),
        vec![vec![
            0xF0, 0x7F, 0x7F, 0x08, 0x08, 0, 0b100, 0, 74, 64, 64, 64, 64, 64, 64, 64, 64, 54, 64,
            64, 0xF7
        ]]
    );
}

#[test]
fn aot_pitch_bend_of_small_negative_detuning_is_centered() {
    let tuning = vec![(0, 60 * SEMITONE - 1)];
    let (_, setup) = AotMidiTuner::pitch_bend(target(0, 1), &tuning).ok().unwrap();
    assert_eq!(packets(&setup), vec![vec![0xE0, 0, 64]]);
}

#[test]
fn aot_monophonic_message_goes_to_all_channels() {
    let (mut tuner, _) =
        AotMidiTuner::channel_fine_tuning(target(15, 3), &equal_temperament(60..61)).ok().unwrap();
    assert_eq!(
        packets(&tuner.send_monophonic_message(ChannelMessageType::ProgramChange { program: 4 })),
        vec![vec![0xCF, 4], vec![0xC0, 4], vec![0xC1, 4]]
    );
}

#[test]
fn aot_tuner_places_keys_first_fit() {
    let tuning = vec![(5, 60 * SEMITONE + 1), (6, 61 * SEMITONE + 2), (7, 62 * SEMITONE + 1)];
    let (tuner, chans) = AotTuner::apply_tuning(Group::Channel, &tuning);
    assert_eq!(chans.len(), 2);
    assert_eq!(tuner.get_channel_and_note_for_key(5), Some((0, 60)));
    assert_eq!(tuner.get_channel_and_note_for_key(6), Some((1, 61)));
    assert_eq!(tuner.get_channel_and_note_for_key(7), Some((0, 62)));
    assert_eq!(tuner.get_channel_and_note_for_key(8), None);
    let _ = KeyLocation { key: 0, channel: 0, note: 0, detuning: 0 };
}

#[test]
fn jit_pitch_bend_stop_displaces_oldest() {
    let mut tuner = JitMidiTuner::pitch_bend(target(0, 2), PoolingMode::Stop);
    assert_eq!(
        packets(&tuner.note_on(60, 60 * SEMITONE + 1000, 100)),
        vec![vec![0xE0, 122, 65], vec![0x90, 60, 100]]
    );
    assert_eq!(
        packets(&tuner.note_on(62, 62 * SEMITONE + 2000, 100)),
        vec![vec![0xE1, 116, 67], vec![0x91, 62, 100]]
    );
    assert_eq!(
        packets(&tuner.note_on(64, 64 * SEMITONE + 3000, 100)),
        vec![vec![0x80, 60, 100], vec![0xE0, 110, 69], vec![0x90, 64, 100]]
    );
    // the displaced key is gone
    assert!(packets(&tuner.note_off(60, 0)).is_empty());
    assert_eq!(packets(&tuner.note_off(64, 0)), vec![vec![0x80, 64, 0]]);
}

#[test]
fn jit_block_rejects_when_full() {
    let mut tuner = JitMidiTuner::pitch_bend(target(0, 1), PoolingMode::Block);
    assert_eq!(packets(&tuner.note_on(1, 60 * SEMITONE, 7)).len(), 2);
    assert!(packets(&tuner.note_on(2, 62 * SEMITONE, 7)).is_empty());
    assert_eq!(packets(&tuner.note_off(1, 0)), vec![vec![0x80, 60, 0]]);
    assert_eq!(packets(&tuner.note_on(2, 62 * SEMITONE, 7)).len(), 2);
}

#[test]
fn jit_ignore_keeps_old_note_sounding() {
    let mut tuner = JitMidiTuner::channel_fine_tuning(target(0, 1), PoolingMode::Ignore);
    assert_eq!(packets(&tuner.note_on(1, 60 * SEMITONE, 7)).len(), 5);
    let second = packets(&tuner.note_on(2, 62 * SEMITONE + 1000, 7));
    assert_eq!(second.len(), 5);
    assert_eq!(second[4], vec![0x90, 62, 7]);
    assert_eq!(packets(&tuner.note_off(1, 0)), vec![vec![0x80, 60, 0]]);
    assert_eq!(packets(&tuner.note_off(2, 0)), vec![vec![0x80, 62, 0]]);
}

#[test]
fn jit_repeated_key_is_rejected() {
    let mut tuner = JitMidiTuner::pitch_bend(target(0, 4), PoolingMode::Stop);
    assert_eq!(packets(&tuner.note_on(1, 60 * SEMITONE, 7)).len(), 2);
    assert!(packets(&tuner.note_on(1, 61 * SEMITONE, 7)).is_empty());
}

#[test]
fn jit_full_keyboard_sends_single_note_change_before_note() {
    let mut tuner = JitMidiTuner::single_note_tuning_change(target(2, 3), PoolingMode::Stop, 0x7f, 5);
    assert_eq!(
        packets(&tuner.note_on(10, 69 * SEMITONE + 100, 90)),
        vec![
            vec![0xB2, 0x65, 0],
            vec![0xB2, 0x64, 3],
            vec![0xB2, 0x06, 5],
            vec![0xF0, 0x7F, 0x7F, 0x08, 0x02, 5, 1, 69, 69, 0, 100, 0xF7],
            vec![0x92, 69, 90],
        ]
    );
    // the same note goes to the next channel
    let second = packets(&tuner.note_on(11, 69 * SEMITONE - 100, 90));
    assert_eq!(second[0], vec![0xB3, 0x65, 0]);
    assert_eq!(second[3], vec![0xF0, 0x7F, 0x7F, 0x08, 0x02, 6, 1, 69, 68, 127, 28, 0xF7]);
    assert_eq!(second[4], vec![0x93, 69, 90]);
    assert_eq!(packets(&tuner.key_pressure(11, 3)), vec![vec![0xA3, 69, 3]]);
    let retuned = packets(&tuner.update_pitch(10, 69 * SEMITONE + 200));
    assert_eq!(retuned[3], vec![0xF0, 0x7F, 0x7F, 0x08, 0x02, 5, 1, 69, 69, 1, 72, 0xF7]);
    assert_eq!(tuner.destroy(), target(2, 3));
}

#[test]
fn jit_octave_tuning_keeps_table_per_channel() {
    let mut tuner = JitMidiTuner::scale_octave_tuning(
        target(0, 1),
        PoolingMode::Stop,
        0x7f,
        ScaleOctaveTuningFormat::OneByte,
    );
    let first = packets(&tuner.note_on(1, 60 * SEMITONE + 1638, 1));
    assert_eq!(
        first[0],
        vec![0xF0, 0x7F, 0x7F, 0x08, 0x08, 0, 0, 1, 74, 64, 64, 64, 64, 64, 64, 64, 64, 64, 64, 64, 0xF7]
    );
    let second = packets(&tuner.note_on(2, 62 * SEMITONE - 1638, 1));
    assert_eq!(
        second[0],
        vec![0xF0, 0x7F, 0x7F, 0x08, 0x08, 0, 0, 1, 74, 64, 54, 64, 64, 64, 64, 64, 64, 64, 64, 64, 0xF7]
    );
}

#[test]
fn jit_tuner_tracks_keys() {
    let mut tuner = JitTuner::new(PoolingMode::Stop, Group::Note, 2);
    assert_eq!(
        tuner.register_key(1, 60 * SEMITONE + 5),
        RegisterKeyResult::Accepted { channel: 0, stopped_note: None, started_note: 60, detuning: 5 }
    );
    assert_eq!(
        tuner.register_key(2, 64 * SEMITONE),
        RegisterKeyResult::Accepted { channel: 0, stopped_note: None, started_note: 64, detuning: 0 }
    );
    assert_eq!(
        tuner.register_key(3, 60 * SEMITONE + 7),
        RegisterKeyResult::Accepted { channel: 1, stopped_note: None, started_note: 60, detuning: 7 }
    );
    assert_eq!(
        tuner.register_key(4, 60 * SEMITONE - 7),
        RegisterKeyResult::Accepted { channel: 0, stopped_note: Some(60), started_note: 60, detuning: -7 }
    );
    assert_eq!(tuner.access_key(1), AccessKeyResult::NotFound);
    assert_eq!(tuner.deregister_key(3), AccessKeyResult::Found { channel: 1, found_note: 60 });
    assert_eq!(tuner.deregister_key(3), AccessKeyResult::NotFound);
}

#[test]
fn single_note_tuning_change_leaves_out_unplayable_changes() {
    let changes = vec![
        SingleNoteTuningChange { key: 128, target_pitch: 0 },
        SingleNoteTuningChange { key: 1, target_pitch: -1 },
        SingleNoteTuningChange { key: 2, target_pitch: 2097151 },
        SingleNoteTuningChange { key: 3, target_pitch: 2097150 },
    ];
    let message = SingleNoteTuningChangeMessage::from_tuning_changes(1, 2, &changes).ok().unwrap();
    assert_eq!(message.num_out_of_range_notes(), 3);
    assert_eq!(
        message.sysex_bytes(),
        &vec![vec![0xF0, 0x7F, 1, 0x08, 0x02, 2, 1, 3, 127, 127, 126, 0xF7]]
    );
    assert!(matches!(
        SingleNoteTuningChangeMessage::from_tuning_changes(128, 2, &changes),
        Err(MtsError::DeviceIdOutOfRange)
    ));
    assert!(matches!(
        SingleNoteTuningChangeMessage::from_tuning_changes(1, 128, &changes),
        Err(MtsError::TuningProgramOutOfRange)
    ));
}

#[test]
fn scale_octave_tuning_formats_and_errors() {
    let mut table = vec![0i64; 12];
    table[11] = 8191;
    let message = ScaleOctaveTuningMessage::from_octave_tuning(
        0x7f,
        15,
        ScaleOctaveTuningFormat::TwoByte,
        &table,
    )
    .ok()
    .unwrap();
    let bytes = message.sysex_bytes();
    assert_eq!(&bytes[..8], &[0xF0, 0x7F, 0x7F, 0x08, 0x09, 2, 0, 0]);
    assert_eq!(&bytes[8..10], &[64, 0]);
    // (8191 + 16384) / 2 = 12287 = 95 * 128 + 127
    assert_eq!(&bytes[30..32], &[95, 127]);
    assert_eq!(bytes.len(), 8 + 24 + 1);

    table[0] = 16384;
    assert!(matches!(
        ScaleOctaveTuningMessage::from_octave_tuning(0x7f, 0, ScaleOctaveTuningFormat::OneByte, &table),
        Err(MtsError::DetuningOutOfRange)
    ));
    assert!(matches!(
        ScaleOctaveTuningMessage::from_octave_tuning(0x7f, 16, ScaleOctaveTuningFormat::OneByte, &table),
        Err(MtsError::ChannelOutOfRange)
    ));
}

#[test]
fn channel_fine_tuning_and_program_change_messages() {
    let cc = |controller, value| ChannelMessage {
        channel: 4,
        message_type: ChannelMessageType::ControlChange { controller, value },
    };
    assert_eq!(
        channel_fine_tuning(4, 1000).ok().unwrap(),
        vec![cc(0x65, 0), cc(0x64, 1), cc(0x06, 67), cc(0x26, 116)]
    );
    assert!(matches!(channel_fine_tuning(4, 16384), Err(MtsError::DetuningOutOfRange)));
    assert!(matches!(channel_fine_tuning(16, 0), Err(MtsError::ChannelOutOfRange)));
    assert_eq!(
        tuning_program_change(4, 9).ok().unwrap(),
        vec![cc(0x65, 0), cc(0x64, 3), cc(0x06, 9)]
    );
    assert!(matches!(tuning_program_change(4, 128), Err(MtsError::TuningProgramOutOfRange)));
}

#[test]
fn pitch_bend_values() {
    assert_eq!(pitch_bend_value(0), 8192);
    assert_eq!(pitch_bend_value(16384), 12288);
    assert_eq!(pitch_bend_value(-32768), 0);
    assert_eq!(pitch_bend_value(-40000), 0);
    assert_eq!(pitch_bend_value(40000), 16383);
    assert_eq!(pitch_bend_message(-4), ChannelMessageType::PitchBendChange { value: 8191 });
    // negative bends round toward zero, like positive ones
    assert_eq!(pitch_bend_value(-1), 8192);
    assert_eq!(pitch_bend_value(-7), 8191);
    assert_eq!(pitch_bend_value(7), 8193);
}
