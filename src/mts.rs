//! Messages of the MIDI Tuning Standard: Single Note Tuning Change and Scale/Octave Tuning
//! system-exclusive messages, and the registered parameters for channel fine tuning and
//! tuning program selection. Detunings are in pitch steps (1/16384 semitone).
use vstd::prelude::*;

use crate::midi::{ChannelMessage, ChannelMessageType, CONTROL_CHANGE};
use crate::pitch::valid_detuning;

verus! {

pub const SYSEX_START: u8 = 0xf0;

pub const SYSEX_END: u8 = 0xf7;

pub const SYSEX_REAL_TIME: u8 = 0x7f;

pub const MIDI_TUNING_STANDARD: u8 = 0x08;

pub const SINGLE_NOTE_TUNING_CHANGE: u8 = 0x02;

pub const SCALE_OCTAVE_TUNING_1_BYTE: u8 = 0x08;

pub const SCALE_OCTAVE_TUNING_2_BYTE: u8 = 0x09;

/// The most changes one Single Note Tuning Change message carries (its count is 7 bits wide).
pub const MAX_CHANGES_PER_MESSAGE: usize = 127;

/// The pitch 0x7f7f7f means "no change"; every pitch below it can be sent.
pub const NO_CHANGE_PITCH: i64 = 2097151;

/// Retune the MIDI key `key` to `target_pitch`.
#[derive(Clone, Copy, Debug, PartialEq, Eq, Structural)]
pub struct SingleNoteTuningChange {
    pub key: i64,
    pub target_pitch: i64,
}

#[derive(Clone, Copy, Debug, PartialEq, Eq, Structural)]
pub enum MtsError {
    DeviceIdOutOfRange,
    TuningProgramOutOfRange,
    ChannelOutOfRange,
    DetuningOutOfRange,
}

/// A change that a message can carry: a MIDI key and a pitch below [`NO_CHANGE_PITCH`].
pub open spec fn change_in_range(c: SingleNoteTuningChange) -> bool {
    0 <= c.key <= 127 && 0 <= c.target_pitch < NO_CHANGE_PITCH
}

/// The changes of `cs` that a message can carry, in their order.
pub open spec fn in_range_changes(cs: Seq<SingleNoteTuningChange>) -> Seq<SingleNoteTuningChange>
    decreases cs.len(),
{
    if cs.len() == 0 {
        cs
    } else if change_in_range(cs.last()) {
        in_range_changes(cs.drop_last()).push(cs.last())
    } else {
        in_range_changes(cs.drop_last())
    }
}

pub proof fn lemma_in_range_changes(cs: Seq<SingleNoteTuningChange>)
    ensures
        in_range_changes(cs).len() <= cs.len(),
        forall|i: int|
            0 <= i < in_range_changes(cs).len() ==> #[trigger] change_in_range(
                in_range_changes(cs)[i],
            ),
    decreases cs.len(),
{
    if cs.len() > 0 {
        lemma_in_range_changes(cs.drop_last());
    }
}

/// Key, semitone and the 14-bit fraction of the semitone, high 7 bits first.
pub open spec fn change_bytes(c: SingleNoteTuningChange) -> Seq<u8> {
    let p = c.target_pitch;
    seq![c.key as u8, (p / 16384) as u8, ((p % 16384) / 128) as u8, (p % 128) as u8]
}

pub open spec fn changes_bytes(cs: Seq<SingleNoteTuningChange>) -> Seq<u8>
    decreases cs.len(),
{
    if cs.len() == 0 {
        Seq::empty()
    } else {
        changes_bytes(cs.drop_last()) + change_bytes(cs.last())
    }
}

/// One real-time Single Note Tuning Change message carrying `cs`.
pub open spec fn sntc_sysex(device_id: u8, tuning_program: u8, cs: Seq<SingleNoteTuningChange>) -> Seq<u8> {
    seq![
        SYSEX_START,
        SYSEX_REAL_TIME,
        device_id,
        MIDI_TUNING_STANDARD,
        SINGLE_NOTE_TUNING_CHANGE,
        tuning_program,
        cs.len() as u8,
    ] + changes_bytes(cs) + seq![SYSEX_END]
}

/// The messages that carry `cs`: as many changes in each as fit, none for no changes.
pub open spec fn sntc_messages(device_id: u8, tuning_program: u8, cs: Seq<SingleNoteTuningChange>) -> Seq<Seq<u8>>
    decreases cs.len(),
{
    if cs.len() == 0 {
        Seq::empty()
    } else if cs.len() <= MAX_CHANGES_PER_MESSAGE {
        seq![sntc_sysex(device_id, tuning_program, cs)]
    } else {
        seq![sntc_sysex(device_id, tuning_program, cs.take(MAX_CHANGES_PER_MESSAGE as int))]
            + sntc_messages(device_id, tuning_program, cs.skip(MAX_CHANGES_PER_MESSAGE as int))
    }
}

/// Single Note Tuning Change messages, ready to send. Changes that no message can carry
/// (a key outside 0..=127, a pitch outside the standard's range) are counted and left out.
pub struct SingleNoteTuningChangeMessage {
    sysex_messages: Vec<Vec<u8>>,
    num_out_of_range: usize,
}

impl SingleNoteTuningChangeMessage {
    /// The raw messages.
    pub closed spec fn packets(&self) -> Seq<Seq<u8>> {
        self.sysex_messages@.map_values(|v: Vec<u8>| v@)
    }

    pub closed spec fn out_of_range_count(&self) -> nat {
        self.num_out_of_range as nat
    }

    pub fn from_tuning_changes(
        device_id: u8,
        tuning_program: u8,
        changes: &Vec<SingleNoteTuningChange>,
    ) -> (r: Result<SingleNoteTuningChangeMessage, MtsError>)
        ensures
            device_id >= 128 ==> r == Err::<SingleNoteTuningChangeMessage, MtsError>(
                MtsError::DeviceIdOutOfRange,
            ),
            device_id < 128 && tuning_program >= 128 ==> r == Err::<
                SingleNoteTuningChangeMessage,
                MtsError,
            >(MtsError::TuningProgramOutOfRange),
            device_id < 128 && tuning_program < 128 ==> r is Ok,
            r matches Ok(m) ==> m.packets() == sntc_messages(
                device_id,
                tuning_program,
                in_range_changes(changes@),
            ) && m.out_of_range_count() + in_range_changes(changes@).len() == changes@.len(),
    {
        if device_id >= 128 {
            return Err(MtsError::DeviceIdOutOfRange);
        }
        if tuning_program >= 128 {
            return Err(MtsError::TuningProgramOutOfRange);
        }
        let mut valid: Vec<SingleNoteTuningChange> = Vec::new();
        let mut i: usize = 0;
        while i < changes.len()
            invariant
                i <= changes.len(),
                valid@ == in_range_changes(changes@.take(i as int)),
                valid@.len() <= i,
            decreases changes.len() - i,
        {
            let c = changes[i];
            assert(changes@.take(i + 1).drop_last() == changes@.take(i as int));
            if 0 <= c.key && c.key <= 127 && 0 <= c.target_pitch && c.target_pitch < NO_CHANGE_PITCH {
                valid.push(c);
            }
            i = i + 1;
        }
        assert(changes@.take(changes.len() as int) == changes@);
        proof {
            lemma_in_range_changes(changes@);
        }
        let mut messages: Vec<Vec<u8>> = Vec::new();
        assert(valid@.skip(0) == valid@);
        assert(messages@.map_values(|v: Vec<u8>| v@) + sntc_messages(device_id, tuning_program, valid@)
            == sntc_messages(device_id, tuning_program, valid@));
        let mut start: usize = 0;
        while start < valid.len()
            invariant
                start <= valid.len(),
                forall|i: int| 0 <= i < valid.len() ==> #[trigger] change_in_range(valid@[i]),
                messages@.map_values(|v: Vec<u8>| v@) + sntc_messages(
                    device_id,
                    tuning_program,
                    valid@.skip(start as int),
                ) == sntc_messages(device_id, tuning_program, valid@),
            decreases valid.len() - start,
        {
            let ghost rest = valid@.skip(start as int);
            let end = if valid.len() - start <= MAX_CHANGES_PER_MESSAGE {
                valid.len()
            } else {
                start + MAX_CHANGES_PER_MESSAGE
            };
            let sysex = sntc_sysex_of(device_id, tuning_program, &valid, start, end);
            proof {
                if rest.len() <= MAX_CHANGES_PER_MESSAGE {
                    assert(valid@.subrange(start as int, end as int) == rest);
                    assert(valid@.skip(end as int).len() == 0);
                } else {
                    assert(valid@.subrange(start as int, end as int) == rest.take(
                        MAX_CHANGES_PER_MESSAGE as int,
                    ));
                    assert(rest.skip(MAX_CHANGES_PER_MESSAGE as int) == valid@.skip(end as int));
                }
            }
            let ghost before = messages@.map_values(|v: Vec<u8>| v@);
            messages.push(sysex);
            assert(messages@.map_values(|v: Vec<u8>| v@) == before.push(sysex@));
            start = end;
        }
        assert(valid@.skip(start as int).len() == 0);
        assert(messages@.map_values(|v: Vec<u8>| v@) + Seq::<Seq<u8>>::empty() == messages@.map_values(|v: Vec<u8>| v@));
        Ok(SingleNoteTuningChangeMessage {
            sysex_messages: messages,
            num_out_of_range: changes.len() - valid.len(),
        })
    }

    /// The raw messages, in the order they are to be sent.
    pub fn sysex_bytes(&self) -> (r: &Vec<Vec<u8>>)
        ensures
            r@.map_values(|v: Vec<u8>| v@) == self.packets(),
    {
        &self.sysex_messages
    }

    /// How many changes no message could carry.
    pub fn num_out_of_range_notes(&self) -> (r: usize)
        ensures
            r == self.out_of_range_count(),
    {
        self.num_out_of_range
    }
}

fn sntc_sysex_of(
    device_id: u8,
    tuning_program: u8,
    cs: &Vec<SingleNoteTuningChange>,
    start: usize,
    end: usize,
) -> (r: Vec<u8>)
    requires
        start < end <= cs.len(),
        end - start <= MAX_CHANGES_PER_MESSAGE,
        forall|i: int| 0 <= i < cs.len() ==> #[trigger] change_in_range(cs@[i]),
    ensures
        r@ == sntc_sysex(device_id, tuning_program, cs@.subrange(start as int, end as int)),
{
    let count = (end - start) as u8;
    let mut r: Vec<u8> = vec![
        SYSEX_START,
        SYSEX_REAL_TIME,
        device_id,
        MIDI_TUNING_STANDARD,
        SINGLE_NOTE_TUNING_CHANGE,
        tuning_program,
        count,
    ];
    let ghost header = r@;
    let mut j: usize = start;
    while j < end
        invariant
            start <= j <= end,
            end <= cs.len(),
            forall|i: int| 0 <= i < cs.len() ==> #[trigger] change_in_range(cs@[i]),
            r@ == header + changes_bytes(cs@.subrange(start as int, j as int)),
        decreases end - j,
    {
        let c = cs[j];
        assert(change_in_range(cs@[j as int]));
        let p = c.target_pitch;
        assert(cs@.subrange(start as int, j + 1).drop_last() == cs@.subrange(start as int, j as int));
        r.push(c.key as u8);
        r.push((p / 16384) as u8);
        r.push(((p % 16384) / 128) as u8);
        r.push((p % 128) as u8);
        j = j + 1;
    }
    r.push(SYSEX_END);
    r
}

/// How a Scale/Octave Tuning message encodes the detuning of a pitch class.
#[derive(Clone, Copy, Debug, PartialEq, Eq, Structural)]
pub enum ScaleOctaveTuningFormat {
    /// One byte, whole cents from -64 to +63 (0x40 is no detuning).
    OneByte,
    /// Two bytes, a 14-bit value spanning -100 to +100 cents (0x2000 is no detuning).
    TwoByte,
}

/// 64 plus the detuning in cents, rounded to the nearest cent.
pub open spec fn one_byte_value(d: int) -> int {
    (d * 100 + 8192 + 64 * 16384) / 16384
}

/// 8192 plus the detuning in units of 1/8192 of 100 cents, rounded down.
pub open spec fn two_byte_value(d: int) -> int {
    (d + 16384) / 2
}

pub open spec fn sot_value_ok(format: ScaleOctaveTuningFormat, d: int) -> bool {
    match format {
        ScaleOctaveTuningFormat::OneByte => 0 <= d * 100 + 8192 + 64 * 16384 < 128 * 16384,
        ScaleOctaveTuningFormat::TwoByte => 0 <= d + 16384 <= 32767,
    }
}

pub open spec fn sot_value_bytes(format: ScaleOctaveTuningFormat, d: int) -> Seq<u8> {
    match format {
        ScaleOctaveTuningFormat::OneByte => seq![one_byte_value(d) as u8],
        ScaleOctaveTuningFormat::TwoByte => {
            seq![(two_byte_value(d) / 128) as u8, (two_byte_value(d) % 128) as u8]
        },
    }
}

pub open spec fn sot_data(format: ScaleOctaveTuningFormat, ds: Seq<i64>) -> Seq<u8>
    decreases ds.len(),
{
    if ds.len() == 0 {
        Seq::empty()
    } else {
        sot_data(format, ds.drop_last()) + sot_value_bytes(format, ds.last() as int)
    }
}

/// Bit `k` of a 7-bit channel mask byte.
pub open spec fn bit_spec(k: int) -> u8 {
    if k == 0 {
        1
    } else if k == 1 {
        2
    } else if k == 2 {
        4
    } else if k == 3 {
        8
    } else if k == 4 {
        16
    } else if k == 5 {
        32
    } else {
        64
    }
}

/// The three channel mask bytes that select only `channel`: the first covers channels
/// 14 and 15, the second 7 to 13, the third 0 to 6.
pub open spec fn channel_mask(channel: int) -> Seq<u8> {
    if channel >= 14 {
        seq![bit_spec(channel - 14), 0u8, 0u8]
    } else if channel >= 7 {
        seq![0u8, bit_spec(channel - 7), 0u8]
    } else {
        seq![0u8, 0u8, bit_spec(channel)]
    }
}

/// A real-time Scale/Octave Tuning message for `channel` with the 12 detunings of the pitch
/// classes C to B.
pub open spec fn sot_sysex(device_id: u8, channel: u8, format: ScaleOctaveTuningFormat, ds: Seq<i64>) -> Seq<u8> {
    let sub_id = match format {
        ScaleOctaveTuningFormat::OneByte => SCALE_OCTAVE_TUNING_1_BYTE,
        ScaleOctaveTuningFormat::TwoByte => SCALE_OCTAVE_TUNING_2_BYTE,
    };
    seq![SYSEX_START, SYSEX_REAL_TIME, device_id, MIDI_TUNING_STANDARD, sub_id] + channel_mask(
        channel as int,
    ) + sot_data(format, ds) + seq![SYSEX_END]
}

pub struct ScaleOctaveTuningMessage {
    sysex: Vec<u8>,
}

fn bit(k: u8) -> (r: u8)
    requires
        k < 7,
    ensures
        r == bit_spec(k as int),
{
    if k == 0 {
        1
    } else if k == 1 {
        2
    } else if k == 2 {
        4
    } else if k == 3 {
        8
    } else if k == 4 {
        16
    } else if k == 5 {
        32
    } else {
        64
    }
}

impl ScaleOctaveTuningMessage {
    pub closed spec fn packet(&self) -> Seq<u8> {
        self.sysex@
    }

    /// Builds the message; each of the 12 detunings must be representable in `format`.
    pub fn from_octave_tuning(
        device_id: u8,
        channel: u8,
        format: ScaleOctaveTuningFormat,
        detunings: &Vec<i64>,
    ) -> (r: Result<ScaleOctaveTuningMessage, MtsError>)
        requires
            detunings.len() == 12,
            forall|i: int| 0 <= i < 12 ==> valid_detuning(#[trigger] detunings@[i] as int),
        ensures
            device_id >= 128 ==> r == Err::<ScaleOctaveTuningMessage, MtsError>(
                MtsError::DeviceIdOutOfRange,
            ),
            device_id < 128 && channel >= 16 ==> r == Err::<ScaleOctaveTuningMessage, MtsError>(
                MtsError::ChannelOutOfRange,
            ),
            device_id < 128 && channel < 16 ==> (r is Ok <==> forall|i: int|
                0 <= i < 12 ==> sot_value_ok(format, #[trigger] detunings@[i] as int)),
            device_id < 128 && channel < 16 && !(r is Ok) ==> r == Err::<
                ScaleOctaveTuningMessage,
                MtsError,
            >(MtsError::DetuningOutOfRange),
            r matches Ok(m) ==> m.packet() == sot_sysex(device_id, channel, format, detunings@),
    {
        if device_id >= 128 {
            return Err(MtsError::DeviceIdOutOfRange);
        }
        if channel >= 16 {
            return Err(MtsError::ChannelOutOfRange);
        }
        let sub_id = match format {
            ScaleOctaveTuningFormat::OneByte => SCALE_OCTAVE_TUNING_1_BYTE,
            ScaleOctaveTuningFormat::TwoByte => SCALE_OCTAVE_TUNING_2_BYTE,
        };
        let (ff, gg, hh) = if channel >= 14 {
            (bit(channel - 14), 0u8, 0u8)
        } else if channel >= 7 {
            (0u8, bit(channel - 7), 0u8)
        } else {
            (0u8, 0u8, bit(channel))
        };
        let mut sysex: Vec<u8> = vec![
            SYSEX_START,
            SYSEX_REAL_TIME,
            device_id,
            MIDI_TUNING_STANDARD,
            sub_id,
            ff,
            gg,
            hh,
        ];
        let ghost header = sysex@;
        assert(header == seq![SYSEX_START, SYSEX_REAL_TIME, device_id, MIDI_TUNING_STANDARD, sub_id]
            + channel_mask(channel as int));
        let mut i: usize = 0;
        while i < 12
            invariant
                i <= 12,
                device_id < 128,
                channel < 16,
                detunings.len() == 12,
                forall|k: int| 0 <= k < 12 ==> valid_detuning(#[trigger] detunings@[k] as int),
                forall|k: int| 0 <= k < i ==> sot_value_ok(format, #[trigger] detunings@[k] as int),
                sysex@ == header + sot_data(format, detunings@.take(i as int)),
            decreases 12 - i,
        {
            let d = detunings[i];
            assert(valid_detuning(detunings@[i as int] as int));
            assert(detunings@.take(i + 1).drop_last() == detunings@.take(i as int));
            match format {
                ScaleOctaveTuningFormat::OneByte => {
                    let x = d * 100 + 8192 + 64 * 16384;
                    if x < 0 || x >= 128 * 16384 {
                        return Err(MtsError::DetuningOutOfRange);
                    }
                    sysex.push((x / 16384) as u8);
                },
                ScaleOctaveTuningFormat::TwoByte => {
                    let x = d + 16384;
                    if x < 0 || x > 32767 {
                        return Err(MtsError::DetuningOutOfRange);
                    }
                    let v = x / 2;
                    sysex.push((v / 128) as u8);
                    sysex.push((v % 128) as u8);
                },
            }
            i = i + 1;
        }
        assert(detunings@.take(12) == detunings@);
        sysex.push(SYSEX_END);
        Ok(ScaleOctaveTuningMessage { sysex })
    }

    /// The raw message.
    pub fn sysex_bytes(&self) -> (r: &Vec<u8>)
        ensures
            r@ == self.packet(),
    {
        &self.sysex
    }
}

/// A control-change message.
pub open spec fn cc_spec(channel: u8, controller: u8, value: u8) -> ChannelMessage {
    ChannelMessage {
        channel,
        message_type: ChannelMessageType::ControlChange { controller, value },
    }
}

fn cc(channel: u8, controller: u8, value: u8) -> (r: ChannelMessage)
    ensures
        r == cc_spec(channel, controller, value),
{
    ChannelMessage {
        channel,
        message_type: ChannelMessageType::ControlChange { controller, value },
    }
}

pub open spec fn fine_tuning_ok(d: int) -> bool {
    0 <= d + 16384 <= 32767
}

/// Registered parameter 1 (channel fine tuning) set to the 14-bit value of `d`.
pub open spec fn channel_fine_tuning_spec(channel: u8, d: int) -> Seq<ChannelMessage> {
    let v = two_byte_value(d);
    seq![
        cc_spec(channel, 0x65, 0),
        cc_spec(channel, 0x64, 1),
        cc_spec(channel, 0x06, (v / 128) as u8),
        cc_spec(channel, 0x26, (v % 128) as u8),
    ]
}

/// Detunes `channel` by `detuning` (at most 100 cents either way) via channel fine tuning.
pub fn channel_fine_tuning(channel: u8, detuning: i64) -> (r: Result<Vec<ChannelMessage>, MtsError>)
    requires
        valid_detuning(detuning as int),
    ensures
        channel >= 16 ==> r == Err::<Vec<ChannelMessage>, MtsError>(MtsError::ChannelOutOfRange),
        channel < 16 && !fine_tuning_ok(detuning as int) ==> r == Err::<Vec<ChannelMessage>, MtsError>(
            MtsError::DetuningOutOfRange,
        ),
        channel < 16 && fine_tuning_ok(detuning as int) ==> (r matches Ok(v) && v@
            == channel_fine_tuning_spec(channel, detuning as int)),
{
    if channel >= 16 {
        return Err(MtsError::ChannelOutOfRange);
    }
    let x = detuning + 16384;
    if x < 0 || x > 32767 {
        return Err(MtsError::DetuningOutOfRange);
    }
    let v = x / 2;
    Ok(vec![
        cc(channel, 0x65, 0),
        cc(channel, 0x64, 1),
        cc(channel, 0x06, (v / 128) as u8),
        cc(channel, 0x26, (v % 128) as u8),
    ])
}

/// Registered parameter 3 (tuning program change) set to `program`.
pub open spec fn tuning_program_change_spec(channel: u8, program: u8) -> Seq<ChannelMessage> {
    seq![cc_spec(channel, 0x65, 0), cc_spec(channel, 0x64, 3), cc_spec(channel, 0x06, program)]
}

/// Selects tuning program `tuning_program` on `channel`.
pub fn tuning_program_change(channel: u8, tuning_program: u8) -> (r: Result<
    Vec<ChannelMessage>,
    MtsError,
>)
    ensures
        channel >= 16 ==> r == Err::<Vec<ChannelMessage>, MtsError>(MtsError::ChannelOutOfRange),
        channel < 16 && tuning_program >= 128 ==> r == Err::<Vec<ChannelMessage>, MtsError>(
            MtsError::TuningProgramOutOfRange,
        ),
        channel < 16 && tuning_program < 128 ==> (r matches Ok(v) && v@
            == tuning_program_change_spec(channel, tuning_program)),
{
    if channel >= 16 {
        return Err(MtsError::ChannelOutOfRange);
    }
    if tuning_program >= 128 {
        return Err(MtsError::TuningProgramOutOfRange);
    }
    Ok(vec![cc(channel, 0x65, 0), cc(channel, 0x64, 3), cc(channel, 0x06, tuning_program)])
}

/// A quarter of `d` (the bend in units of 1/8192 of 2 semitones), rounded toward zero.
pub open spec fn quarter_toward_zero(d: int) -> int {
    if d >= 0 {
        d / 4
    } else {
        -((-d) / 4)
    }
}

/// The raw pitch-bend value that bends by `d` with a bend range of 2 semitones, rounded
/// toward zero and held to the 14-bit range (8192 is no bend).
pub open spec fn pitch_bend_value_spec(d: int) -> int {
    let v = 8192 + quarter_toward_zero(d);
    if v < 0 {
        0
    } else if v > 16383 {
        16383
    } else {
        v
    }
}

pub fn pitch_bend_value(detuning: i64) -> (r: u32)
    requires
        valid_detuning(detuning as int),
    ensures
        r == pitch_bend_value_spec(detuning as int),
        r < 16384,
{
    let quarter = if detuning >= 0 {
        detuning / 4
    } else {
        -((-detuning) / 4)
    };
    let v = 8192 + quarter;
    if v < 0 {
        0
    } else if v > 16383 {
        16383
    } else {
        v as u32
    }
}

} // verus!
