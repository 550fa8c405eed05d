//! MIDI tuners: they turn logical key events into MIDI messages on a range of output channels,
//! sending the tuning messages each channel needs before the notes that depend on them.
use vstd::prelude::*;

use crate::aot::{
    aot_state, all_valid, entries_bounded, lemma_aot_sound, location_of, AotTuner, Detuning,
    Group,
};
use crate::jit::{
    has_key, index_of_key, register_spec, AccessKeyResult, JitTuner, PoolingMode,
    RegisterKeyResult,
};
use crate::midi::{
    raw_spec, ChannelMessage, ChannelMessageType, NOTE_OFF, NOTE_ON, POLYPHONIC_KEY_PRESSURE,
};
use crate::mts::{
    channel_fine_tuning, channel_fine_tuning_spec, fine_tuning_ok, in_range_changes,
    pitch_bend_value, pitch_bend_value_spec, sntc_messages, sot_sysex, sot_value_ok,
    tuning_program_change, tuning_program_change_spec, ScaleOctaveTuningFormat,
    ScaleOctaveTuningMessage, SingleNoteTuningChange, SingleNoteTuningChangeMessage,
};
use crate::pitch::{
    checked_midi_number, is_midi_note, letter, letter_of, valid_detuning, valid_pitch,
};

verus! {

/// The output channels a tuner uses: `num_channels` channels from `first_channel` on,
/// wrapping around after channel 15.
#[derive(Clone, Copy, Debug, PartialEq, Eq, Structural)]
pub struct MidiTarget {
    pub first_channel: u8,
    pub num_channels: u8,
}

pub open spec fn midi_channel_of(target: MidiTarget, c: int) -> u8 {
    ((c + target.first_channel) % 16) as u8
}

pub open spec fn tuning_program_of(c: int, first_tuning_program: u8) -> u8 {
    ((c + first_tuning_program) % 128) as u8
}

/// The raw message of `message_type` on `channel`, if it can be sent.
pub open spec fn channel_packet(channel: u8, message_type: ChannelMessageType) -> Seq<Seq<u8>> {
    if channel < 16 && message_type.pitch_bend_value_fits() {
        seq![raw_spec(ChannelMessage { channel, message_type })]
    } else {
        Seq::empty()
    }
}

pub open spec fn channel_packets(cms: Seq<ChannelMessage>) -> Seq<Seq<u8>>
    decreases cms.len(),
{
    if cms.len() == 0 {
        Seq::empty()
    } else {
        channel_packets(cms.drop_last()) + channel_packet(cms.last().channel, cms.last().message_type)
    }
}

/// `message_type` on each output channel in turn.
pub open spec fn monophonic_packets(target: MidiTarget, message_type: ChannelMessageType, n: int) -> Seq<Seq<u8>>
    decreases n,
{
    if n <= 0 {
        Seq::empty()
    } else {
        monophonic_packets(target, message_type, n - 1) + channel_packet(
            midi_channel_of(target, n - 1),
            message_type,
        )
    }
}

impl MidiTarget {
    pub fn check_num_channels(&self, num_channels_to_check: usize) -> (r: Result<(), usize>)
        ensures
            num_channels_to_check > self.num_channels ==> r == Err::<(), usize>(num_channels_to_check),
            num_channels_to_check <= self.num_channels ==> r is Ok,
    {
        if num_channels_to_check > self.num_channels as usize {
            Err(num_channels_to_check)
        } else {
            Ok(())
        }
    }

    /// The MIDI channel of tuner channel `tuner_channel`.
    pub fn midi_channel(&self, tuner_channel: usize) -> (r: u8)
        ensures
            r == midi_channel_of(*self, tuner_channel as int),
            r < 16,
    {
        ((tuner_channel % 16 + self.first_channel as usize) % 16) as u8
    }

    /// The tuning program that tuner channel `tuner_channel` uses.
    pub fn tuning_program(&self, tuner_channel: usize, first_tuning_program: u8) -> (r: u8)
        ensures
            r == tuning_program_of(tuner_channel as int, first_tuning_program),
            r < 128,
    {
        ((tuner_channel % 128 + first_tuning_program as usize) % 128) as u8
    }

    /// Sends `message` on the MIDI channel of `tuner_channel`.
    pub fn send(&self, message: ChannelMessageType, tuner_channel: usize, out: &mut Vec<MidiTunerMessage>)
        ensures
            all_packets(final(out)@) == all_packets(old(out)@) + channel_packet(
                midi_channel_of(*self, tuner_channel as int),
                message,
            ),
    {
        let channel = self.midi_channel(tuner_channel);
        push_channel(out, channel, message);
    }

    /// Sends `message_type` on every output channel.
    pub fn send_monophonic_message(&self, message_type: ChannelMessageType, out: &mut Vec<MidiTunerMessage>)
        ensures
            all_packets(final(out)@) == all_packets(old(out)@) + monophonic_packets(
                *self,
                message_type,
                self.num_channels as int,
            ),
    {
        let ghost start = all_packets(out@);
        let mut channel: u8 = 0;
        while channel < self.num_channels
            invariant
                channel <= self.num_channels,
                all_packets(out@) == start + monophonic_packets(*self, message_type, channel as int),
            decreases self.num_channels - channel,
        {
            self.send(message_type, channel as usize, out);
            channel = channel + 1;
        }
    }
}

enum MidiTunerMessageVariant {
    Channel(ChannelMessage),
    ScaleOctaveTuning(ScaleOctaveTuningMessage),
    SingleNoteTuningChange(SingleNoteTuningChangeMessage),
}

/// A message that a tuner hands out to be sent.
pub struct MidiTunerMessage {
    variant: MidiTunerMessageVariant,
}

impl MidiTunerMessage {
    /// The raw messages this message consists of.
    pub closed spec fn packets(&self) -> Seq<Seq<u8>> {
        match self.variant {
            MidiTunerMessageVariant::Channel(cm) => channel_packet(cm.channel, cm.message_type),
            MidiTunerMessageVariant::ScaleOctaveTuning(m) => seq![m.packet()],
            MidiTunerMessageVariant::SingleNoteTuningChange(m) => m.packets(),
        }
    }

    /// Hands each raw message to `receiver`, in order.
    pub fn send_to(&self, receiver: &mut Vec<Vec<u8>>)
        ensures
            final(receiver)@.map_values(|v: Vec<u8>| v@) == old(receiver)@.map_values(
                |v: Vec<u8>| v@,
            ) + self.packets(),
    {
        let ghost start = receiver@.map_values(|v: Vec<u8>| v@);
        match &self.variant {
            MidiTunerMessageVariant::Channel(cm) => {
                if cm.channel < 16 && cm.message_type.pitch_bend_value_fits_exec() {
                    receiver.push(cm.to_raw_message());
                }
                assert(receiver@.map_values(|v: Vec<u8>| v@) == start + self.packets());
            },
            MidiTunerMessageVariant::ScaleOctaveTuning(m) => {
                receiver.push(m.sysex_bytes().clone());
                assert(receiver@.map_values(|v: Vec<u8>| v@) == start + self.packets());
            },
            MidiTunerMessageVariant::SingleNoteTuningChange(m) => {
                let all = m.sysex_bytes();
                let mut i: usize = 0;
                while i < all.len()
                    invariant
                        i <= all.len(),
                        all@.map_values(|v: Vec<u8>| v@) == m.packets(),
                        receiver@.map_values(|v: Vec<u8>| v@) == start + m.packets().take(i as int),
                    decreases all.len() - i,
                {
                    let ghost before = receiver@.map_values(|v: Vec<u8>| v@);
                    receiver.push(all[i].clone());
                    assert(receiver@.map_values(|v: Vec<u8>| v@) == before.push(all@[i as int]@));
                    assert(m.packets().take(i + 1) == m.packets().take(i as int).push(all@[i as int]@));
                    i = i + 1;
                }
                assert(m.packets().take(all.len() as int) == m.packets());
            },
        }
    }
}

/// The raw messages of `ms`, in order.
pub open spec fn all_packets(ms: Seq<MidiTunerMessage>) -> Seq<Seq<u8>>
    decreases ms.len(),
{
    if ms.len() == 0 {
        Seq::empty()
    } else {
        all_packets(ms.drop_last()) + ms.last().packets()
    }
}

/// Receives the messages of a tuner.
pub trait MidiTunerMessageHandler {
    fn handle(&mut self, message: MidiTunerMessage);
}

impl MidiTunerMessageHandler for Vec<MidiTunerMessage> {
    fn handle(&mut self, message: MidiTunerMessage) {
        self.push(message);
    }
}

fn push_message(out: &mut Vec<MidiTunerMessage>, m: MidiTunerMessage)
    ensures
        all_packets(final(out)@) == all_packets(old(out)@) + m.packets(),
{
    let ghost before = out@;
    out.push(m);
    assert(out@.drop_last() == before);
}

fn push_channel(out: &mut Vec<MidiTunerMessage>, channel: u8, message_type: ChannelMessageType)
    ensures
        all_packets(final(out)@) == all_packets(old(out)@) + channel_packet(channel, message_type),
{
    if channel < 16 && message_type.pitch_bend_value_fits_exec() {
        let m = MidiTunerMessage {
            variant: MidiTunerMessageVariant::Channel(ChannelMessage { channel, message_type }),
        };
        push_message(out, m);
    } else {
        assert(all_packets(out@) + Seq::<Seq<u8>>::empty() == all_packets(out@));
    }
}

fn push_channels(out: &mut Vec<MidiTunerMessage>, cms: &Vec<ChannelMessage>)
    ensures
        all_packets(final(out)@) == all_packets(old(out)@) + channel_packets(cms@),
{
    let ghost start = all_packets(out@);
    let mut i: usize = 0;
    while i < cms.len()
        invariant
            i <= cms.len(),
            all_packets(out@) == start + channel_packets(cms@.take(i as int)),
        decreases cms.len() - i,
    {
        assert(cms@.take(i + 1).drop_last() == cms@.take(i as int));
        push_channel(out, cms[i].channel, cms[i].message_type);
        i = i + 1;
    }
    assert(cms@.take(cms.len() as int) == cms@);
}

/// Which tuning messages a tuner sends.
#[derive(Clone, Copy, Debug, PartialEq, Eq, Structural)]
pub enum TuningMethod {
    FullKeyboard { device_id: u8, first_tuning_program: u8 },
    Octave { device_id: u8, format: ScaleOctaveTuningFormat },
    ChannelFineTuning,
    PitchBend,
}

pub open spec fn group_for(method: TuningMethod) -> Group {
    match method {
        TuningMethod::FullKeyboard { .. } => Group::Note,
        TuningMethod::Octave { .. } => Group::NoteLetter,
        _ => Group::Channel,
    }
}

/// Selects the tuning program, then retunes the keys of `changes` in it.
pub open spec fn sntc_packets(device_id: u8, tuning_program: u8, channel: u8, changes: Seq<SingleNoteTuningChange>) -> Seq<Seq<u8>> {
    if device_id < 128 && tuning_program < 128 && channel < 16 {
        channel_packets(tuning_program_change_spec(channel, tuning_program)) + sntc_messages(
            device_id,
            tuning_program,
            in_range_changes(changes),
        )
    } else {
        Seq::empty()
    }
}

pub open spec fn all_sot_values_ok(format: ScaleOctaveTuningFormat, table: Seq<i64>) -> bool {
    forall|i: int| 0 <= i < 12 ==> sot_value_ok(format, #[trigger] table[i] as int)
}

pub open spec fn sot_packets(device_id: u8, channel: u8, format: ScaleOctaveTuningFormat, table: Seq<i64>) -> Seq<Seq<u8>> {
    if device_id < 128 && channel < 16 && all_sot_values_ok(format, table) {
        seq![sot_sysex(device_id, channel, format, table)]
    } else {
        Seq::empty()
    }
}

pub open spec fn fine_packets(channel: u8, d: int) -> Seq<Seq<u8>> {
    if channel < 16 && fine_tuning_ok(d) {
        channel_packets(channel_fine_tuning_spec(channel, d))
    } else {
        Seq::empty()
    }
}

pub open spec fn bend_packets(channel: u8, d: int) -> Seq<Seq<u8>> {
    channel_packet(channel, ChannelMessageType::PitchBendChange { value: pitch_bend_value_spec(d) as u32 })
}

fn push_sntc(
    out: &mut Vec<MidiTunerMessage>,
    device_id: u8,
    tuning_program: u8,
    channel: u8,
    changes: &Vec<SingleNoteTuningChange>,
)
    ensures
        all_packets(final(out)@) == all_packets(old(out)@) + sntc_packets(
            device_id,
            tuning_program,
            channel,
            changes@,
        ),
{
    match SingleNoteTuningChangeMessage::from_tuning_changes(device_id, tuning_program, changes) {
        Ok(message) => {
            match tuning_program_change(channel, tuning_program) {
                Ok(cms) => {
                    let ghost start = all_packets(out@);
                    push_channels(out, &cms);
                    push_message(
                        out,
                        MidiTunerMessage {
                            variant: MidiTunerMessageVariant::SingleNoteTuningChange(message),
                        },
                    );
                    assert(all_packets(out@) == start + sntc_packets(
                        device_id,
                        tuning_program,
                        channel,
                        changes@,
                    ));
                },
                Err(_) => {
                    assert(all_packets(out@) + Seq::<Seq<u8>>::empty() == all_packets(out@));
                },
            }
        },
        Err(_) => {
            assert(all_packets(out@) + Seq::<Seq<u8>>::empty() == all_packets(out@));
        },
    }
}

fn push_sot(
    out: &mut Vec<MidiTunerMessage>,
    device_id: u8,
    channel: u8,
    format: ScaleOctaveTuningFormat,
    table: &Vec<i64>,
)
    requires
        table.len() == 12,
        forall|i: int| 0 <= i < 12 ==> valid_detuning(#[trigger] table@[i] as int),
    ensures
        all_packets(final(out)@) == all_packets(old(out)@) + sot_packets(device_id, channel, format, table@),
{
    match ScaleOctaveTuningMessage::from_octave_tuning(device_id, channel, format, table) {
        Ok(message) => {
            push_message(
                out,
                MidiTunerMessage { variant: MidiTunerMessageVariant::ScaleOctaveTuning(message) },
            );
        },
        Err(_) => {
            assert(all_packets(out@) + Seq::<Seq<u8>>::empty() == all_packets(out@));
        },
    }
}

fn push_fine(out: &mut Vec<MidiTunerMessage>, channel: u8, d: i64)
    requires
        valid_detuning(d as int),
    ensures
        all_packets(final(out)@) == all_packets(old(out)@) + fine_packets(channel, d as int),
{
    match channel_fine_tuning(channel, d) {
        Ok(cms) => {
            push_channels(out, &cms);
        },
        Err(_) => {
            assert(all_packets(out@) + Seq::<Seq<u8>>::empty() == all_packets(out@));
        },
    }
}

fn push_bend(out: &mut Vec<MidiTunerMessage>, channel: u8, d: i64)
    requires
        valid_detuning(d as int),
    ensures
        all_packets(final(out)@) == all_packets(old(out)@) + bend_packets(channel, d as int),
{
    push_channel(out, channel, pitch_bend_message(d));
}

/// Bends by `detuning`, assuming a bend range of 2 semitones.
pub fn pitch_bend_message(detuning: i64) -> (r: ChannelMessageType)
    requires
        valid_detuning(detuning as int),
    ensures
        r == (ChannelMessageType::PitchBendChange {
            value: pitch_bend_value_spec(detuning as int) as u32,
        }),
{
    ChannelMessageType::PitchBendChange { value: pitch_bend_value(detuning) }
}

/// The changes that retune each note of a channel tuning to its detuned pitch.
pub open spec fn changes_of(t: Seq<Detuning>) -> Seq<SingleNoteTuningChange> {
    t.map_values(
        |e: Detuning|
            SingleNoteTuningChange { key: e.group, target_pitch: (e.group * 16384 + e.detuning) as i64 },
    )
}

/// The detunings of the 12 pitch classes in a channel tuning; unused classes stay at 0.
pub open spec fn fold_detunings(t: Seq<Detuning>) -> Seq<i64>
    decreases t.len(),
{
    if t.len() == 0 {
        Seq::new(12, |i: int| 0i64)
    } else {
        fold_detunings(t.drop_last()).update(t.last().group as int, t.last().detuning)
    }
}

/// The detuning of a channel that is tuned as a whole.
pub open spec fn channel_detuning(t: Seq<Detuning>) -> int {
    if t.len() > 0 {
        t[0].detuning as int
    } else {
        0
    }
}

/// The tuning messages for tuner channel `c` with tuning `t`.
pub open spec fn setup_channel_packets(method: TuningMethod, target: MidiTarget, c: int, t: Seq<Detuning>) -> Seq<Seq<u8>> {
    let mc = midi_channel_of(target, c);
    match method {
        TuningMethod::FullKeyboard { device_id, first_tuning_program } => sntc_packets(
            device_id,
            tuning_program_of(c, first_tuning_program),
            mc,
            changes_of(t),
        ),
        TuningMethod::Octave { device_id, format } => sot_packets(device_id, mc, format, fold_detunings(t)),
        TuningMethod::ChannelFineTuning => fine_packets(mc, channel_detuning(t)),
        TuningMethod::PitchBend => bend_packets(mc, channel_detuning(t)),
    }
}

/// The tuning messages for all channels, channel by channel.
pub open spec fn setup_packets(method: TuningMethod, target: MidiTarget, chans: Seq<Seq<Detuning>>) -> Seq<Seq<u8>>
    decreases chans.len(),
{
    if chans.len() == 0 {
        Seq::empty()
    } else {
        setup_packets(method, target, chans.drop_last()) + setup_channel_packets(
            method,
            target,
            chans.len() - 1,
            chans.last(),
        )
    }
}

pub open spec fn key_message(action: u8, note: u8, value: u8) -> ChannelMessageType {
    if action == NOTE_ON {
        ChannelMessageType::NoteOn { key: note, velocity: value }
    } else if action == NOTE_OFF {
        ChannelMessageType::NoteOff { key: note, velocity: value }
    } else {
        ChannelMessageType::PolyphonicKeyPressure { key: note, pressure: value }
    }
}

/// The note message of kind `action` for `note` on tuner channel `c`; nothing for a note
/// outside the MIDI range.
pub open spec fn key_packets(target: MidiTarget, c: int, note: int, action: u8, value: u8) -> Seq<Seq<u8>> {
    if is_midi_note(note) {
        channel_packet(midi_channel_of(target, c), key_message(action, note as u8, value))
    } else {
        Seq::empty()
    }
}

pub open spec fn located_packets(target: MidiTarget, loc: Option<(usize, i64)>, action: u8, value: u8) -> Seq<Seq<u8>> {
    match loc {
        Some((c, note)) => key_packets(target, c as int, note as int, action, value),
        None => Seq::empty(),
    }
}

fn send_key(target: &MidiTarget, c: usize, note: i64, action: u8, value: u8, out: &mut Vec<MidiTunerMessage>)
    requires
        action == NOTE_ON || action == NOTE_OFF || action == POLYPHONIC_KEY_PRESSURE,
    ensures
        all_packets(final(out)@) == all_packets(old(out)@) + key_packets(*target, c as int, note as int, action, value),
{
    match checked_midi_number(note) {
        Some(key) => {
            let message = if action == NOTE_ON {
                ChannelMessageType::NoteOn { key, velocity: value }
            } else if action == NOTE_OFF {
                ChannelMessageType::NoteOff { key, velocity: value }
            } else {
                ChannelMessageType::PolyphonicKeyPressure { key, pressure: value }
            };
            target.send(message, c, out);
        },
        None => {
            assert(all_packets(out@) + Seq::<Seq<u8>>::empty() == all_packets(out@));
        },
    }
}

fn push_setup_channel(
    out: &mut Vec<MidiTunerMessage>,
    method: TuningMethod,
    target: &MidiTarget,
    c: usize,
    t: &Vec<Detuning>,
)
    requires
        entries_bounded(group_for(method), t@),
    ensures
        all_packets(final(out)@) == all_packets(old(out)@) + setup_channel_packets(method, *target, c as int, t@),
{
    let mc = target.midi_channel(c);
    match method {
        TuningMethod::FullKeyboard { device_id, first_tuning_program } => {
            let tuning_program = target.tuning_program(c, first_tuning_program);
            let mut changes: Vec<SingleNoteTuningChange> = Vec::new();
            let mut j: usize = 0;
            while j < t.len()
                invariant
                    j <= t.len(),
                    entries_bounded(group_for(method), t@),
                    changes@ == changes_of(t@).take(j as int),
                decreases t.len() - j,
            {
                let e = t[j];
                assert(-67108865 <= t@[j as int].group <= 67108865 && -8192 <= t@[j as int].detuning < 8192);
                changes.push(SingleNoteTuningChange { key: e.group, target_pitch: e.group * 16384 + e.detuning });
                assert(changes_of(t@).take(j + 1) == changes_of(t@).take(j as int).push(changes_of(t@)[j as int]));
                j = j + 1;
            }
            assert(changes_of(t@).take(t.len() as int) == changes_of(t@));
            push_sntc(out, device_id, tuning_program, mc, &changes);
        },
        TuningMethod::Octave { device_id, format } => {
            let mut table: Vec<i64> = Vec::new();
            let mut k: usize = 0;
            while k < 12
                invariant
                    k <= 12,
                    table@.len() == k,
                    forall|i: int| 0 <= i < k ==> table@[i] == 0,
                decreases 12 - k,
            {
                table.push(0);
                k = k + 1;
            }
            assert(table@ == Seq::new(12, |i: int| 0i64));
            let mut j: usize = 0;
            while j < t.len()
                invariant
                    j <= t.len(),
                    entries_bounded(group_for(method), t@),
                    group_for(method) == Group::NoteLetter,
                    table@ == fold_detunings(t@.take(j as int)),
                    table@.len() == 12,
                    forall|i: int| 0 <= i < 12 ==> -8192 <= #[trigger] table@[i] < 8192,
                decreases t.len() - j,
            {
                let e = t[j];
                assert(0 <= t@[j as int].group < 12 && -8192 <= t@[j as int].detuning < 8192);
                assert(t@.take(j + 1).drop_last() == t@.take(j as int));
                table.set(e.group as usize, e.detuning);
                j = j + 1;
            }
            assert(t@.take(t.len() as int) == t@);
            push_sot(out, device_id, mc, format, &table);
        },
        TuningMethod::ChannelFineTuning => {
            assert(-8192 <= t@[0].detuning < 8192);
            push_fine(out, mc, t[0].detuning);
        },
        TuningMethod::PitchBend => {
            assert(-8192 <= t@[0].detuning < 8192);
            push_bend(out, mc, t[0].detuning);
        },
    }
}

/// A tuner with a fixed key-to-channel map whose tuning messages are sent once, at creation.
pub struct AotMidiTuner {
    target: MidiTarget,
    tuner: AotTuner,
}

/// What creating an ahead-of-time tuner yields: the number of channels needed if the target
/// has too few, or else the tuner and the tuning messages for all its channels.
pub open spec fn aot_created(
    r: Result<(AotMidiTuner, Vec<MidiTunerMessage>), usize>,
    target: MidiTarget,
    tuning: Seq<(i32, i64)>,
    method: TuningMethod,
) -> bool {
    let (chans, locs) = aot_state(group_for(method), tuning);
    match r {
        Err(n) => chans.len() > target.num_channels && n == chans.len(),
        Ok(created) => {
            &&& chans.len() <= target.num_channels
            &&& created.0.locations() == locs
            &&& created.0.target() == target
            &&& all_packets(created.1@) == setup_packets(method, target, chans)
        },
    }
}

impl AotMidiTuner {
    pub closed spec fn target(&self) -> MidiTarget {
        self.target
    }

    pub closed spec fn locations(&self) -> Seq<crate::aot::KeyLocation> {
        self.tuner.locations()
    }

    fn create(target: MidiTarget, tuning: &Vec<(i32, i64)>, method: TuningMethod) -> (r: Result<
        (AotMidiTuner, Vec<MidiTunerMessage>),
        usize,
    >)
        requires
            all_valid(tuning@),
        ensures
            aot_created(r, target, tuning@, method),
    {
        let (tuner, chans) = AotTuner::apply_tuning(group_for_exec(method), tuning);
        let ghost cs = crate::aot::deep(chans@);
        let num_keys = tuning.len();
        proof {
            assert(tuning@.len() == num_keys);
            lemma_aot_sound(group_for(method), tuning@);
        }
        if let Err(n) = target.check_num_channels(chans.len()) {
            return Err(n);
        }
        let mut out: Vec<MidiTunerMessage> = Vec::new();
        let mut c: usize = 0;
        while c < chans.len()
            invariant
                c <= chans.len(),
                cs == crate::aot::deep(chans@),
                forall|k: int| 0 <= k < cs.len() ==> entries_bounded(group_for(method), #[trigger] cs[k]),
                all_packets(out@) == setup_packets(method, target, cs.take(c as int)),
            decreases chans.len() - c,
        {
            assert(cs[c as int] == chans@[c as int]@);
            assert(cs.take(c + 1).drop_last() == cs.take(c as int));
            push_setup_channel(&mut out, method, &target, c, &chans[c]);
            c = c + 1;
        }
        assert(cs.take(chans.len() as int) == cs);
        Ok((AotMidiTuner { target, tuner }, out))
    }

    /// Retunes via Single Note Tuning Change: each channel carries one tuning program in which
    /// each note can be retuned on its own.
    pub fn single_note_tuning_change(
        target: MidiTarget,
        tuning: &Vec<(i32, i64)>,
        device_id: u8,
        first_tuning_program: u8,
    ) -> (r: Result<(AotMidiTuner, Vec<MidiTunerMessage>), usize>)
        requires
            all_valid(tuning@),
        ensures
            aot_created(r, target, tuning@, TuningMethod::FullKeyboard { device_id, first_tuning_program }),
    {
        AotMidiTuner::create(target, tuning, TuningMethod::FullKeyboard { device_id, first_tuning_program })
    }

    /// Retunes via Scale/Octave Tuning: each channel detunes each pitch class once.
    pub fn scale_octave_tuning(
        target: MidiTarget,
        tuning: &Vec<(i32, i64)>,
        device_id: u8,
        format: ScaleOctaveTuningFormat,
    ) -> (r: Result<(AotMidiTuner, Vec<MidiTunerMessage>), usize>)
        requires
            all_valid(tuning@),
        ensures
            aot_created(r, target, tuning@, TuningMethod::Octave { device_id, format }),
    {
        AotMidiTuner::create(target, tuning, TuningMethod::Octave { device_id, format })
    }

    /// Retunes via channel fine tuning: each channel has one detuning.
    pub fn channel_fine_tuning(target: MidiTarget, tuning: &Vec<(i32, i64)>) -> (r: Result<
        (AotMidiTuner, Vec<MidiTunerMessage>),
        usize,
    >)
        requires
            all_valid(tuning@),
        ensures
            aot_created(r, target, tuning@, TuningMethod::ChannelFineTuning),
    {
        AotMidiTuner::create(target, tuning, TuningMethod::ChannelFineTuning)
    }

    /// Retunes via pitch bend: each channel has one detuning.
    pub fn pitch_bend(target: MidiTarget, tuning: &Vec<(i32, i64)>) -> (r: Result<
        (AotMidiTuner, Vec<MidiTunerMessage>),
        usize,
    >)
        requires
            all_valid(tuning@),
        ensures
            aot_created(r, target, tuning@, TuningMethod::PitchBend),
    {
        AotMidiTuner::create(target, tuning, TuningMethod::PitchBend)
    }

    fn key_event(&self, key: i32, action: u8, value: u8) -> (r: Vec<MidiTunerMessage>)
        requires
            action == NOTE_ON || action == NOTE_OFF || action == POLYPHONIC_KEY_PRESSURE,
        ensures
            all_packets(r@) == located_packets(self.target, location_of(self.locations(), key), action, value),
    {
        let mut out: Vec<MidiTunerMessage> = Vec::new();
        match self.tuner.get_channel_and_note_for_key(key) {
            Some((channel, note)) => {
                send_key(&self.target, channel, note, action, value, &mut out);
            },
            None => {},
        }
        out
    }

    /// Starts the note of `key`.
    pub fn note_on(&mut self, key: i32, velocity: u8) -> (r: Vec<MidiTunerMessage>)
        ensures
            *final(self) == *old(self),
            all_packets(r@) == located_packets(old(self).target(), location_of(old(self).locations(), key), NOTE_ON, velocity),
    {
        self.key_event(key, NOTE_ON, velocity)
    }

    /// Stops the note of `key`.
    pub fn note_off(&mut self, key: i32, velocity: u8) -> (r: Vec<MidiTunerMessage>)
        ensures
            *final(self) == *old(self),
            all_packets(r@) == located_packets(old(self).target(), location_of(old(self).locations(), key), NOTE_OFF, velocity),
    {
        self.key_event(key, NOTE_OFF, velocity)
    }

    /// Sends a key-pressure message to the note of `key`.
    pub fn key_pressure(&mut self, key: i32, pressure: u8) -> (r: Vec<MidiTunerMessage>)
        ensures
            *final(self) == *old(self),
            all_packets(r@) == located_packets(
                old(self).target(),
                location_of(old(self).locations(), key),
                POLYPHONIC_KEY_PRESSURE,
                pressure,
            ),
    {
        self.key_event(key, POLYPHONIC_KEY_PRESSURE, pressure)
    }

    /// Sends a channel-global message to every output channel.
    pub fn send_monophonic_message(&mut self, message_type: ChannelMessageType) -> (r: Vec<MidiTunerMessage>)
        ensures
            *final(self) == *old(self),
            all_packets(r@) == monophonic_packets(old(self).target(), message_type, old(self).target().num_channels as int),
    {
        let mut out: Vec<MidiTunerMessage> = Vec::new();
        self.target.send_monophonic_message(message_type, &mut out);
        out
    }
}

fn group_for_exec(method: TuningMethod) -> (r: Group)
    ensures
        r == group_for(method),
{
    match method {
        TuningMethod::FullKeyboard { .. } => Group::Note,
        TuningMethod::Octave { .. } => Group::NoteLetter,
        _ => Group::Channel,
    }
}

/// The tuning messages that retune `note` on tuner channel `c` to be detuned by `d`.
pub open spec fn create_packets(
    method: TuningMethod,
    tables: Seq<Seq<i64>>,
    target: MidiTarget,
    c: int,
    note: int,
    d: int,
) -> Seq<Seq<u8>> {
    let mc = midi_channel_of(target, c);
    match method {
        TuningMethod::FullKeyboard { device_id, first_tuning_program } => sntc_packets(
            device_id,
            tuning_program_of(c, first_tuning_program),
            mc,
            seq![SingleNoteTuningChange { key: note as i64, target_pitch: (note * 16384 + d) as i64 }],
        ),
        TuningMethod::Octave { device_id, format } => sot_packets(
            device_id,
            mc,
            format,
            tables[c].update(letter_of(note), d as i64),
        ),
        TuningMethod::ChannelFineTuning => fine_packets(mc, d),
        TuningMethod::PitchBend => bend_packets(mc, d),
    }
}

/// The pitch-class tables of each channel after retuning `note` on channel `c`; only
/// Scale/Octave Tuning keeps such tables.
pub open spec fn create_tables(method: TuningMethod, tables: Seq<Seq<i64>>, c: int, note: int, d: int) -> Seq<Seq<i64>> {
    match method {
        TuningMethod::Octave { .. } => tables.update(c, tables[c].update(letter_of(note), d as i64)),
        _ => tables,
    }
}

pub open spec fn tables_wf(tables: Seq<Seq<i64>>, n: int) -> bool {
    &&& tables.len() == n
    &&& forall|c: int|
        0 <= c < n ==> {
            &&& (#[trigger] tables[c]).len() == 12
            &&& forall|i: int| 0 <= i < 12 ==> valid_detuning(#[trigger] tables[c][i] as int)
        }
}

struct MidiTuningCreator {
    method: TuningMethod,
    octave_tunings: Vec<Vec<i64>>,
}

impl MidiTuningCreator {
    spec fn tables(&self) -> Seq<Seq<i64>> {
        self.octave_tunings@.map_values(|v: Vec<i64>| v@)
    }

    fn create(
        &mut self,
        target: &MidiTarget,
        tuner_channel: usize,
        note: i64,
        detuning: i64,
        out: &mut Vec<MidiTunerMessage>,
    )
        requires
            tables_wf(old(self).tables(), target.num_channels as int),
            tuner_channel < target.num_channels,
            -67108865 <= note <= 67108865,
            valid_detuning(detuning as int),
        ensures
            final(self).method == old(self).method,
            final(self).tables() == create_tables(
                old(self).method,
                old(self).tables(),
                tuner_channel as int,
                note as int,
                detuning as int,
            ),
            tables_wf(final(self).tables(), target.num_channels as int),
            all_packets(final(out)@) == all_packets(old(out)@) + create_packets(
                old(self).method,
                old(self).tables(),
                *target,
                tuner_channel as int,
                note as int,
                detuning as int,
            ),
    {
        let mc = target.midi_channel(tuner_channel);
        match self.method {
            TuningMethod::FullKeyboard { device_id, first_tuning_program } => {
                let tuning_program = target.tuning_program(tuner_channel, first_tuning_program);
                let change = SingleNoteTuningChange { key: note, target_pitch: note * 16384 + detuning };
                let changes = vec![change];
                assert(changes@ == seq![change]);
                push_sntc(out, device_id, tuning_program, mc, &changes);
            },
            TuningMethod::Octave { device_id, format } => {
                let ghost t0 = self.tables();
                let l = letter(note);
                let mut table = self.octave_tunings[tuner_channel].clone();
                assert(table@ == t0[tuner_channel as int]);
                table.set(l, detuning);
                self.octave_tunings.set(tuner_channel, table.clone());
                assert(self.tables() == t0.update(tuner_channel as int, table@));
                assert forall|i: int| 0 <= i < 12 implies valid_detuning(#[trigger] table@[i] as int) by {
                    if i != l {
                        assert(table@[i] == t0[tuner_channel as int][i]);
                    }
                }
                push_sot(out, device_id, mc, format, &table);
            },
            TuningMethod::ChannelFineTuning => {
                push_fine(out, mc, detuning);
            },
            TuningMethod::PitchBend => {
                push_bend(out, mc, detuning);
            },
        }
    }
}

/// A tuner that assigns channels as keys are pressed and sends each key's tuning right
/// before its note.
pub struct JitMidiTuner {
    target: MidiTarget,
    tuner: JitTuner,
    midi_tuning_creator: MidiTuningCreator,
}

/// The messages for a pressed key: stopping the note it displaces, if any, then the tuning,
/// then the note itself.
pub open spec fn note_on_packets(
    method: TuningMethod,
    tables: Seq<Seq<i64>>,
    target: MidiTarget,
    result: RegisterKeyResult,
    velocity: u8,
) -> Seq<Seq<u8>> {
    match result {
        RegisterKeyResult::Rejected => Seq::empty(),
        RegisterKeyResult::Accepted { channel, stopped_note, started_note, detuning } => {
            let stop = match stopped_note {
                Some(n) => key_packets(target, channel as int, n as int, NOTE_OFF, velocity),
                None => Seq::empty(),
            };
            stop + create_packets(method, tables, target, channel as int, started_note as int, detuning as int)
                + key_packets(target, channel as int, started_note as int, NOTE_ON, velocity)
        },
    }
}

pub open spec fn note_on_tables(method: TuningMethod, tables: Seq<Seq<i64>>, result: RegisterKeyResult) -> Seq<Seq<i64>> {
    match result {
        RegisterKeyResult::Rejected => tables,
        RegisterKeyResult::Accepted { channel, started_note, detuning, .. } => create_tables(
            method,
            tables,
            channel as int,
            started_note as int,
            detuning as int,
        ),
    }
}

impl JitMidiTuner {
    pub closed spec fn target(&self) -> MidiTarget {
        self.target
    }

    pub closed spec fn method(&self) -> TuningMethod {
        self.midi_tuning_creator.method
    }

    pub closed spec fn mode(&self) -> PoolingMode {
        self.tuner.mode()
    }

    /// The sounding keys, in the order in which they took their channel.
    pub closed spec fn active(&self) -> Seq<crate::aot::KeyLocation> {
        self.tuner.active()
    }

    /// The pitch-class detunings last sent to each channel (Scale/Octave Tuning only).
    pub closed spec fn tables(&self) -> Seq<Seq<i64>> {
        self.midi_tuning_creator.tables()
    }

    pub closed spec fn wf(&self) -> bool {
        &&& self.tuner.wf()
        &&& self.tuner.channels() == self.target.num_channels
        &&& self.tuner.grouping() == group_for(self.midi_tuning_creator.method)
        &&& tables_wf(self.tables(), self.target.num_channels as int)
    }

    fn new(target: MidiTarget, pooling_mode: PoolingMode, method: TuningMethod) -> (r: JitMidiTuner)
        ensures
            r.wf(),
            r.target() == target,
            r.method() == method,
            r.mode() == pooling_mode,
            r.active().len() == 0,
            forall|c: int, i: int|
                0 <= c < target.num_channels && 0 <= i < 12 ==> #[trigger] r.tables()[c][i] == 0,
    {
        let n = target.num_channels as usize;
        let mut octave_tunings: Vec<Vec<i64>> = Vec::new();
        let mut c: usize = 0;
        while c < n
            invariant
                c <= n,
                tables_wf(octave_tunings@.map_values(|v: Vec<i64>| v@), c as int),
                forall|c2: int, i: int|
                    0 <= c2 < c && 0 <= i < 12 ==> #[trigger] octave_tunings@[c2]@[i] == 0,
            decreases n - c,
        {
            let mut table: Vec<i64> = Vec::new();
            let mut k: usize = 0;
            while k < 12
                invariant
                    k <= 12,
                    table@.len() == k,
                    forall|i: int| 0 <= i < k ==> table@[i] == 0,
                decreases 12 - k,
            {
                table.push(0);
                k = k + 1;
            }
            let ghost before = octave_tunings@.map_values(|v: Vec<i64>| v@);
            octave_tunings.push(table);
            assert(octave_tunings@.map_values(|v: Vec<i64>| v@) == before.push(table@));
            c = c + 1;
        }
        let ghost ts = octave_tunings@.map_values(|v: Vec<i64>| v@);
        assert forall|c: int, i: int| 0 <= c < n && 0 <= i < 12 implies #[trigger] ts[c][i] == 0 by {
            assert(octave_tunings@[c]@[i] == 0);
        }
        JitMidiTuner {
            target,
            tuner: JitTuner::new(pooling_mode, group_for_exec(method), n),
            midi_tuning_creator: MidiTuningCreator { method, octave_tunings },
        }
    }

    /// Retunes each note via a one-note Single Note Tuning Change in the channel's tuning program.
    pub fn single_note_tuning_change(
        target: MidiTarget,
        pooling_mode: PoolingMode,
        device_id: u8,
        first_tuning_program: u8,
    ) -> (r: JitMidiTuner)
        ensures
            r.wf(),
            r.target() == target,
            r.method() == (TuningMethod::FullKeyboard { device_id, first_tuning_program }),
            r.mode() == pooling_mode,
            r.active().len() == 0,
    {
        JitMidiTuner::new(target, pooling_mode, TuningMethod::FullKeyboard { device_id, first_tuning_program })
    }

    /// Retunes the pitch class of each note via Scale/Octave Tuning.
    pub fn scale_octave_tuning(
        target: MidiTarget,
        pooling_mode: PoolingMode,
        device_id: u8,
        format: ScaleOctaveTuningFormat,
    ) -> (r: JitMidiTuner)
        ensures
            r.wf(),
            r.target() == target,
            r.method() == (TuningMethod::Octave { device_id, format }),
            r.mode() == pooling_mode,
            r.active().len() == 0,
            r.tables() == Seq::new(target.num_channels as nat, |c: int| Seq::new(12, |i: int| 0i64)),
    {
        let r = JitMidiTuner::new(target, pooling_mode, TuningMethod::Octave { device_id, format });
        proof {
            assert forall|c: int| 0 <= c < target.num_channels implies #[trigger] r.tables()[c] == Seq::new(12, |i: int| 0i64) by {
                assert(r.tables()[c] =~= Seq::new(12, |i: int| 0i64));
            }
        }
        r
    }

    /// Retunes each channel as a whole via channel fine tuning.
    pub fn channel_fine_tuning(target: MidiTarget, pooling_mode: PoolingMode) -> (r: JitMidiTuner)
        ensures
            r.wf(),
            r.target() == target,
            r.method() == TuningMethod::ChannelFineTuning,
            r.mode() == pooling_mode,
            r.active().len() == 0,
    {
        JitMidiTuner::new(target, pooling_mode, TuningMethod::ChannelFineTuning)
    }

    /// Retunes each channel as a whole via pitch bend.
    pub fn pitch_bend(target: MidiTarget, pooling_mode: PoolingMode) -> (r: JitMidiTuner)
        ensures
            r.wf(),
            r.target() == target,
            r.method() == TuningMethod::PitchBend,
            r.mode() == pooling_mode,
            r.active().len() == 0,
    {
        JitMidiTuner::new(target, pooling_mode, TuningMethod::PitchBend)
    }

    /// Starts a note at `pitch`; `key` identifies it until it is stopped.
    pub fn note_on(&mut self, key: i32, pitch: i64, velocity: u8) -> (r: Vec<MidiTunerMessage>)
        requires
            old(self).wf(),
            valid_pitch(pitch as int),
        ensures
            final(self).wf(),
            final(self).target() == old(self).target(),
            final(self).method() == old(self).method(),
            final(self).mode() == old(self).mode(),
            ({
                let (active, result) = register_spec(
                    old(self).active(),
                    group_for(old(self).method()),
                    old(self).target().num_channels as int,
                    old(self).mode(),
                    key,
                    pitch as int,
                );
                &&& final(self).active() == active
                &&& final(self).tables() == note_on_tables(old(self).method(), old(self).tables(), result)
                &&& all_packets(r@) == note_on_packets(
                    old(self).method(),
                    old(self).tables(),
                    old(self).target(),
                    result,
                    velocity,
                )
            }),
    {
        let mut out: Vec<MidiTunerMessage> = Vec::new();
        let result = self.tuner.register_key(key, pitch);
        match result {
            RegisterKeyResult::Accepted { channel, stopped_note, started_note, detuning } => {
                match stopped_note {
                    Some(n) => {
                        send_key(&self.target, channel, n, NOTE_OFF, velocity, &mut out);
                    },
                    None => {},
                }
                self.midi_tuning_creator.create(&self.target, channel, started_note, detuning, &mut out);
                send_key(&self.target, channel, started_note, NOTE_ON, velocity, &mut out);
            },
            RegisterKeyResult::Rejected => {},
        }
        out
    }

    /// Stops the note of `key`.
    pub fn note_off(&mut self, key: i32, velocity: u8) -> (r: Vec<MidiTunerMessage>)
        requires
            old(self).wf(),
        ensures
            final(self).wf(),
            final(self).target() == old(self).target(),
            final(self).method() == old(self).method(),
            final(self).mode() == old(self).mode(),
            final(self).tables() == old(self).tables(),
            !has_key(old(self).active(), key) ==> r@.len() == 0 && final(self).active() == old(self).active(),
            has_key(old(self).active(), key) ==> {
                let i = index_of_key(old(self).active(), key);
                let l = old(self).active()[i];
                &&& final(self).active() == old(self).active().remove(i)
                &&& all_packets(r@) == key_packets(old(self).target(), l.channel as int, l.note as int, NOTE_OFF, velocity)
            },
            !has_key(final(self).active(), key),
    {
        let mut out: Vec<MidiTunerMessage> = Vec::new();
        match self.tuner.deregister_key(key) {
            AccessKeyResult::Found { channel, found_note } => {
                send_key(&self.target, channel, found_note, NOTE_OFF, velocity, &mut out);
            },
            AccessKeyResult::NotFound => {},
        }
        out
    }

    /// Retunes the note of `key` to `pitch`, keeping its channel and note.
    pub fn update_pitch(&mut self, key: i32, pitch: i64) -> (r: Vec<MidiTunerMessage>)
        requires
            old(self).wf(),
            valid_pitch(pitch as int),
        ensures
            final(self).wf(),
            final(self).target() == old(self).target(),
            final(self).method() == old(self).method(),
            final(self).mode() == old(self).mode(),
            final(self).active() == old(self).active(),
            !has_key(old(self).active(), key) ==> r@.len() == 0 && final(self).tables() == old(self).tables(),
            has_key(old(self).active(), key) ==> {
                let l = old(self).active()[index_of_key(old(self).active(), key)];
                let d = pitch - l.note * 16384;
                &&& final(self).tables() == create_tables(old(self).method(), old(self).tables(), l.channel as int, l.note as int, d)
                &&& all_packets(r@) == create_packets(
                    old(self).method(),
                    old(self).tables(),
                    old(self).target(),
                    l.channel as int,
                    l.note as int,
                    d,
                )
            },
    {
        let mut out: Vec<MidiTunerMessage> = Vec::new();
        match self.tuner.access_key(key) {
            AccessKeyResult::Found { channel, found_note } => {
                let detuning = pitch - found_note * 16384;
                self.midi_tuning_creator.create(&self.target, channel, found_note, detuning, &mut out);
            },
            AccessKeyResult::NotFound => {},
        }
        out
    }

    /// Sends a key-pressure message to the note of `key`.
    pub fn key_pressure(&mut self, key: i32, pressure: u8) -> (r: Vec<MidiTunerMessage>)
        requires
            old(self).wf(),
        ensures
            *final(self) == *old(self),
            !has_key(old(self).active(), key) ==> r@.len() == 0,
            has_key(old(self).active(), key) ==> {
                let l = old(self).active()[index_of_key(old(self).active(), key)];
                all_packets(r@) == key_packets(
                    old(self).target(),
                    l.channel as int,
                    l.note as int,
                    POLYPHONIC_KEY_PRESSURE,
                    pressure,
                )
            },
    {
        let mut out: Vec<MidiTunerMessage> = Vec::new();
        match self.tuner.access_key(key) {
            AccessKeyResult::Found { channel, found_note } => {
                send_key(&self.target, channel, found_note, POLYPHONIC_KEY_PRESSURE, pressure, &mut out);
            },
            AccessKeyResult::NotFound => {},
        }
        out
    }

    /// Dispatches a channel-global message to all output channels.
    pub fn send_monophonic_message(&mut self, message_type: ChannelMessageType) -> (r: Vec<MidiTunerMessage>)
        ensures
            *final(self) == *old(self),
            all_packets(r@) == monophonic_packets(old(self).target(), message_type, old(self).target().num_channels as int),
    {
        let mut out: Vec<MidiTunerMessage> = Vec::new();
        self.target.send_monophonic_message(message_type, &mut out);
        out
    }

    /// Ends the tuner, handing back its output channels.
    pub fn destroy(self) -> (r: MidiTarget)
        ensures
            r == self.target(),
    {
        self.target
    }
}

/// Every sounding key of a just-in-time tuner is on one of its output channels, and no key
/// sounds twice. Every constructor and method keeps the tuner well formed, so this holds at
/// all times.
pub proof fn lemma_jit_channels_and_keys(t: &JitMidiTuner)
    requires
        t.wf(),
    ensures
        forall|i: int|
            0 <= i < t.active().len() ==> (#[trigger] t.active()[i]).channel < t.target().num_channels,
        forall|i: int, j: int|
            0 <= i < j < t.active().len() ==> t.active()[i].key != t.active()[j].key,
{
    crate::jit::lemma_channels_and_keys(&t.tuner);
}

/// Unless the pooling mode is `Ignore`, no two sounding keys of a just-in-time tuner share a
/// channel and a note. Every constructor and method keeps the tuner well formed, so this holds
/// at all times.
pub proof fn lemma_jit_no_shared_note(t: &JitMidiTuner)
    requires
        t.wf(),
        t.mode() != PoolingMode::Ignore,
    ensures
        forall|i: int, j: int|
            0 <= i < j < t.active().len() && t.active()[i].channel == t.active()[j].channel
                ==> t.active()[i].note != t.active()[j].note,
{
    crate::jit::lemma_no_shared_group(&t.tuner);
}

/// The pitch-class table of a channel gives each of its pitch classes the detuning the
/// channel tunes it with.
proof fn lemma_fold_detunings(t: Seq<Detuning>, j: int)
    requires
        crate::aot::groups_unique(t),
        forall|k: int| 0 <= k < t.len() ==> 0 <= #[trigger] t[k].group < 12,
        0 <= j < t.len(),
    ensures
        fold_detunings(t).len() == 12,
        fold_detunings(t)[t[j].group as int] == t[j].detuning,
    decreases t.len(),
{
    lemma_fold_len(t);
    let prev = t.drop_last();
    assert forall|k: int| 0 <= k < prev.len() implies 0 <= #[trigger] prev[k].group < 12 by {
        assert(prev[k] == t[k]);
    }
    lemma_fold_len(prev);
    assert(0 <= t[t.len() - 1].group < 12);
    if j < t.len() - 1 {
        assert(prev[j] == t[j]);
        lemma_fold_detunings(prev, j);
        assert(t[j].group != t[t.len() - 1].group);
    }
}

proof fn lemma_fold_len(t: Seq<Detuning>)
    requires
        forall|k: int| 0 <= k < t.len() ==> 0 <= #[trigger] t[k].group < 12,
    ensures
        fold_detunings(t).len() == 12,
    decreases t.len(),
{
    if t.len() > 0 {
        let prev = t.drop_last();
        assert forall|k: int| 0 <= k < prev.len() implies 0 <= #[trigger] prev[k].group < 12 by {
            assert(prev[k] == t[k]);
        }
        lemma_fold_len(prev);
        assert(0 <= t[t.len() - 1].group < 12);
    }
}

/// Ahead-of-time tuning sends each channel the tuning its keys need: for every key, the
/// tuning messages of its channel retune the key's note to exactly the key's pitch (Single
/// Note Tuning Change), detune the note's pitch class by the note's detuning (Scale/Octave
/// Tuning), or detune the whole channel by it (fine tuning, pitch bend).
pub proof fn lemma_aot_channel_tunes_key(method: TuningMethod, tuning: Seq<(i32, i64)>, i: int)
    requires
        all_valid(tuning),
        tuning.len() <= usize::MAX,
        0 <= i < tuning.len(),
    ensures
        ({
            let (chans, locs) = aot_state(group_for(method), tuning);
            let l = locs[i];
            let t = chans[l.channel as int];
            &&& l.key == tuning[i].0
            &&& l.channel < chans.len()
            &&& l.note * 16384 + l.detuning == tuning[i].1
            &&& group_for(method) == Group::Note ==> changes_of(t).contains(
                SingleNoteTuningChange { key: l.note, target_pitch: tuning[i].1 },
            )
            &&& group_for(method) == Group::NoteLetter ==> fold_detunings(t)[letter_of(l.note as int)]
                == l.detuning
            &&& group_for(method) == Group::Channel ==> channel_detuning(t) == l.detuning
        }),
{
    let g = group_for(method);
    lemma_aot_sound(g, tuning);
    let (chans, locs) = aot_state(g, tuning);
    let l = locs[i];
    let c = l.channel as int;
    let t = chans[c];
    assert(crate::aot::carries(t, crate::aot::group_of(g, l.note as int), l.detuning as int));
    let j = choose|j: int|
        0 <= j < t.len() && t[j].group == crate::aot::group_of(g, l.note as int) && t[j].detuning
            == l.detuning;
    assert(entries_bounded(g, t));
    if g == Group::Note {
        assert(changes_of(t)[j] == SingleNoteTuningChange { key: l.note, target_pitch: tuning[i].1 });
    }
    if g == Group::NoteLetter {
        assert forall|k: int| 0 <= k < t.len() implies 0 <= #[trigger] t[k].group < 12 by {
            assert(-8192 <= t[k].detuning < 8192);
        }
        lemma_fold_detunings(t, j);
    }
    if g == Group::Channel {
        assert(-8192 <= t[0].detuning < 8192);
        if j != 0 {
            assert(t[0].group != t[j].group);
        }
    }
}

} // verus!
