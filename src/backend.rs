//! A MIDI output that follows the keyboard of a synthesizer: with no scale it retunes just in
//! time, with a scale it retunes ahead of time and tracks which fingers hold which scale keys.
use vstd::prelude::*;

use crate::aot::{aot_state, all_valid, location_of};
use crate::jit::{has_key, index_of_key, register_spec, PoolingMode};
use crate::keypress::{
    finger_index, has_finger, is_pressed, lift_spec, place_spec, KeypressTracker, LiftAction,
    PlaceAction,
};
use crate::midi::{ChannelMessageType, NOTE_OFF, NOTE_ON, POLYPHONIC_KEY_PRESSURE};
use crate::pitch::valid_pitch;
use crate::tuner::{
    all_packets, create_packets, create_tables, note_on_tables, group_for, key_packets, located_packets, monophonic_packets,
    note_on_packets, setup_packets, AotMidiTuner, JitMidiTuner, MidiTarget, MidiTunerMessage,
    TuningMethod,
};

verus! {

pub enum MidiTuner {
    Untuned,
    Jit { jit_tuner: JitMidiTuner },
    Aot { aot_tuner: AotMidiTuner, keypress_tracker: KeypressTracker },
}

/// The note-off messages for the held locations `locs` of an ahead-of-time tuner.
pub open spec fn release_packets(aot: AotMidiTuner, locs: Seq<i32>) -> Seq<Seq<u8>>
    decreases locs.len(),
{
    if locs.len() == 0 {
        Seq::empty()
    } else {
        release_packets(aot, locs.drop_last()) + located_packets(
            aot.target(),
            location_of(aot.locations(), locs.last()),
            NOTE_OFF,
            0,
        )
    }
}

/// Whether `packets` stop every location held in `tracker`, each once, in some order.
pub open spec fn releases_all(state: MidiTuner, packets: Seq<Seq<u8>>) -> bool {
    match state {
        MidiTuner::Aot { aot_tuner, keypress_tracker } => exists|locs: Seq<i32>|
            {
                &&& (forall|i: int, j: int| 0 <= i < j < locs.len() ==> locs[i] != locs[j])
                &&& (forall|l: i32| is_pressed(keypress_tracker.fingers(), l) <==> locs.contains(l))
                &&& packets == release_packets(aot_tuner, locs)
            },
        _ => packets.len() == 0,
    }
}

pub open spec fn aot_key_packets(aot: AotMidiTuner, location: i32, action: u8, value: u8) -> Seq<Seq<u8>> {
    located_packets(aot.target(), location_of(aot.locations(), location), action, value)
}

pub open spec fn jit_note_on_packets(j: JitMidiTuner, key: i32, pitch: int, velocity: u8) -> Seq<Seq<u8>> {
    note_on_packets(
        j.method(),
        j.tables(),
        j.target(),
        register_spec(j.active(), group_for(j.method()), j.target().num_channels as int, j.mode(), key, pitch).1,
        velocity,
    )
}

/// The messages for finger `id` pressing scale key `degree`.
pub open spec fn start_packets(state: MidiTuner, id: i32, degree: i32, pitch: int, velocity: u8) -> Seq<Seq<u8>> {
    match state {
        MidiTuner::Untuned => Seq::empty(),
        MidiTuner::Jit { jit_tuner } => jit_note_on_packets(jit_tuner, id, pitch, velocity),
        MidiTuner::Aot { aot_tuner, keypress_tracker } => match place_spec(keypress_tracker.fingers(), id, degree).1 {
            Ok(PlaceAction::KeyPressed) => aot_key_packets(aot_tuner, degree, NOTE_ON, velocity),
            Ok(PlaceAction::KeyAlreadyPressed) => aot_key_packets(aot_tuner, degree, NOTE_OFF, velocity)
                + aot_key_packets(aot_tuner, degree, NOTE_ON, velocity),
            Err(_) => Seq::empty(),
        },
    }
}

/// The messages for finger `id` sliding to scale key `degree` at `pitch`.
pub open spec fn move_packets(state: MidiTuner, id: i32, degree: i32, pitch: int, velocity: u8) -> Seq<Seq<u8>> {
    match state {
        MidiTuner::Untuned => Seq::empty(),
        MidiTuner::Jit { jit_tuner } => {
            let a = jit_tuner.active();
            if has_key(a, id) {
                let l = a[index_of_key(a, id)];
                create_packets(
                    jit_tuner.method(),
                    jit_tuner.tables(),
                    jit_tuner.target(),
                    l.channel as int,
                    l.note as int,
                    pitch - l.note * 16384,
                )
            } else {
                Seq::empty()
            }
        },
        MidiTuner::Aot { aot_tuner, keypress_tracker } => {
            let fs = keypress_tracker.fingers();
            if has_finger(fs, id) {
                let (lifted, lift) = lift_spec(fs, id);
                let place = place_spec(lifted, id, degree).1;
                match (lift, place) {
                    (Ok(LiftAction::KeyReleased(released)), _) => aot_key_packets(aot_tuner, released, NOTE_OFF, velocity)
                        + aot_key_packets(aot_tuner, degree, NOTE_ON, velocity),
                    (Ok(LiftAction::KeyRemainsPressed), Ok(PlaceAction::KeyPressed)) => aot_key_packets(
                        aot_tuner,
                        degree,
                        NOTE_ON,
                        velocity,
                    ),
                    _ => Seq::empty(),
                }
            } else {
                Seq::empty()
            }
        },
    }
}

/// The messages for finger `id` changing its pressure.
pub open spec fn pressure_packets(state: MidiTuner, id: i32, pressure: u8) -> Seq<Seq<u8>> {
    match state {
        MidiTuner::Untuned => Seq::empty(),
        MidiTuner::Jit { jit_tuner } => {
            let a = jit_tuner.active();
            if has_key(a, id) {
                let l = a[index_of_key(a, id)];
                key_packets(jit_tuner.target(), l.channel as int, l.note as int, POLYPHONIC_KEY_PRESSURE, pressure)
            } else {
                Seq::empty()
            }
        },
        MidiTuner::Aot { aot_tuner, keypress_tracker } => {
            let fs = keypress_tracker.fingers();
            if has_finger(fs, id) {
                aot_key_packets(aot_tuner, fs[finger_index(fs, id)].1, POLYPHONIC_KEY_PRESSURE, pressure)
            } else {
                Seq::empty()
            }
        },
    }
}

/// The messages for finger `id` being lifted.
pub open spec fn stop_packets(state: MidiTuner, id: i32, velocity: u8) -> Seq<Seq<u8>> {
    match state {
        MidiTuner::Untuned => Seq::empty(),
        MidiTuner::Jit { jit_tuner } => {
            let a = jit_tuner.active();
            if has_key(a, id) {
                let l = a[index_of_key(a, id)];
                key_packets(jit_tuner.target(), l.channel as int, l.note as int, NOTE_OFF, velocity)
            } else {
                Seq::empty()
            }
        },
        MidiTuner::Aot { aot_tuner, keypress_tracker } => match lift_spec(keypress_tracker.fingers(), id).1 {
            Ok(LiftAction::KeyReleased(location)) => aot_key_packets(aot_tuner, location, NOTE_OFF, velocity),
            _ => Seq::empty(),
        },
    }
}

/// Two just-in-time tuners with the same output channels, method and pooling mode.
pub open spec fn same_jit_setup(a: JitMidiTuner, b: JitMidiTuner) -> bool {
    &&& a.target() == b.target()
    &&& a.method() == b.method()
    &&& a.mode() == b.mode()
}

/// The state after finger `id` presses scale key `degree` at `pitch`.
pub open spec fn start_state(before: MidiTuner, after: MidiTuner, id: i32, degree: i32, pitch: int) -> bool {
    match (before, after) {
        (MidiTuner::Untuned, MidiTuner::Untuned) => true,
        (MidiTuner::Jit { jit_tuner: j }, MidiTuner::Jit { jit_tuner: k }) => {
            let result = register_spec(
                j.active(),
                group_for(j.method()),
                j.target().num_channels as int,
                j.mode(),
                id,
                pitch,
            );
            &&& same_jit_setup(j, k)
            &&& k.active() == result.0
            &&& k.tables() == note_on_tables(j.method(), j.tables(), result.1)
        },
        (
            MidiTuner::Aot { aot_tuner: a, keypress_tracker: t },
            MidiTuner::Aot { aot_tuner: a2, keypress_tracker: t2 },
        ) => a2 == a && t2.fingers() == place_spec(t.fingers(), id, degree).0,
        _ => false,
    }
}

/// The state after finger `id` slides to scale key `degree` at `pitch`.
pub open spec fn move_state(before: MidiTuner, after: MidiTuner, id: i32, degree: i32, pitch: int) -> bool {
    match (before, after) {
        (MidiTuner::Untuned, MidiTuner::Untuned) => true,
        (MidiTuner::Jit { jit_tuner: j }, MidiTuner::Jit { jit_tuner: k }) => {
            let a = j.active();
            &&& same_jit_setup(j, k)
            &&& k.active() == a
            &&& k.tables() == if has_key(a, id) {
                let l = a[index_of_key(a, id)];
                create_tables(j.method(), j.tables(), l.channel as int, l.note as int, pitch - l.note * 16384)
            } else {
                j.tables()
            }
        },
        (
            MidiTuner::Aot { aot_tuner: a, keypress_tracker: t },
            MidiTuner::Aot { aot_tuner: a2, keypress_tracker: t2 },
        ) => {
            let fs = t.fingers();
            &&& a2 == a
            &&& t2.fingers() == if has_finger(fs, id) {
                place_spec(lift_spec(fs, id).0, id, degree).0
            } else {
                fs
            }
        },
        _ => false,
    }
}

/// The state after finger `id` is lifted.
pub open spec fn stop_state(before: MidiTuner, after: MidiTuner, id: i32) -> bool {
    match (before, after) {
        (MidiTuner::Untuned, MidiTuner::Untuned) => true,
        (MidiTuner::Jit { jit_tuner: j }, MidiTuner::Jit { jit_tuner: k }) => {
            let a = j.active();
            &&& same_jit_setup(j, k)
            &&& k.tables() == j.tables()
            &&& k.active() == if has_key(a, id) {
                a.remove(index_of_key(a, id))
            } else {
                a
            }
        },
        (
            MidiTuner::Aot { aot_tuner: a, keypress_tracker: t },
            MidiTuner::Aot { aot_tuner: a2, keypress_tracker: t2 },
        ) => a2 == a && t2.fingers() == lift_spec(t.fingers(), id).0,
        _ => false,
    }
}

pub open spec fn broadcast_packets(state: MidiTuner, target: MidiTarget, message_type: ChannelMessageType) -> Seq<Seq<u8>> {
    match state {
        MidiTuner::Untuned => Seq::empty(),
        _ => monophonic_packets(target, message_type, target.num_channels as int),
    }
}

/// What the user is shown about a MIDI output.
pub struct MidiInfo {
    pub device: String,
    pub tuning_method: Option<TuningMethod>,
    pub program_number: u8,
}

pub struct MidiOutBackend {
    target: MidiTarget,
    tuning_method: TuningMethod,
    curr_program: u8,
    tuner: MidiTuner,
}

impl MidiOutBackend {
    pub closed spec fn state(&self) -> MidiTuner {
        self.tuner
    }

    pub closed spec fn target(&self) -> MidiTarget {
        self.target
    }

    pub closed spec fn method(&self) -> TuningMethod {
        self.tuning_method
    }

    pub closed spec fn program(&self) -> u8 {
        self.curr_program
    }

    pub closed spec fn wf(&self) -> bool {
        &&& self.curr_program < 128
        &&& match self.tuner {
            MidiTuner::Untuned => true,
            MidiTuner::Jit { jit_tuner } => {
                &&& jit_tuner.wf()
                &&& jit_tuner.target() == self.target
            },
            MidiTuner::Aot { aot_tuner, keypress_tracker } => {
                &&& keypress_tracker.wf()
                &&& aot_tuner.target() == self.target
            },
        }
    }

    /// A backend that does not retune yet.
    pub fn new(target: MidiTarget, tuning_method: TuningMethod) -> (r: MidiOutBackend)
        ensures
            r.wf(),
            r.state() is Untuned,
            r.target() == target,
            r.method() == tuning_method,
            r.program() == 0,
    {
        MidiOutBackend { target, tuning_method, curr_program: 0, tuner: MidiTuner::Untuned }
    }

    /// Whether the backend retunes at all.
    pub fn is_tuned(&self) -> (r: bool)
        ensures
            r == !(self.state() is Untuned),
    {
        match self.tuner {
            MidiTuner::Untuned => false,
            _ => true,
        }
    }

    /// The status of this backend on `device`: its tuning method only while it retunes.
    pub fn status(&self, device: String) -> (r: MidiInfo)
        ensures
            r.device@ == device@,
            r.program_number == self.program(),
            self.state() is Untuned ==> r.tuning_method is None,
            !(self.state() is Untuned) ==> r.tuning_method == Some(self.method()),
    {
        let tuning_method = if self.is_tuned() {
            Some(self.tuning_method)
        } else {
            None
        };
        MidiInfo { device, tuning_method, program_number: self.curr_program }
    }

    pub fn program_number(&self) -> (r: u8)
        ensures
            r == self.program(),
    {
        self.curr_program
    }

    /// Stops every note the ahead-of-time tuner holds and leaves the backend untuned.
    fn destroy_tuning(&mut self) -> (r: Vec<MidiTunerMessage>)
        requires
            old(self).wf(),
        ensures
            final(self).wf(),
            final(self).state() is Untuned,
            final(self).target() == old(self).target(),
            final(self).method() == old(self).method(),
            final(self).program() == old(self).program(),
            releases_all(old(self).state(), all_packets(r@)),
    {
        let mut out: Vec<MidiTunerMessage> = Vec::new();
        match &mut self.tuner {
            MidiTuner::Aot { aot_tuner, keypress_tracker } => {
                let locs = keypress_tracker.pressed_locations();
                let ghost a0 = *aot_tuner;
                let mut i: usize = 0;
                while i < locs.len()
                    invariant
                        i <= locs.len(),
                        *aot_tuner == a0,
                        all_packets(out@) == release_packets(a0, locs@.take(i as int)),
                    decreases locs.len() - i,
                {
                    let ghost before = out@;
                    let mut msgs = aot_tuner.note_off(locs[i], 0);
                    proof {
                        lemma_all_packets_append(before, msgs@);
                    }
                    out.append(&mut msgs);
                    assert(locs@.take(i + 1).drop_last() == locs@.take(i as int));
                    i = i + 1;
                }
                assert(locs@.take(locs.len() as int) == locs@);
            },
            _ => {},
        }
        self.tuner = MidiTuner::Untuned;
        out
    }

    /// Retunes ahead of time to `tuning` (scale keys and their pitches): stops the notes of
    /// the previous tuning, then sends the new tuning. When the output channels do not suffice,
    /// the backend keeps its previous state, sends nothing, and returns the number of channels
    /// the tuning needs.
    pub fn set_tuning(&mut self, tuning: &Vec<(i32, i64)>) -> (r: (Vec<MidiTunerMessage>, Result<(), usize>))
        requires
            old(self).wf(),
            all_valid(tuning@),
        ensures
            final(self).wf(),
            final(self).target() == old(self).target(),
            final(self).method() == old(self).method(),
            final(self).program() == old(self).program(),
            ({
                let (chans, locs) = aot_state(group_for(old(self).method()), tuning@);
                match r.1 {
                    Err(n) => {
                        &&& n == chans.len() > old(self).target().num_channels
                        &&& final(self).state() == old(self).state()
                        &&& r.0@.len() == 0
                    },
                    Ok(_) => {
                        &&& chans.len() <= old(self).target().num_channels
                        &&& final(self).state() matches MidiTuner::Aot { aot_tuner, keypress_tracker }
                        &&& aot_tuner.locations() == locs
                        &&& keypress_tracker.fingers().len() == 0
                        &&& exists|released: Seq<Seq<u8>>|
                            {
                                &&& releases_all(old(self).state(), released)
                                &&& all_packets(r.0@) == released + setup_packets(
                                    old(self).method(),
                                    old(self).target(),
                                    chans,
                                )
                            }
                    },
                }
            }),
    {
        let created = match self.tuning_method {
            TuningMethod::FullKeyboard { device_id, first_tuning_program } => AotMidiTuner::single_note_tuning_change(
                self.target,
                tuning,
                device_id,
                first_tuning_program,
            ),
            TuningMethod::Octave { device_id, format } => AotMidiTuner::scale_octave_tuning(
                self.target,
                tuning,
                device_id,
                format,
            ),
            TuningMethod::ChannelFineTuning => AotMidiTuner::channel_fine_tuning(self.target, tuning),
            TuningMethod::PitchBend => AotMidiTuner::pitch_bend(self.target, tuning),
        };
        match created {
            Ok((aot_tuner, mut setup)) => {
                let mut out = self.destroy_tuning();
                proof {
                    lemma_all_packets_append(out@, setup@);
                }
                out.append(&mut setup);
                self.tuner = MidiTuner::Aot { aot_tuner, keypress_tracker: KeypressTracker::new() };
                (out, Ok(()))
            },
            Err(n) => (Vec::new(), Err(n)),
        }
    }

    /// Stops retuning ahead of time and retunes just in time instead, stopping the oldest note
    /// on clashes.
    pub fn set_no_tuning(&mut self) -> (r: Vec<MidiTunerMessage>)
        requires
            old(self).wf(),
        ensures
            final(self).wf(),
            final(self).target() == old(self).target(),
            final(self).method() == old(self).method(),
            final(self).program() == old(self).program(),
            releases_all(old(self).state(), all_packets(r@)),
            final(self).state() matches MidiTuner::Jit { jit_tuner } && jit_tuner.method() == old(
                self,
            ).method() && jit_tuner.mode() == PoolingMode::Stop && jit_tuner.active().len() == 0,
    {
        let out = self.destroy_tuning();
        let jit_tuner = match self.tuning_method {
            TuningMethod::FullKeyboard { device_id, first_tuning_program } => JitMidiTuner::single_note_tuning_change(
                self.target,
                PoolingMode::Stop,
                device_id,
                first_tuning_program,
            ),
            TuningMethod::Octave { device_id, format } => JitMidiTuner::scale_octave_tuning(
                self.target,
                PoolingMode::Stop,
                device_id,
                format,
            ),
            TuningMethod::ChannelFineTuning => JitMidiTuner::channel_fine_tuning(self.target, PoolingMode::Stop),
            TuningMethod::PitchBend => JitMidiTuner::pitch_bend(self.target, PoolingMode::Stop),
        };
        self.tuner = MidiTuner::Jit { jit_tuner };
        out
    }

    /// Finger `id` presses scale key `degree`, which sounds at `pitch`.
    pub fn start(&mut self, id: i32, degree: i32, pitch: i64, velocity: u8) -> (r: Vec<MidiTunerMessage>)
        requires
            old(self).wf(),
            valid_pitch(pitch as int),
        ensures
            final(self).wf(),
            final(self).target() == old(self).target(),
            final(self).method() == old(self).method(),
            final(self).program() == old(self).program(),
            all_packets(r@) == start_packets(old(self).state(), id, degree, pitch as int, velocity),
            start_state(old(self).state(), final(self).state(), id, degree, pitch as int),
    {
        match &mut self.tuner {
            MidiTuner::Untuned => Vec::new(),
            MidiTuner::Jit { jit_tuner } => jit_tuner.note_on(id, pitch, velocity),
            MidiTuner::Aot { aot_tuner, keypress_tracker } => {
                match keypress_tracker.place_finger_at(id, degree) {
                    Ok(PlaceAction::KeyPressed) => aot_tuner.note_on(degree, velocity),
                    Ok(PlaceAction::KeyAlreadyPressed) => {
                        let mut out = aot_tuner.note_off(degree, velocity);
                        let mut on = aot_tuner.note_on(degree, velocity);
                        proof {
                            lemma_all_packets_append(out@, on@);
                        }
                        out.append(&mut on);
                        out
                    },
                    Err(_) => Vec::new(),
                }
            },
        }
    }

    /// Finger `id` slides to scale key `degree`, which sounds at `pitch`.
    pub fn update_pitch(&mut self, id: i32, degree: i32, pitch: i64, velocity: u8) -> (r: Vec<MidiTunerMessage>)
        requires
            old(self).wf(),
            valid_pitch(pitch as int),
        ensures
            final(self).wf(),
            final(self).target() == old(self).target(),
            final(self).method() == old(self).method(),
            final(self).program() == old(self).program(),
            all_packets(r@) == move_packets(old(self).state(), id, degree, pitch as int, velocity),
            move_state(old(self).state(), final(self).state(), id, degree, pitch as int),
    {
        match &mut self.tuner {
            MidiTuner::Untuned => Vec::new(),
            MidiTuner::Jit { jit_tuner } => jit_tuner.update_pitch(id, pitch),
            MidiTuner::Aot { aot_tuner, keypress_tracker } => {
                match keypress_tracker.move_finger_to(id, degree) {
                    Ok((LiftAction::KeyReleased(released), _)) => {
                        let mut out = aot_tuner.note_off(released, velocity);
                        let mut on = aot_tuner.note_on(degree, velocity);
                        proof {
                            lemma_all_packets_append(out@, on@);
                        }
                        out.append(&mut on);
                        out
                    },
                    Ok((LiftAction::KeyRemainsPressed, PlaceAction::KeyPressed)) => aot_tuner.note_on(degree, velocity),
                    Ok((LiftAction::KeyRemainsPressed, PlaceAction::KeyAlreadyPressed)) => Vec::new(),
                    Err(_) => Vec::new(),
                }
            },
        }
    }

    /// Finger `id` changes its pressure.
    pub fn update_pressure(&mut self, id: i32, pressure: u8) -> (r: Vec<MidiTunerMessage>)
        requires
            old(self).wf(),
        ensures
            final(self).wf(),
            final(self).target() == old(self).target(),
            final(self).method() == old(self).method(),
            final(self).program() == old(self).program(),
            all_packets(r@) == pressure_packets(old(self).state(), id, pressure),
            final(self).state() == old(self).state(),
    {
        match &mut self.tuner {
            MidiTuner::Untuned => Vec::new(),
            MidiTuner::Jit { jit_tuner } => jit_tuner.key_pressure(id, pressure),
            MidiTuner::Aot { aot_tuner, keypress_tracker } => {
                match keypress_tracker.location_of(id) {
                    Some(location) => aot_tuner.key_pressure(location, pressure),
                    None => Vec::new(),
                }
            },
        }
    }

    /// Finger `id` is lifted.
    pub fn stop(&mut self, id: i32, velocity: u8) -> (r: Vec<MidiTunerMessage>)
        requires
            old(self).wf(),
        ensures
            final(self).wf(),
            final(self).target() == old(self).target(),
            final(self).method() == old(self).method(),
            final(self).program() == old(self).program(),
            all_packets(r@) == stop_packets(old(self).state(), id, velocity),
            stop_state(old(self).state(), final(self).state(), id),
    {
        match &mut self.tuner {
            MidiTuner::Untuned => Vec::new(),
            MidiTuner::Jit { jit_tuner } => jit_tuner.note_off(id, velocity),
            MidiTuner::Aot { aot_tuner, keypress_tracker } => {
                match keypress_tracker.lift_finger(id) {
                    Ok(LiftAction::KeyReleased(location)) => aot_tuner.note_off(location, velocity),
                    Ok(LiftAction::KeyRemainsPressed) => Vec::new(),
                    Err(_) => Vec::new(),
                }
            },
        }
    }

    fn send_monophonic_message(&mut self, message_type: ChannelMessageType) -> (r: Vec<MidiTunerMessage>)
        requires
            old(self).wf(),
        ensures
            *final(self) == *old(self),
            all_packets(r@) == broadcast_packets(old(self).state(), old(self).target(), message_type),
    {
        match &mut self.tuner {
            MidiTuner::Untuned => Vec::new(),
            MidiTuner::Jit { jit_tuner } => jit_tuner.send_monophonic_message(message_type),
            MidiTuner::Aot { aot_tuner, .. } => aot_tuner.send_monophonic_message(message_type),
        }
    }

    /// Selects program `requested % 128` on every output channel.
    pub fn program_change(&mut self, requested: usize) -> (r: Vec<MidiTunerMessage>)
        requires
            old(self).wf(),
        ensures
            final(self).wf(),
            final(self).state() == old(self).state(),
            final(self).target() == old(self).target(),
            final(self).method() == old(self).method(),
            final(self).program() == requested % 128,
            all_packets(r@) == broadcast_packets(
                old(self).state(),
                old(self).target(),
                ChannelMessageType::ProgramChange { program: (requested % 128) as u8 },
            ),
    {
        self.curr_program = (requested % 128) as u8;
        self.send_monophonic_message(ChannelMessageType::ProgramChange { program: self.curr_program })
    }

    pub fn control_change(&mut self, controller: u8, value: u8) -> (r: Vec<MidiTunerMessage>)
        requires
            old(self).wf(),
        ensures
            *final(self) == *old(self),
            all_packets(r@) == broadcast_packets(
                old(self).state(),
                old(self).target(),
                ChannelMessageType::ControlChange { controller, value },
            ),
    {
        self.send_monophonic_message(ChannelMessageType::ControlChange { controller, value })
    }

    pub fn channel_pressure(&mut self, pressure: u8) -> (r: Vec<MidiTunerMessage>)
        requires
            old(self).wf(),
        ensures
            *final(self) == *old(self),
            all_packets(r@) == broadcast_packets(
                old(self).state(),
                old(self).target(),
                ChannelMessageType::ChannelPressure { pressure },
            ),
    {
        self.send_monophonic_message(ChannelMessageType::ChannelPressure { pressure })
    }

    pub fn pitch_bend(&mut self, value: u32) -> (r: Vec<MidiTunerMessage>)
        requires
            old(self).wf(),
        ensures
            *final(self) == *old(self),
            all_packets(r@) == broadcast_packets(
                old(self).state(),
                old(self).target(),
                ChannelMessageType::PitchBendChange { value },
            ),
    {
        self.send_monophonic_message(ChannelMessageType::PitchBendChange { value })
    }
}

/// The raw messages of two message lists one after the other.
pub proof fn lemma_all_packets_append(a: Seq<MidiTunerMessage>, b: Seq<MidiTunerMessage>)
    ensures
        all_packets(a + b) == all_packets(a) + all_packets(b),
    decreases b.len(),
{
    if b.len() > 0 {
        lemma_all_packets_append(a, b.drop_last());
        assert((a + b).drop_last() == a + b.drop_last());
        assert((a + b).last() == b.last());
    } else {
        assert(a + b == a);
    }
}

} // verus!
