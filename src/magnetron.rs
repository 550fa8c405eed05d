//! The declarative description of waveforms and how it is laid out for rendering: stages
//! run in the order the author wrote them, and the waveform's envelope, when it is found by
//! name, runs last. The parameters are automation expressions of type `A`, evaluated
//! elsewhere.
use vstd::prelude::*;

verus! {

/// A named value of the waveform file, such as a reusable automation expression.
#[derive(Clone, Debug)]
pub struct TemplateSpec<A> {
    pub name: String,
    pub value: A,
}

/// An envelope that waveforms refer to by name.
#[derive(Clone, Debug)]
pub struct NamedEnvelopeSpec<E> {
    pub name: String,
    pub spec: E,
}

/// A waveform: its name, the name of its envelope, and its stages in order.
#[derive(Clone, Debug)]
pub struct WaveformSpec<S> {
    pub name: String,
    pub envelope: String,
    pub stages: Vec<S>,
}

/// One step of rendering a waveform: one of its own stages, or an envelope of the registry.
#[derive(Clone, Copy, Debug, PartialEq, Eq, Structural)]
pub enum StageRef {
    Stage(usize),
    Envelope(usize),
}

/// The stages of a waveform in order, followed by its envelope where one is found.
pub open spec fn plan_spec(num_stages: nat, envelope: Option<usize>) -> Seq<StageRef> {
    let own = Seq::new(num_stages, |i: int| StageRef::Stage(i as usize));
    match envelope {
        Some(j) => own.push(StageRef::Envelope(j)),
        None => own,
    }
}

/// The index of the first envelope called `name`.
pub open spec fn envelope_index_spec<E>(envelopes: Seq<NamedEnvelopeSpec<E>>, name: Seq<char>) -> Option<usize> {
    if exists|j: int| 0 <= j < envelopes.len() && envelopes[j].name@ == name {
        Some(
            (choose|j: int|
                0 <= j < envelopes.len() && envelopes[j].name@ == name && forall|k: int|
                    0 <= k < j ==> envelopes[k].name@ != name) as usize,
        )
    } else {
        None
    }
}

impl<S> WaveformSpec<S> {
    pub fn name(&self) -> (r: &String)
        ensures
            r@ == self.name@,
    {
        &self.name
    }

    /// The name of the envelope this waveform uses.
    pub fn envelope_type(&self) -> (r: &String)
        ensures
            r@ == self.envelope@,
    {
        &self.envelope
    }

    /// Looks up this waveform's envelope in `envelopes`.
    pub fn find_envelope<E>(&self, envelopes: &Vec<NamedEnvelopeSpec<E>>) -> (r: Option<usize>)
        ensures
            r == envelope_index_spec(envelopes@, self.envelope@),
    {
        let mut j: usize = 0;
        while j < envelopes.len()
            invariant
                j <= envelopes.len(),
                forall|k: int| 0 <= k < j ==> (#[trigger] envelopes@[k]).name@ != self.envelope@,
            decreases envelopes.len() - j,
        {
            if envelopes[j].name == self.envelope {
                proof {
                    let c = choose|c: int|
                        0 <= c < envelopes@.len() && envelopes@[c].name@ == self.envelope@ && forall|k: int|
                            0 <= k < c ==> envelopes@[k].name@ != self.envelope@;
                    assert(0 <= j < envelopes@.len() && envelopes@[j as int].name@ == self.envelope@ && forall|k: int|
                        0 <= k < j ==> envelopes@[k].name@ != self.envelope@);
                    if c < j {
                        assert(envelopes@[c].name@ != self.envelope@);
                    } else if c > j {
                        assert(envelopes@[j as int].name@ != self.envelope@);
                    }
                }
                return Some(j);
            }
            j = j + 1;
        }
        None
    }

    /// The order in which the waveform renders: its own stages as written, then its envelope
    /// if `envelopes` holds one of that name. Without an envelope the waveform still sounds
    /// but never fades.
    pub fn stage_plan<E>(&self, envelopes: &Vec<NamedEnvelopeSpec<E>>) -> (r: Vec<StageRef>)
        ensures
            r@ == plan_spec(self.stages@.len(), envelope_index_spec(envelopes@, self.envelope@)),
    {
        let mut r: Vec<StageRef> = Vec::new();
        let mut i: usize = 0;
        while i < self.stages.len()
            invariant
                i <= self.stages.len(),
                r@ == Seq::new(i as nat, |k: int| StageRef::Stage(k as usize)),
            decreases self.stages.len() - i,
        {
            r.push(StageRef::Stage(i));
            i = i + 1;
        }
        match self.find_envelope(envelopes) {
            Some(j) => r.push(StageRef::Envelope(j)),
            None => {},
        }
        r
    }
}

/// A buffer a stage reads or writes: one of the voice's own, one of the audio inputs, or
/// a channel of the audio output.
#[derive(Clone, Copy, Debug, PartialEq, Eq, Structural)]
pub enum BufferIndex {
    Internal(usize),
    External(usize),
    AudioOut(usize),
}

/// Where a stage writes and how loud.
#[derive(Clone, Debug)]
pub struct OutSpec<A> {
    pub out_buffer: usize,
    pub out_level: A,
}

/// Copies one of the voice's buffers into another.
#[derive(Clone, Debug)]
pub struct CopySpec<A> {
    pub in_buffer: usize,
    pub out_spec: OutSpec<A>,
}

/// Loads one of the audio inputs into a buffer of the voice.
#[derive(Clone, Debug)]
pub struct LoadSpec<A> {
    pub in_buffer: usize,
    pub out_spec: OutSpec<A>,
}

impl<A> CopySpec<A> {
    /// The buffer read and the buffer written.
    pub fn buffers(&self) -> (r: (BufferIndex, BufferIndex))
        ensures
            r == (BufferIndex::Internal(self.in_buffer), BufferIndex::Internal(self.out_spec.out_buffer)),
    {
        (BufferIndex::Internal(self.in_buffer), BufferIndex::Internal(self.out_spec.out_buffer))
    }
}

impl<A> LoadSpec<A> {
    /// The buffer read and the buffer written.
    pub fn buffers(&self) -> (r: (BufferIndex, BufferIndex))
        ensures
            r == (BufferIndex::External(self.in_buffer), BufferIndex::Internal(self.out_spec.out_buffer)),
    {
        (BufferIndex::External(self.in_buffer), BufferIndex::Internal(self.out_spec.out_buffer))
    }
}

/// A property of the sounding note that automation can read.
#[derive(Clone, Copy, Debug, PartialEq, Eq, Structural)]
pub enum WaveformProperty {
    WaveformPitch,
    WaveformPeriod,
    Velocity,
    KeyPressureSet,
    KeyPressure,
    OffVelocitySet,
    OffVelocity,
}

/// A unit-like automation value: the pitch of the note or its wavelength.
#[derive(Clone, Copy, Debug, PartialEq, Eq, Structural)]
pub enum LfSourceUnit {
    WaveformPitch,
    Wavelength,
}

/// A normalized property that scales an automation range.
#[derive(Clone, Copy, Debug, PartialEq, Eq, Structural)]
pub enum Property {
    Velocity,
    KeyPressure,
}

/// Where a stage reads from.
#[derive(Clone, Copy, Debug, PartialEq, Eq, Structural)]
pub enum Source {
    AudioIn,
    Buffer0,
    Buffer1,
}

/// Where a stage writes and with which intensity.
#[derive(Clone, Debug)]
pub struct Destination<A> {
    pub buffer: OutBuffer,
    pub intensity: A,
}

/// Where a stage writes to.
#[derive(Clone, Copy, Debug, PartialEq, Eq, Structural)]
pub enum OutBuffer {
    Buffer0,
    Buffer1,
    AudioOut,
}

} // verus!
