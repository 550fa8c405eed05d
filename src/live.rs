//! The decisions of the live retuning service: which options are valid, which incoming
//! messages a tuner takes, and what each of them asks the tuner to do.
use vstd::prelude::*;

use crate::jit::PoolingMode;
use crate::midi::{ChannelMessage, ChannelMessageType};
use crate::tuner::TuningMethod;

verus! {

#[derive(Clone, Copy, Debug, PartialEq, Eq, Structural)]
pub enum ChannelError {
    TooManyChannels,
    InputChannelOutOfRange,
    OutputChannelOutOfRange,
}

impl ChannelError {
    /// The message shown to the user.
    pub fn message(&self) -> (r: &'static str)
        ensures
            *self == ChannelError::TooManyChannels ==> r@ == "Cannot use more than 16 channels"@,
            *self == ChannelError::InputChannelOutOfRange ==> r@ == "Input channel is not in the range [0..16)"@,
            *self == ChannelError::OutputChannelOutOfRange ==> r@ == "Output channel is not in the range [0..16)"@,
    {
        match self {
            ChannelError::TooManyChannels => "Cannot use more than 16 channels",
            ChannelError::InputChannelOutOfRange => "Input channel is not in the range [0..16)",
            ChannelError::OutputChannelOutOfRange => "Output channel is not in the range [0..16)",
        }
    }
}

/// Checks the channel options: at most 16 output channels, and input and first output
/// channel among the 16 MIDI channels. The first violation found is returned.
pub fn validate_channels(in_channel: u8, out_channel: u8, num_out_channels: u8) -> (r: Result<(), ChannelError>)
    ensures
        num_out_channels > 16 ==> r == Err::<(), ChannelError>(ChannelError::TooManyChannels),
        num_out_channels <= 16 && in_channel >= 16 ==> r == Err::<(), ChannelError>(
            ChannelError::InputChannelOutOfRange,
        ),
        num_out_channels <= 16 && in_channel < 16 && out_channel >= 16 ==> r == Err::<(), ChannelError>(
            ChannelError::OutputChannelOutOfRange,
        ),
        num_out_channels <= 16 && in_channel < 16 && out_channel < 16 ==> r is Ok,
{
    if num_out_channels > 16 {
        Err(ChannelError::TooManyChannels)
    } else if in_channel >= 16 {
        Err(ChannelError::InputChannelOutOfRange)
    } else if out_channel >= 16 {
        Err(ChannelError::OutputChannelOutOfRange)
    } else {
        Ok(())
    }
}

/// The MIDI channels that `num_out_channels` output channels from `out_channel` on use.
pub fn out_channels(out_channel: u8, num_out_channels: u8) -> (r: Vec<u8>)
    ensures
        r@.len() == num_out_channels,
        forall|i: int| 0 <= i < num_out_channels ==> #[trigger] r@[i] == (out_channel + i) % 16,
{
    let mut r: Vec<u8> = Vec::new();
    let mut c: u8 = 0;
    while c < num_out_channels
        invariant
            c <= num_out_channels,
            r@.len() == c,
            forall|i: int| 0 <= i < c ==> #[trigger] r@[i] == (out_channel + i) % 16,
        decreases num_out_channels - c,
    {
        r.push(((out_channel as u16 + c as u16) % 16) as u8);
        c = c + 1;
    }
    r
}

pub open spec fn is_pitch_bend(message_type: ChannelMessageType) -> bool {
    message_type matches ChannelMessageType::PitchBendChange { .. }
}

/// Whether incoming pitch-bend messages are passed on: not where the tuner retunes by pitch
/// bend itself.
pub fn accepts_pitch_bend(method: TuningMethod) -> (r: bool)
    ensures
        r == !(method is PitchBend),
{
    match method {
        TuningMethod::PitchBend => false,
        _ => true,
    }
}

/// Whether a tuner listening on `in_channel` takes `message`. Pitch-bend messages are left out
/// where the tuner retunes by pitch bend itself.
pub fn accepts_message(message: &ChannelMessage, in_channel: u8, accept_pitch_bend_messages: bool) -> (r: bool)
    ensures
        r == (message.channel == in_channel && (accept_pitch_bend_messages || !is_pitch_bend(
            message.message_type,
        ))),
{
    message.channel == in_channel && (accept_pitch_bend_messages || !matches!(
        message.message_type,
        ChannelMessageType::PitchBendChange { .. }
    ))
}

/// What an incoming message asks of a tuner.
#[derive(Clone, Copy, Debug, PartialEq, Eq, Structural)]
pub enum TunerAction {
    NoteOn { key: u8, velocity: u8 },
    NoteOff { key: u8, velocity: u8 },
    KeyPressure { key: u8, pressure: u8 },
    /// A channel-global message, to be sent on every output channel.
    Monophonic(ChannelMessageType),
}

pub open spec fn action_spec(message_type: ChannelMessageType) -> TunerAction {
    match message_type {
        ChannelMessageType::NoteOff { key, velocity } => TunerAction::NoteOff { key, velocity },
        ChannelMessageType::NoteOn { key, velocity } => TunerAction::NoteOn { key, velocity },
        ChannelMessageType::PolyphonicKeyPressure { key, pressure } => TunerAction::KeyPressure {
            key,
            pressure,
        },
        _ => TunerAction::Monophonic(message_type),
    }
}

pub fn action_of(message_type: ChannelMessageType) -> (r: TunerAction)
    ensures
        r == action_spec(message_type),
{
    match message_type {
        ChannelMessageType::NoteOff { key, velocity } => TunerAction::NoteOff { key, velocity },
        ChannelMessageType::NoteOn { key, velocity } => TunerAction::NoteOn { key, velocity },
        ChannelMessageType::PolyphonicKeyPressure { key, pressure } => TunerAction::KeyPressure {
            key,
            pressure,
        },
        _ => TunerAction::Monophonic(message_type),
    }
}

/// The lowercase form of a text, as Rust's `str::to_lowercase` gives it.
pub uninterp spec fn lowercase_of(s: Seq<char>) -> Seq<char>;

/// Relies on `str::to_lowercase`: its result depends on the characters of `s` alone.
#[verifier::external_body]
fn lowercase(s: &str) -> (r: String)
    ensures
        r@ == lowercase_of(s@),
{
    s.to_lowercase()
}

/// The pooling mode that a lowercase name selects.
pub open spec fn mitigation_spec(s: Seq<char>) -> Option<PoolingMode> {
    if s == "block"@ {
        Some(PoolingMode::Block)
    } else if s == "stop"@ {
        Some(PoolingMode::Stop)
    } else if s == "ignore"@ {
        Some(PoolingMode::Ignore)
    } else {
        None
    }
}

/// Reads a lowercase pooling-mode name.
pub fn mitigation_from_lowercase(s: &String) -> (r: Result<PoolingMode, &'static str>)
    ensures
        mitigation_spec(s@) matches Some(m) ==> r == Ok::<PoolingMode, &'static str>(m),
        mitigation_spec(s@) is None ==> r is Err,
{
    let block = "block".to_owned();
    let stop = "stop".to_owned();
    let ignore = "ignore".to_owned();
    if *s == block {
        Ok(PoolingMode::Block)
    } else if *s == stop {
        Ok(PoolingMode::Stop)
    } else if *s == ignore {
        Ok(PoolingMode::Ignore)
    } else {
        Err("Invalid mode. Should be `block`, `stop` or `ignore`")
    }
}

/// Reads a pooling-mode name, ignoring case.
pub fn parse_mitigation(src: &str) -> (r: Result<PoolingMode, &'static str>)
    ensures
        mitigation_spec(lowercase_of(src@)) matches Some(m) ==> r == Ok::<PoolingMode, &'static str>(m),
        mitigation_spec(lowercase_of(src@)) is None ==> r is Err,
{
    let lower = lowercase(src);
    mitigation_from_lowercase(&lower)
}

} // verus!
