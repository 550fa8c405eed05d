//! MIDI channel messages: parsing raw bytes and encoding them again.
use vstd::prelude::*;

verus! {

pub const NOTE_OFF: u8 = 0b1000;

pub const NOTE_ON: u8 = 0b1001;

pub const POLYPHONIC_KEY_PRESSURE: u8 = 0b1010;

pub const CONTROL_CHANGE: u8 = 0b1011;

pub const PROGRAM_CHANGE: u8 = 0b1100;

pub const CHANNEL_PRESSURE: u8 = 0b1101;

pub const PITCH_BEND_CHANGE: u8 = 0b1110;

/// A message addressed to one of the 16 MIDI channels.
#[derive(Clone, Copy, Debug, PartialEq, Eq, Structural)]
pub struct ChannelMessage {
    pub channel: u8,
    pub message_type: ChannelMessageType,
}

/// The payload of a channel message. `PitchBendChange` holds the raw 14-bit value (8192 = center).
#[derive(Clone, Copy, Debug, PartialEq, Eq, Structural)]
pub enum ChannelMessageType {
    NoteOff { key: u8, velocity: u8 },
    NoteOn { key: u8, velocity: u8 },
    PolyphonicKeyPressure { key: u8, pressure: u8 },
    ControlChange { controller: u8, value: u8 },
    ProgramChange { program: u8 },
    ChannelPressure { pressure: u8 },
    PitchBendChange { value: u32 },
}

/// The message that a sequence of raw bytes denotes, if any: the high nibble of the status byte
/// selects the kind, its low nibble is the channel, and the data bytes follow. Bytes beyond the
/// ones a kind needs are ignored.
pub open spec fn parse_spec(m: Seq<u8>) -> Option<ChannelMessage> {
    if m.len() == 0 {
        None
    } else {
        let status = m[0];
        let channel = (status % 16) as u8;
        let action = status / 16;
        let two = m.len() >= 3;
        let one = m.len() >= 2;
        let message_type = if action == NOTE_OFF && two {
            Some(ChannelMessageType::NoteOff { key: m[1], velocity: m[2] })
        } else if action == NOTE_ON && two {
            Some(ChannelMessageType::NoteOn { key: m[1], velocity: m[2] })
        } else if action == POLYPHONIC_KEY_PRESSURE && two {
            Some(ChannelMessageType::PolyphonicKeyPressure { key: m[1], pressure: m[2] })
        } else if action == CONTROL_CHANGE && two {
            Some(ChannelMessageType::ControlChange { controller: m[1], value: m[2] })
        } else if action == PROGRAM_CHANGE && one {
            Some(ChannelMessageType::ProgramChange { program: m[1] })
        } else if action == CHANNEL_PRESSURE && one {
            Some(ChannelMessageType::ChannelPressure { pressure: m[1] })
        } else if action == PITCH_BEND_CHANGE && two {
            Some(ChannelMessageType::PitchBendChange { value: (m[1] + m[2] * 128) as u32 })
        } else {
            None
        };
        match message_type {
            Some(message_type) => Some(ChannelMessage { channel, message_type }),
            None => None,
        }
    }
}

impl ChannelMessage {
    pub fn from_raw_message(message: &[u8]) -> (r: Option<ChannelMessage>)
        ensures
            r == parse_spec(message@),
    {
        if message.len() == 0 {
            return None;
        }
        let status_byte = message[0];
        let channel = status_byte & 0b0000_1111;
        let action = status_byte >> 4;
        proof {
            assert(status_byte & 0b0000_1111 == status_byte % 16) by (bit_vector);
            assert(status_byte >> 4 == status_byte / 16) by (bit_vector);
        }
        let n = message.len();
        let message_type = if action == NOTE_OFF && n >= 3 {
            ChannelMessageType::NoteOff { key: message[1], velocity: message[2] }
        } else if action == NOTE_ON && n >= 3 {
            ChannelMessageType::NoteOn { key: message[1], velocity: message[2] }
        } else if action == POLYPHONIC_KEY_PRESSURE && n >= 3 {
            ChannelMessageType::PolyphonicKeyPressure { key: message[1], pressure: message[2] }
        } else if action == CONTROL_CHANGE && n >= 3 {
            ChannelMessageType::ControlChange { controller: message[1], value: message[2] }
        } else if action == PROGRAM_CHANGE && n >= 2 {
            ChannelMessageType::ProgramChange { program: message[1] }
        } else if action == CHANNEL_PRESSURE && n >= 2 {
            ChannelMessageType::ChannelPressure { pressure: message[1] }
        } else if action == PITCH_BEND_CHANGE && n >= 3 {
            ChannelMessageType::PitchBendChange {
                value: (message[1] as u32) + (message[2] as u32) * 128,
            }
        } else {
            return None;
        };
        Some(ChannelMessage { channel, message_type })
    }

    pub fn channel(&self) -> (r: u8)
        ensures
            r == self.channel,
    {
        self.channel
    }

    pub fn message_type(&self) -> (r: ChannelMessageType)
        ensures
            r == self.message_type,
    {
        self.message_type
    }

    /// The raw bytes of this message. The status byte carries the kind in its high nibble and
    /// the channel in its low nibble; a pitch-bend value is split into its low and high 7 bits.
    pub fn to_raw_message(&self) -> (r: Vec<u8>)
        requires
            self.channel < 16,
            self.message_type.pitch_bend_value_fits(),
        ensures
            r@ == raw_spec(*self),
    {
        let ch = self.channel;
        match self.message_type {
            ChannelMessageType::NoteOff { key, velocity } => {
                vec![NOTE_OFF * 16 + ch, key, velocity]
            },
            ChannelMessageType::NoteOn { key, velocity } => {
                vec![NOTE_ON * 16 + ch, key, velocity]
            },
            ChannelMessageType::PolyphonicKeyPressure { key, pressure } => {
                vec![POLYPHONIC_KEY_PRESSURE * 16 + ch, key, pressure]
            },
            ChannelMessageType::ControlChange { controller, value } => {
                vec![CONTROL_CHANGE * 16 + ch, controller, value]
            },
            ChannelMessageType::ProgramChange { program } => {
                vec![PROGRAM_CHANGE * 16 + ch, program]
            },
            ChannelMessageType::ChannelPressure { pressure } => {
                vec![CHANNEL_PRESSURE * 16 + ch, pressure]
            },
            ChannelMessageType::PitchBendChange { value } => {
                vec![PITCH_BEND_CHANGE * 16 + ch, (value % 128) as u8, (value / 128) as u8]
            },
        }
    }
}

impl ChannelMessageType {
    /// A pitch-bend value is carried in two 7-bit data bytes.
    pub open spec fn pitch_bend_value_fits(self) -> bool {
        match self {
            ChannelMessageType::PitchBendChange { value } => value < 16384,
            _ => true,
        }
    }

    pub fn pitch_bend_value_fits_exec(&self) -> (r: bool)
        ensures
            r == self.pitch_bend_value_fits(),
    {
        match self {
            ChannelMessageType::PitchBendChange { value } => *value < 16384,
            _ => true,
        }
    }

    /// Addresses this message to `channel`, which must be one of the 16 MIDI channels.
    pub fn in_channel(self, channel: u8) -> (r: Option<ChannelMessage>)
        ensures
            channel < 16 ==> r == Some(ChannelMessage { channel, message_type: self }),
            channel >= 16 ==> r is None,
    {
        if channel < 16 {
            Some(ChannelMessage { channel, message_type: self })
        } else {
            None
        }
    }
}

/// The status byte of a message of kind `prefix` on channel `channel`.
pub open spec fn status_spec(prefix: u8, channel: u8) -> u8 {
    (prefix * 16 + channel) as u8
}

/// The raw bytes of a channel message.
pub open spec fn raw_spec(m: ChannelMessage) -> Seq<u8> {
    let ch = m.channel;
    match m.message_type {
        ChannelMessageType::NoteOff { key, velocity } => seq![status_spec(NOTE_OFF, ch), key, velocity],
        ChannelMessageType::NoteOn { key, velocity } => seq![status_spec(NOTE_ON, ch), key, velocity],
        ChannelMessageType::PolyphonicKeyPressure { key, pressure } => {
            seq![status_spec(POLYPHONIC_KEY_PRESSURE, ch), key, pressure]
        },
        ChannelMessageType::ControlChange { controller, value } => {
            seq![status_spec(CONTROL_CHANGE, ch), controller, value]
        },
        ChannelMessageType::ProgramChange { program } => seq![status_spec(PROGRAM_CHANGE, ch), program],
        ChannelMessageType::ChannelPressure { pressure } => {
            seq![status_spec(CHANNEL_PRESSURE, ch), pressure]
        },
        ChannelMessageType::PitchBendChange { value } => {
            seq![status_spec(PITCH_BEND_CHANGE, ch), (value % 128) as u8, (value / 128) as u8]
        },
    }
}

/// Encoding a message and parsing the bytes again gives back the same message.
pub proof fn lemma_parse_raw_round_trip(m: ChannelMessage)
    requires
        m.channel < 16,
        m.message_type.pitch_bend_value_fits(),
    ensures
        parse_spec(raw_spec(m)) == Some(m),
{
    let b = raw_spec(m);
    assert(b.len() >= 2);
    match m.message_type {
        ChannelMessageType::PitchBendChange { value } => {
            assert((value % 128) as u8 + ((value / 128) as u8) * 128 == value);
        },
        _ => {},
    }
}

/// The status byte of a message of kind `prefix` (a 4-bit value) on channel `channel_nr`.
pub fn channel_message(prefix: u8, channel_nr: u8) -> (r: u8)
    requires
        prefix < 16,
        channel_nr < 16,
    ensures
        r == status_spec(prefix, channel_nr),
        r / 16 == prefix,
        r % 16 == channel_nr,
{
    let r = prefix << 4 | channel_nr;
    assert(prefix << 4 | channel_nr == prefix * 16 + channel_nr) by (bit_vector)
        requires
            prefix < 16,
            channel_nr < 16,
    ;
    r
}

/// A note-off message as raw bytes.
pub fn note_off(channel: u8, key: u8, velocity: u8) -> (r: [u8; 3])
    requires
        channel < 16,
    ensures
        r@ == seq![status_spec(NOTE_OFF, channel), key, velocity],
{
    [channel_message(NOTE_OFF, channel), key, velocity]
}

/// A note-on message as raw bytes.
pub fn note_on(channel: u8, key: u8, velocity: u8) -> (r: [u8; 3])
    requires
        channel < 16,
    ensures
        r@ == seq![status_spec(NOTE_ON, channel), key, velocity],
{
    [channel_message(NOTE_ON, channel), key, velocity]
}

/// Sets a registered parameter: selects the parameter number (controllers 0x65 and 0x64)
/// and enters its value (controller 0x06).
pub fn rpn_message(
    channel: u8,
    parameter_number_msb: u8,
    parameter_number_lsb: u8,
    value: u8,
) -> (r: [[u8; 3]; 3])
    requires
        channel < 16,
    ensures
        r@[0]@ == seq![status_spec(CONTROL_CHANGE, channel), 0x65u8, parameter_number_msb],
        r@[1]@ == seq![status_spec(CONTROL_CHANGE, channel), 0x64u8, parameter_number_lsb],
        r@[2]@ == seq![status_spec(CONTROL_CHANGE, channel), 0x06u8, value],
        r@.len() == 3,
{
    let control_change = channel_message(CONTROL_CHANGE, channel);
    [
        [control_change, 0x65, parameter_number_msb],
        [control_change, 0x64, parameter_number_lsb],
        [control_change, 0x06, value],
    ]
}

/// Why a MIDI device could not be used.
#[derive(Clone, Debug)]
pub enum MidiError {
    MidiDeviceNotFound(usize),
    Other(String),
}

} // verus!
