//! Pitches on the grid of the MIDI Tuning Standard: one step is 1/16384 of a semitone and
//! pitch 0 is MIDI note 0 (about 8.176 Hz). A note is a MIDI note number; notes outside
//! 0..=127 exist but cannot be played.
use vstd::prelude::*;

verus! {

/// Steps per semitone.
pub const SEMITONE: i64 = 16384;

/// The largest pitch magnitude the library works with (2^40 steps, far beyond hearing).
pub const MAX_PITCH: i64 = 1099511627776;

pub open spec fn valid_pitch(p: int) -> bool {
    -MAX_PITCH <= p <= MAX_PITCH
}

/// A difference between two valid pitches, with room to spare.
pub open spec fn valid_detuning(d: int) -> bool {
    -4 * MAX_PITCH <= d <= 4 * MAX_PITCH
}

/// The note nearest to `p`; a pitch half-way between two notes goes to the upper one.
pub open spec fn note_of(p: int) -> int {
    (p + 8192) / 16384
}

/// How far `p` lies from its nearest note, in steps.
pub open spec fn detuning_of(p: int) -> int {
    p - note_of(p) * 16384
}

/// The pitch class of a note: 0 is C, 9 is A.
pub open spec fn letter_of(note: int) -> int {
    note % 12
}

pub open spec fn is_midi_note(note: int) -> bool {
    0 <= note <= 127
}

/// Splits a pitch into its nearest note and the detuning from that note.
pub fn nearest_note(pitch: i64) -> (r: (i64, i64))
    requires
        valid_pitch(pitch as int),
    ensures
        r.0 == note_of(pitch as int),
        r.1 == detuning_of(pitch as int),
        r.0 * 16384 + r.1 == pitch,
        -8192 <= r.1 < 8192,
        -67108865 <= r.0 <= 67108865,
{
    let shifted = (pitch + 8192 + MAX_PITCH) as u64;
    let q = (shifted / 16384) as i64;
    let note = q - 67108864;
    let detuning = pitch - note * 16384;
    assert(note == note_of(pitch as int)) by {
        assert(MAX_PITCH == 67108864 * 16384);
        vstd::arithmetic::div_mod::lemma_hoist_over_denominator(pitch + 8192, 67108864, 16384);
    }
    (note, detuning)
}

/// The MIDI number of `note`, if it is a playable note.
pub fn checked_midi_number(note: i64) -> (r: Option<u8>)
    ensures
        is_midi_note(note as int) ==> r == Some(note as u8),
        !is_midi_note(note as int) ==> r is None,
{
    if 0 <= note && note <= 127 {
        Some(note as u8)
    } else {
        None
    }
}

/// The pitch class of `note`.
pub fn letter(note: i64) -> (r: usize)
    requires
        -67108865 <= note <= 67108865,
    ensures
        r == letter_of(note as int),
        r < 12,
{
    let shifted = (note + 805306368) as u64;
    let r = (shifted % 12) as usize;
    assert(r == letter_of(note as int)) by {
        vstd::arithmetic::div_mod::lemma_mod_multiples_vanish(67108864, note as int, 12);
        assert(12 * 67108864 + note == note + 805306368);
        assert(805306368 == 12 * 67108864);
    }
    r
}

} // verus!
