use tune::pitch::{checked_midi_number, letter, nearest_note};

#[test]
fn nearest_note_of_exact_notes() {
    assert_eq!(nearest_note(69 * 16384), (69, 0));
    assert_eq!(nearest_note(0), (0, 0));
    assert_eq!(nearest_note(-16384), (-1, 0));
}

#[test]
fn nearest_note_rounds_to_nearest() {
    assert_eq!(nearest_note(69 * 16384 + 8191), (69, 8191));
    assert_eq!(nearest_note(69 * 16384 + 8192), (70, -8192));
    assert_eq!(nearest_note(69 * 16384 - 100), (69, -100));
    assert_eq!(nearest_note(-8193), (-1, 8191));
}

#[test]
fn midi_range_and_letters() {
    assert_eq!(checked_midi_number(127), Some(127));
    assert_eq!(checked_midi_number(128), None);
    assert_eq!(checked_midi_number(-1), None);
    assert_eq!(letter(69), 9);
    assert_eq!(letter(-1), 11);
    assert_eq!(letter(60), 0);
}
