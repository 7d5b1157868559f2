use bass_notes::midi::midi_to_note_name;

#[test]
fn a4_is_midi_69() {
    assert_eq!(midi_to_note_name(69), "A4");
}

#[test]
fn c4_is_midi_60() {
    assert_eq!(midi_to_note_name(60), "C4");
}

#[test]
fn sharps_and_octave_edges() {
    assert_eq!(midi_to_note_name(0), "C-1");
    assert_eq!(midi_to_note_name(11), "B-1");
    assert_eq!(midi_to_note_name(12), "C0");
    assert_eq!(midi_to_note_name(21), "A0");
    assert_eq!(midi_to_note_name(33), "A1");
    assert_eq!(midi_to_note_name(45), "A2");
    assert_eq!(midi_to_note_name(61), "C#4");
    assert_eq!(midi_to_note_name(66), "F#4");
    assert_eq!(midi_to_note_name(127), "G9");
    assert_eq!(midi_to_note_name(131), "B9");
    assert_eq!(midi_to_note_name(132), "C10");
}

#[test]
fn negative_midi_numbers_wrap_into_range() {
    assert_eq!(midi_to_note_name(-1), "B-2");
    assert_eq!(midi_to_note_name(-12), "C-2");
    assert_eq!(midi_to_note_name(-13), "B-3");
    assert_eq!(midi_to_note_name(-121), "B-12");
}

#[test]
fn extreme_midi_numbers() {
    assert_eq!(midi_to_note_name(i32::MAX), "G178956969");
    assert_eq!(midi_to_note_name(i32::MIN), "E-178956972");
}
