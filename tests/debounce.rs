use bass_notes::detector::{detect_note_switches, FrameDetection, NoteSwitchDetector};

fn det(midi: i32, bin: usize) -> Option<FrameDetection> {
    Some(FrameDetection { midi, bin })
}

fn names(events: &[bass_notes::detector::NoteEvent]) -> Vec<String> {
    events.iter().map(|e| e.name.clone()).collect()
}

// G4 = MIDI 67, A4 = MIDI 69.
fn g4_then_a4(run_of_a4: usize, debounce: usize) -> Vec<Option<FrameDetection>> {
    let mut frames = Vec::new();
    for _ in 0..debounce {
        frames.push(det(67, 1));
    }
    for k in 0..run_of_a4 {
        frames.push(det(69, 10 + k));
    }
    frames
}

#[test]
fn stable_run_after_g4_switches_to_a4_once() {
    let events = detect_note_switches(&g4_then_a4(10, 10), 10);
    assert_eq!(names(&events), vec!["G4", "A4"]);
    assert_eq!(events[1].bin, 19);
    let longer = detect_note_switches(&g4_then_a4(35, 10), 10);
    assert_eq!(names(&longer), vec!["G4", "A4"]);
}

#[test]
fn run_one_frame_short_emits_nothing_new() {
    let events = detect_note_switches(&g4_then_a4(9, 10), 10);
    assert_eq!(names(&events), vec!["G4"]);
}

#[test]
fn silent_frames_do_not_reset_the_window() {
    let mut frames = Vec::new();
    for k in 0..6 {
        frames.push(det(33, k));
        frames.push(None);
    }
    let events = detect_note_switches(&frames, 6);
    assert_eq!(names(&events), vec!["A1"]);
    assert_eq!(events[0].bin, 5);
}

#[test]
fn oldest_entry_must_match_current() {
    // 9 of 10 agree but the oldest differs: no switch until it drops out.
    let mut frames = vec![det(40, 1)];
    for _ in 0..9 {
        frames.push(det(45, 2));
    }
    assert_eq!(names(&detect_note_switches(&frames, 10)), Vec::<String>::new());
    frames.push(det(45, 3));
    assert_eq!(names(&detect_note_switches(&frames, 10)), vec!["A2"]);
}

#[test]
fn same_note_is_not_emitted_twice_in_a_row() {
    let mut frames = Vec::new();
    for _ in 0..3 {
        frames.push(det(45, 2));
    }
    for _ in 0..2 {
        frames.push(det(47, 2));
    }
    for _ in 0..3 {
        frames.push(det(45, 2));
    }
    assert_eq!(names(&detect_note_switches(&frames, 3)), vec!["A2"]);
    for _ in 0..3 {
        frames.push(det(47, 4));
    }
    assert_eq!(names(&detect_note_switches(&frames, 3)), vec!["A2", "B2"]);
}

#[test]
fn debounce_of_one_switches_on_every_change() {
    let frames = vec![det(60, 1), det(60, 1), det(62, 2), None, det(60, 3)];
    assert_eq!(names(&detect_note_switches(&frames, 1)), vec!["C4", "D4", "C4"]);
}

#[test]
fn incremental_detector_reports_switches() {
    let mut d = NoteSwitchDetector::new(2);
    assert!(!d.observe(det(69, 7)));
    assert!(!d.observe(None));
    assert!(d.observe(det(69, 8)));
    assert!(!d.observe(det(69, 8)));
    assert_eq!(d.events().len(), 1);
    assert_eq!(d.events()[0].name, "A4");
    assert_eq!(d.events()[0].bin, 8);
}

#[test]
fn no_detections_no_events() {
    assert!(detect_note_switches(&Vec::new(), 10).is_empty());
}

#[test]
fn same_input_gives_same_output() {
    let frames = g4_then_a4(12, 4);
    let a = detect_note_switches(&frames, 4);
    let b = detect_note_switches(&frames, 4);
    assert_eq!(names(&a), names(&b));
    assert_eq!(a.iter().map(|e| e.bin).collect::<Vec<_>>(), b.iter().map(|e| e.bin).collect::<Vec<_>>());
}
