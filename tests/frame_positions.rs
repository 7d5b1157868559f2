use bass_notes::frames::frame_starts;

#[test]
fn frames_need_a_sample_after_them() {
    assert_eq!(frame_starts(10, 4, 2), vec![0, 2, 4]);
    assert_eq!(frame_starts(11, 4, 2), vec![0, 2, 4, 6]);
}

#[test]
fn one_window_buffer_has_no_frames() {
    assert_eq!(frame_starts(16384, 16384, 4096), Vec::<usize>::new());
    assert_eq!(frame_starts(16385, 16384, 4096), vec![0]);
}

#[test]
fn short_buffer_or_zero_hop_has_no_frames() {
    assert_eq!(frame_starts(100, 200, 50), Vec::<usize>::new());
    assert_eq!(frame_starts(0, 0, 1), Vec::<usize>::new());
    assert_eq!(frame_starts(100, 10, 0), Vec::<usize>::new());
}

#[test]
fn large_hop_stops_after_first_frame() {
    assert_eq!(frame_starts(100, 10, usize::MAX), vec![0]);
}

#[test]
fn frame_count_for_scenario_buffer() {
    let starts = frame_starts(441000, 16384, 4096);
    assert_eq!(starts.len(), (441000 - 16384 - 1) / 4096 + 1);
    assert_eq!(starts[1], 4096);
    assert!(*starts.last().unwrap() + 16384 < 441000);
}
