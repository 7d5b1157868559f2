//! Debounce state machine that turns per-frame bass detections into a
//! sequence of confirmed note switches.
use std::collections::VecDeque;
use vstd::prelude::*;

use crate::midi::{midi_to_note_name, note_name};

verus! {

/// The bass detected in one frame: the MIDI number nearest the peak
/// frequency, and the spectral bin of that peak.
#[derive(Clone, Copy, Debug, PartialEq, Eq)]
pub struct FrameDetection {
    pub midi: i32,
    pub bin: usize,
}

/// A confirmed switch: the note name, and the spectral bin whose frequency
/// produced it.
#[derive(Debug)]
pub struct NoteEvent {
    pub name: String,
    pub bin: usize,
}

impl View for NoteEvent {
    type V = (Seq<char>, nat);

    open spec fn view(&self) -> (Seq<char>, nat) {
        (self.name@, self.bin as nat)
    }
}

/// Abstract state of the detector.
pub struct DetectorState {
    /// Length of the run that confirms a switch.
    pub capacity: nat,
    /// The note of the last confirmed switch, if any.
    pub previous: Option<Seq<char>>,
    /// The latest detections since the last switch, oldest first, at most
    /// `capacity` of them.
    pub recent: Seq<Seq<char>>,
    /// The confirmed switches, in order.
    pub events: Seq<(Seq<char>, nat)>,
}

/// State before any frame: nothing detected, nothing emitted.
pub open spec fn initial_state(capacity: nat) -> DetectorState {
    DetectorState { capacity, previous: None, recent: seq![], events: seq![] }
}

/// The rolling window after `name` is appended: the oldest entry drops out
/// once there are more than `capacity`.
pub open spec fn window_after(recent: Seq<Seq<char>>, name: Seq<char>, capacity: nat) -> Seq<Seq<char>> {
    let pushed = recent.push(name);
    if pushed.len() > capacity {
        pushed.drop_first()
    } else {
        pushed
    }
}

/// Whether `name`, with `window` the rolling window holding it, confirms a
/// switch: the window is full, its oldest entry is `name`, and `name` differs
/// from the last emitted note.
pub open spec fn confirms(
    previous: Option<Seq<char>>,
    window: Seq<Seq<char>>,
    name: Seq<char>,
    capacity: nat,
) -> bool {
    window.len() == capacity && previous != Some(name) && window[0] == name
}

/// One step of the state machine. A frame without a detection leaves the
/// state as it is. A detection enters the rolling window; when it confirms a
/// switch, an event is emitted, it becomes the previous note, and the window
/// is emptied.
pub open spec fn step(s: DetectorState, detection: Option<FrameDetection>) -> DetectorState {
    match detection {
        None => s,
        Some(d) => {
            let name = note_name(d.midi as int);
            let window = window_after(s.recent, name, s.capacity);
            if confirms(s.previous, window, name, s.capacity) {
                DetectorState {
                    capacity: s.capacity,
                    previous: Some(name),
                    recent: seq![],
                    events: s.events.push((name, d.bin as nat)),
                }
            } else {
                DetectorState { recent: window, ..s }
            }
        },
    }
}

/// The state after the detections of `frames`, in order, starting from `s`.
pub open spec fn run(s: DetectorState, frames: Seq<Option<FrameDetection>>) -> DetectorState
    decreases frames.len(),
{
    if frames.len() == 0 {
        s
    } else {
        step(run(s, frames.drop_last()), frames.last())
    }
}

/// Incremental note-switch detector over per-frame detections.
pub struct NoteSwitchDetector {
    debounce_frames: usize,
    previous: Option<String>,
    recent: VecDeque<String>,
    events: Vec<NoteEvent>,
}

/// The text of an optional string.
pub open spec fn option_text(o: Option<String>) -> Option<Seq<char>> {
    match o {
        Some(s) => Some(s@),
        None => None,
    }
}

impl View for NoteSwitchDetector {
    type V = DetectorState;

    closed spec fn view(&self) -> DetectorState {
        DetectorState {
            capacity: self.debounce_frames as nat,
            previous: option_text(self.previous),
            recent: self.recent@.map_values(|t: String| t@),
            events: self.events@.map_values(|e: NoteEvent| e@),
        }
    }
}

impl NoteSwitchDetector {
    /// Well-formedness: a positive run length, and a rolling window never
    /// longer than it.
    pub open spec fn wf(&self) -> bool {
        &&& self@.capacity >= 1
        &&& self@.recent.len() <= self@.capacity
    }

    /// A detector that confirms a switch after `debounce_frames` detections.
    pub fn new(debounce_frames: usize) -> (r: Self)
        requires
            debounce_frames >= 1,
        ensures
            r.wf(),
            r@ == initial_state(debounce_frames as nat),
    {
        let r = NoteSwitchDetector {
            debounce_frames,
            previous: None,
            recent: VecDeque::new(),
            events: Vec::new(),
        };
        proof {
            assert(r@.recent =~= seq![]);
            assert(r@.events =~= seq![]);
        }
        r
    }

    /// The confirmed switches so far, in order.
    pub fn events(&self) -> (r: &Vec<NoteEvent>)
        ensures
            r@.map_values(|e: NoteEvent| e@) == self@.events,
    {
        &self.events
    }

    /// The confirmed switches, taking the detector apart.
    pub fn into_events(self) -> (r: Vec<NoteEvent>)
        ensures
            r@.map_values(|e: NoteEvent| e@) == self@.events,
    {
        self.events
    }

    /// Takes in the outcome of one frame; returns whether it confirmed a switch.
    pub fn observe(&mut self, detection: Option<FrameDetection>) -> (switched: bool)
        requires
            old(self).wf(),
        ensures
            final(self).wf(),
            final(self)@ == step(old(self)@, detection),
            switched == (final(self)@.events.len() == old(self)@.events.len() + 1),
    {
        match detection {
            None => false,
            Some(d) => {
                let ghost s = self@;
                let name = midi_to_note_name(d.midi);
                self.recent.push_back(name.clone());
                if self.recent.len() > self.debounce_frames {
                    self.recent.pop_front();
                }
                let ghost window = window_after(s.recent, name@, s.capacity);
                proof {
                    assert(self@.recent =~= window);
                }
                if self.recent.len() == self.debounce_frames {
                    let differs = match &self.previous {
                        Some(p) => !(*p == name),
                        None => true,
                    };
                    if differs && self.recent[0] == name {
                        self.events.push(NoteEvent { name: name.clone(), bin: d.bin });
                        self.previous = Some(name);
                        self.recent.clear();
                        proof {
                            assert(self@.recent =~= seq![]);
                            assert(self@.events =~= s.events.push((name@, d.bin as nat)));
                        }
                        return true;
                    }
                }
                false
            },
        }
    }
}

/// Runs the detector over the detections of successive frames (`None` for
/// a frame without a bass peak) and returns the confirmed switches in order.
pub fn detect_note_switches(detections: &Vec<Option<FrameDetection>>, debounce_frames: usize) -> (r: Vec<NoteEvent>)
    requires
        debounce_frames >= 1,
    ensures
        r@.map_values(|e: NoteEvent| e@) == run(initial_state(debounce_frames as nat), detections@).events,
{
    let mut detector = NoteSwitchDetector::new(debounce_frames);
    let mut i: usize = 0;
    while i < detections.len()
        invariant
            i <= detections@.len(),
            detector.wf(),
            detector@ == run(initial_state(debounce_frames as nat), detections@.take(i as int)),
        decreases detections@.len() - i,
    {
        proof {
            assert(detections@.take(i as int + 1).drop_last() =~= detections@.take(i as int));
        }
        detector.observe(detections[i]);
        i = i + 1;
    }
    proof {
        assert(detections@.take(i as int) =~= detections@);
    }
    detector.into_events()
}

/// Running over one more frame is one more step.
proof fn lemma_run_take_next(s: DetectorState, frames: Seq<Option<FrameDetection>>, i: int)
    requires
        0 <= i < frames.len(),
    ensures
        run(s, frames.take(i + 1)) == step(run(s, frames.take(i)), frames[i]),
{
    assert(frames.take(i + 1).drop_last() =~= frames.take(i));
}

/// Consecutive confirmed switches name different notes; the last one is the
/// previous note.
proof fn lemma_switches_alternate_from(capacity: nat, frames: Seq<Option<FrameDetection>>)
    ensures
        ({
            let t = run(initial_state(capacity), frames);
            &&& t.events.len() == 0 ==> t.previous == None::<Seq<char>>
            &&& t.events.len() > 0 ==> t.previous == Some(t.events.last().0)
            &&& forall|i: int| 1 <= i < t.events.len() ==> (#[trigger] t.events[i]).0 != t.events[i - 1].0
        }),
    decreases frames.len(),
{
    if frames.len() > 0 {
        lemma_switches_alternate_from(capacity, frames.drop_last());
    }
}

/// The detector never emits the same note twice in a row: every confirmed
/// switch names a note other than the one confirmed just before it.
pub proof fn lemma_no_repeated_switch(capacity: nat, frames: Seq<Option<FrameDetection>>)
    ensures
        forall|i: int|
            1 <= i < run(initial_state(capacity), frames).events.len()
            ==> (#[trigger] run(initial_state(capacity), frames).events[i]).0
                != run(initial_state(capacity), frames).events[i - 1].0,
{
    lemma_switches_alternate_from(capacity, frames);
}

/// Whether every frame of `frames` detects the MIDI number `midi`.
pub open spec fn all_detect(frames: Seq<Option<FrameDetection>>, midi: i32) -> bool {
    forall|i: int| 0 <= i < frames.len() ==> ((#[trigger] frames[i]) matches Some(d) && d.midi == midi)
}

/// Before the run is complete, the window holds only the repeated note.
proof fn lemma_run_filling(s: DetectorState, frames: Seq<Option<FrameDetection>>, midi: i32, i: int)
    requires
        s.recent.len() == 0,
        all_detect(frames, midi),
        0 <= i < s.capacity,
        i <= frames.len(),
    ensures
        run(s, frames.take(i)) == (DetectorState {
            recent: Seq::new(i as nat, |k: int| note_name(midi as int)),
            ..s
        }),
    decreases i,
{
    if i == 0 {
        assert(frames.take(0) =~= seq![]);
        assert(s.recent =~= Seq::new(0, |k: int| note_name(midi as int)));
    } else {
        lemma_run_filling(s, frames, midi, i - 1);
        lemma_run_take_next(s, frames, i - 1);
        let name = note_name(midi as int);
        assert(window_after(Seq::new((i - 1) as nat, |k: int| name), name, s.capacity)
            =~= Seq::new(i as nat, |k: int| name));
    }
}

/// Once the switch is confirmed, further frames of the same note emit nothing.
proof fn lemma_run_after_switch(s: DetectorState, frames: Seq<Option<FrameDetection>>, midi: i32, j: int)
    requires
        s.capacity >= 1,
        s.recent.len() == 0,
        s.previous != Some(note_name(midi as int)),
        all_detect(frames, midi),
        s.capacity <= j <= frames.len(),
    ensures
        run(s, frames.take(j)).previous == Some(note_name(midi as int)),
        run(s, frames.take(j)).events
            == s.events.push((note_name(midi as int), frames[s.capacity - 1]->Some_0.bin as nat)),
    decreases j,
{
    let name = note_name(midi as int);
    let c = s.capacity as int;
    lemma_run_take_next(s, frames, j - 1);
    if j == c {
        lemma_run_filling(s, frames, midi, c - 1);
        let w = window_after(Seq::new((c - 1) as nat, |k: int| name), name, s.capacity);
        assert(w =~= Seq::new(c as nat, |k: int| name));
        assert(frames[c - 1] matches Some(d) && d.midi == midi);
    } else {
        lemma_run_after_switch(s, frames, midi, j - 1);
        assert(frames[j - 1] matches Some(d) && d.midi == midi);
    }
}

/// A note detected in `capacity` consecutive frames or more, starting from a
/// state just after a switch to another note (or from the start), is
/// confirmed exactly once: one event for it, carrying the bin of the frame
/// that completed the run.
pub proof fn lemma_stable_run_switches_once(s: DetectorState, frames: Seq<Option<FrameDetection>>, midi: i32)
    requires
        s.capacity >= 1,
        s.recent.len() == 0,
        s.previous != Some(note_name(midi as int)),
        all_detect(frames, midi),
        frames.len() >= s.capacity,
    ensures
        run(s, frames).events
            == s.events.push((note_name(midi as int), frames[s.capacity - 1]->Some_0.bin as nat)),
{
    lemma_run_after_switch(s, frames, midi, frames.len() as int);
    assert(frames.take(frames.len() as int) =~= frames);
}

/// A run one frame or more short of `capacity`, from the same kind of state,
/// emits nothing.
pub proof fn lemma_short_run_emits_nothing(s: DetectorState, frames: Seq<Option<FrameDetection>>, midi: i32)
    requires
        s.recent.len() == 0,
        all_detect(frames, midi),
        frames.len() < s.capacity,
    ensures
        run(s, frames).events == s.events,
{
    lemma_run_filling(s, frames, midi, frames.len() as int);
    assert(frames.take(frames.len() as int) =~= frames);
}

} // verus!
