use std::borrow::Cow;

use midnote::bar::{bars, cues, Bar, Clock, Cue};
use midnote::device::{select_device, DeviceError};
use midnote::event::{Event, MidiEvent, MidiMessage, Moment};
use midnote::sheet::{extract_meta_events, merge_with};

fn on(channel: u8, key: u8, vel: u8) -> Event {
    Event::Midi(MidiEvent { channel, message: MidiMessage::NoteOn { key, vel } })
}

fn off(channel: u8, key: u8) -> Event {
    Event::Midi(MidiEvent { channel, message: MidiMessage::NoteOff { key, vel: 0 } })
}

fn bar_of(moments: Vec<Moment>) -> Bar {
    Bar { timer: Clock::new(96), moments }
}

fn lengths(bs: &[Bar]) -> Vec<usize> {
    bs.iter().map(|b| b.moments.len()).collect()
}

#[test]
fn bars_without_time_signature_hold_one_beat() {
    let mut sheet = Vec::new();
    for i in 0..5u8 {
        sheet.push(Moment::Events(vec![on(0, 60 + i, 90)]));
    }
    let bs = bars(sheet.clone(), 2);
    assert_eq!(lengths(&bs), vec![2, 2, 1]);
    assert_eq!(bs[0].moments, sheet[0..2].to_vec());
    assert_eq!(bs[1].moments, sheet[2..4].to_vec());
    assert_eq!(bs[2].moments, sheet[4..5].to_vec());
}

#[test]
fn bars_follow_the_time_signature() {
    let mut sheet = vec![Moment::Events(vec![Event::TimeSignature(3, 2, 24, 8)])];
    for _ in 0..6 {
        sheet.push(Moment::Empty);
    }
    assert_eq!(lengths(&bars(sheet.clone(), 1)), vec![3, 3, 1]);
    sheet[0] = Moment::Events(vec![Event::TimeSignature(4, 2, 24, 8)]);
    assert_eq!(lengths(&bars(sheet, 2)), vec![7]);
}

#[test]
fn bars_of_exact_multiple_and_empty_sheet() {
    let sheet = vec![Moment::Empty; 16];
    assert_eq!(lengths(&bars(sheet, 2)), vec![2; 8]);
    assert_eq!(bars(Vec::new(), 480).len(), 0);
}

#[test]
fn bars_with_zero_resolution_hold_one_tick() {
    let sheet = vec![Moment::Empty, Moment::Events(vec![Event::Tempo(5)]), Moment::Empty];
    let bs = bars(sheet, 0);
    assert_eq!(bs.len(), 3);
    assert_eq!(bs[2].timer.micros_per_beat, 5);
}

#[test]
fn bars_carry_tempo_from_earlier_bars() {
    // Four four at one tick per beat: four ticks per bar.
    let sheet = vec![
        Moment::Events(vec![Event::TimeSignature(4, 2, 24, 8), Event::Tempo(500_000)]),
        Moment::Empty,
        Moment::Events(vec![Event::Tempo(400_000), on(0, 60, 80), Event::Tempo(300_000)]),
        Moment::Empty,
        Moment::Events(vec![on(0, 62, 80)]),
        Moment::Empty,
        Moment::Empty,
        Moment::Events(vec![Event::Tempo(250_000)]),
        Moment::Empty,
    ];
    let bs = bars(sheet, 1);
    assert_eq!(lengths(&bs), vec![4, 4, 1]);
    assert_eq!(bs[0].timer, Clock { ticks_per_beat: 1, micros_per_beat: 0 });
    assert_eq!(bs[1].timer, Clock { ticks_per_beat: 1, micros_per_beat: 300_000 });
    assert_eq!(bs[2].timer, Clock { ticks_per_beat: 1, micros_per_beat: 250_000 });
}

#[test]
fn clock_takes_tempo_changes() {
    let mut c = Clock::new(480);
    c.change_tempo(600_000);
    assert_eq!(c, Clock { ticks_per_beat: 480, micros_per_beat: 600_000 });
}

#[test]
fn trim_removes_silent_edges() {
    let b = bar_of(vec![
        Moment::Empty,
        Moment::Events(vec![]),
        Moment::Events(vec![on(0, 60, 80)]),
        Moment::Empty,
        Moment::Events(vec![off(0, 60)]),
        Moment::Empty,
        Moment::Events(vec![]),
    ]);
    let t = b.trim_moments();
    assert_eq!(t.len(), 3);
    assert_eq!(t[0], Moment::Events(vec![on(0, 60, 80)]));
    assert_eq!(t[2], Moment::Events(vec![off(0, 60)]));
}

#[test]
fn trim_of_trimmed_is_identical() {
    let b = bar_of(vec![Moment::Empty, Moment::Events(vec![on(0, 60, 80)]), Moment::Empty, Moment::Events(vec![off(0, 60)]), Moment::Empty]);
    let once = b.trim_moments().to_vec();
    let again = bar_of(once.clone());
    assert_eq!(again.trim_moments(), &once[..]);
    assert_eq!(again.trim_moments().len(), 3);
}

#[test]
fn trim_of_silent_bar_is_empty() {
    let b = bar_of(vec![Moment::Empty, Moment::Events(vec![]), Moment::Empty]);
    assert_eq!(b.trim_moments().len(), 0);
    assert_eq!(bar_of(Vec::new()).trim_moments().len(), 0);
}

#[test]
fn untransposed_moments_are_borrowed() {
    let b = bar_of(vec![Moment::Empty, Moment::Events(vec![on(0, 60, 80)]), Moment::Empty]);
    match b.transposed_moments(0) {
        Cow::Borrowed(s) => assert_eq!(s, &b.moments[1..2]),
        Cow::Owned(_) => panic!("a zero shift should not copy"),
    }
}

#[test]
fn transposed_moments_are_a_copy() {
    let b = bar_of(vec![
        Moment::Empty,
        Moment::Events(vec![on(0, 60, 80), on(9, 36, 80), on(1, 126, 70), Event::Tempo(7)]),
        Moment::Events(vec![off(0, 60)]),
    ]);
    let before = b.moments.clone();
    let t = b.transposed_moments(2);
    assert!(matches!(t, Cow::Owned(_)));
    assert_eq!(
        t.to_vec(),
        vec![
            Moment::Events(vec![on(0, 62, 80), on(9, 36, 80), Event::Tempo(7)]),
            Moment::Events(vec![off(0, 62)]),
        ]
    );
    assert_eq!(b.moments, before);
}

#[test]
fn event_transposition_edges() {
    assert_eq!(on(0, 127, 1).transposed(1), None);
    assert_eq!(on(0, 0, 1).transposed(-1), None);
    assert_eq!(on(0, 0, 1).transposed(127), Some(on(0, 127, 1)));
    assert_eq!(on(9, 0, 1).transposed(-1), Some(on(9, 0, 1)));
    let cc = Event::Midi(MidiEvent { channel: 0, message: MidiMessage::Controller { controller: 7, value: 100 } });
    assert_eq!(cc.transposed(-60), Some(cc));
    let at = Event::Midi(MidiEvent { channel: 2, message: MidiMessage::Aftertouch { key: 10, vel: 3 } });
    assert_eq!(
        at.transposed(-3),
        Some(Event::Midi(MidiEvent { channel: 2, message: MidiMessage::Aftertouch { key: 7, vel: 3 } }))
    );
    assert_eq!(Moment::Empty.transposed(5), Moment::Empty);
}

#[test]
fn moment_emptiness() {
    assert!(Moment::Empty.is_empty());
    assert!(Moment::Events(vec![]).is_empty());
    assert!(!Moment::Events(vec![Event::KeySignature(-2, true)]).is_empty());
}

#[test]
fn cues_count_ticks_between_sounds() {
    let m = vec![
        Moment::Events(vec![on(0, 60, 80)]),
        Moment::Empty,
        Moment::Empty,
        Moment::Events(vec![off(0, 60)]),
        Moment::Events(vec![]),
        Moment::Events(vec![on(0, 62, 80)]),
    ];
    assert_eq!(
        cues(&m),
        vec![
            Cue { wait_ticks: 0, moment: 0 },
            Cue { wait_ticks: 3, moment: 3 },
            Cue { wait_ticks: 2, moment: 5 },
        ]
    );
}

#[test]
fn cues_wait_from_start_and_skip_silence() {
    let m = vec![Moment::Empty, Moment::Empty, Moment::Events(vec![Event::Tempo(1)])];
    assert_eq!(cues(&m), vec![Cue { wait_ticks: 2, moment: 2 }]);
    assert_eq!(cues(&[Moment::Empty, Moment::Empty]), Vec::<Cue>::new());
}

#[test]
fn midi_bytes() {
    let e = MidiEvent { channel: 3, message: MidiMessage::NoteOn { key: 60, vel: 100 } };
    assert_eq!(e.bytes(), vec![0x93, 60, 100]);
    let e = MidiEvent { channel: 0, message: MidiMessage::NoteOff { key: 61, vel: 0 } };
    assert_eq!(e.bytes(), vec![0x80, 61, 0]);
    let e = MidiEvent { channel: 15, message: MidiMessage::ProgramChange { program: 5 } };
    assert_eq!(e.bytes(), vec![0xCF, 5]);
    let e = MidiEvent { channel: 1, message: MidiMessage::PitchBend { bend: 0x2001 } };
    assert_eq!(e.bytes(), vec![0xE1, 0x01, 0x40]);
    let e = MidiEvent { channel: 0, message: MidiMessage::Controller { controller: 123, value: 0 } };
    assert_eq!(e.bytes(), vec![0xB0, 123, 0]);
    let e = MidiEvent { channel: 2, message: MidiMessage::ChannelAftertouch { vel: 9 } };
    assert_eq!(e.bytes(), vec![0xD2, 9]);
    let e = MidiEvent { channel: 18, message: MidiMessage::Aftertouch { key: 200, vel: 128 } };
    assert_eq!(e.bytes(), vec![0xA2, 72, 0]);
}

#[test]
fn meta_events_keep_only_markers() {
    let sheet = vec![
        Moment::Events(vec![Event::Tempo(500_000), on(0, 60, 80), Event::KeySignature(1, false)]),
        Moment::Events(vec![on(1, 62, 80)]),
        Moment::Empty,
    ];
    assert_eq!(
        extract_meta_events(&sheet),
        vec![Moment::Events(vec![Event::Tempo(500_000), Event::KeySignature(1, false)]), Moment::Empty, Moment::Empty]
    );
}

#[test]
fn merging_puts_events_side_by_side() {
    let a = vec![Moment::Events(vec![on(0, 60, 80)]), Moment::Empty];
    let b = vec![
        Moment::Events(vec![Event::Tempo(1)]),
        Moment::Events(vec![Event::Tempo(2)]),
        Moment::Empty,
        Moment::Events(vec![Event::KeySignature(1, false)]),
    ];
    assert_eq!(
        merge_with(&a, &b),
        vec![
            Moment::Events(vec![on(0, 60, 80), Event::Tempo(1)]),
            Moment::Events(vec![Event::Tempo(2)]),
            Moment::Empty,
            Moment::Events(vec![Event::KeySignature(1, false)]),
        ]
    );
    assert_eq!(merge_with(&b, &a).len(), 4);
}

#[test]
fn device_selection() {
    assert_eq!(select_device(0, 0), Err(DeviceError::NoDevice));
    assert_eq!(select_device(3, 0), Err(DeviceError::NoDevice));
    assert_eq!(select_device(2, 2), Err(DeviceError::NotFound { requested: 2, available: 2 }));
    assert_eq!(select_device(1, 2), Ok(1));
    assert_eq!(select_device(0, 1), Ok(0));
}
