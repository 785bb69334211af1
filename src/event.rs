//! The timeline data: MIDI channel messages, events and per-tick moments.
use vstd::prelude::*;
use midly::num::{u4, u7, u14};
use midly::{MidiMessage as DecodedMessage, PitchBend as DecodedBend};
use nodi::{Event as NodiEvent, MidiEvent as NodiMidiEvent, Moment as NodiMoment};

verus! {

/// The channel reserved for percussion; its keys name instruments, not pitches.
pub const PERCUSSION_CHANNEL: u8 = 9;

/// A MIDI channel message, with its data bytes as plain integers.
#[derive(Clone, Copy, Debug, PartialEq, Eq)]
pub enum MidiMessage {
    NoteOff { key: u8, vel: u8 },
    NoteOn { key: u8, vel: u8 },
    Aftertouch { key: u8, vel: u8 },
    Controller { controller: u8, value: u8 },
    ProgramChange { program: u8 },
    ChannelAftertouch { vel: u8 },
    PitchBend { bend: u16 },
}

/// A channel message together with the channel it is sent on.
#[derive(Clone, Copy, Debug, PartialEq, Eq)]
pub struct MidiEvent {
    pub channel: u8,
    pub message: MidiMessage,
}

/// One event of a timeline.
#[derive(Clone, Copy, Debug, PartialEq, Eq)]
pub enum Event {
    /// A tempo change, in microseconds per beat.
    Tempo(u32),
    /// A message for the synthesizer.
    Midi(MidiEvent),
    /// A time signature: numerator, denominator as a power of two, MIDI
    /// clocks per click, 32nd notes per quarter. It makes no sound.
    TimeSignature(u8, u8, u8, u8),
    /// A key signature: sharps (positive) or flats (negative), and whether
    /// the key is minor. It makes no sound.
    KeySignature(i8, bool),
}

/// One tick of a timeline.
#[derive(Debug, PartialEq, Eq)]
pub enum Moment {
    Empty,
    Events(Vec<Event>),
}

impl View for Moment {
    /// `None` for `Empty`, else the events in order.
    type V = Option<Seq<Event>>;

    open spec fn view(&self) -> Option<Seq<Event>> {
        match self {
            Moment::Empty => None,
            Moment::Events(v) => Some(v@),
        }
    }
}

/// A moment without events: nothing happens on that tick.
pub open spec fn silent(m: Option<Seq<Event>>) -> bool {
    match m {
        None => true,
        Some(s) => s.len() == 0,
    }
}

impl MidiMessage {
    /// The upper four bits of the status byte.
    pub open spec fn status_nibble(self) -> u8 {
        match self {
            MidiMessage::NoteOff { .. } => 0x8,
            MidiMessage::NoteOn { .. } => 0x9,
            MidiMessage::Aftertouch { .. } => 0xA,
            MidiMessage::Controller { .. } => 0xB,
            MidiMessage::ProgramChange { .. } => 0xC,
            MidiMessage::ChannelAftertouch { .. } => 0xD,
            MidiMessage::PitchBend { .. } => 0xE,
        }
    }

    /// The data bytes that follow the status byte on the wire, each cut to
    /// seven bits; a pitch bend is cut to fourteen bits and sent low seven
    /// bits first.
    pub open spec fn data_bytes(self) -> Seq<u8> {
        match self {
            MidiMessage::NoteOff { key, vel } => seq![key % 128, vel % 128],
            MidiMessage::NoteOn { key, vel } => seq![key % 128, vel % 128],
            MidiMessage::Aftertouch { key, vel } => seq![key % 128, vel % 128],
            MidiMessage::Controller { controller, value } => seq![controller % 128, value % 128],
            MidiMessage::ProgramChange { program } => seq![program % 128],
            MidiMessage::ChannelAftertouch { vel } => seq![vel % 128],
            MidiMessage::PitchBend { bend } => seq![(bend % 128) as u8, ((bend % 0x4000) / 128) as u8],
        }
    }
}

impl MidiEvent {
    /// The bytes of this message as a synthesizer reads them: the status byte
    /// (message kind and channel, cut to four bits), then the data bytes.
    pub open spec fn wire(self) -> Seq<u8> {
        seq![(self.message.status_nibble() * 16 + self.channel % 16) as u8] + self.message.data_bytes()
    }

    /// Serializes this message for a synthesizer.
    pub fn bytes(&self) -> (r: Vec<u8>)
        ensures
            r@ == self.wire(),
    {
        let status: u8 = match self.message {
            MidiMessage::NoteOff { .. } => 0x80,
            MidiMessage::NoteOn { .. } => 0x90,
            MidiMessage::Aftertouch { .. } => 0xA0,
            MidiMessage::Controller { .. } => 0xB0,
            MidiMessage::ProgramChange { .. } => 0xC0,
            MidiMessage::ChannelAftertouch { .. } => 0xD0,
            MidiMessage::PitchBend { .. } => 0xE0,
        };
        let mut r: Vec<u8> = Vec::new();
        r.push(status + self.channel % 16);
        match self.message {
            MidiMessage::NoteOff { key, vel } | MidiMessage::NoteOn { key, vel } | MidiMessage::Aftertouch { key, vel } => {
                r.push(key % 128);
                r.push(vel % 128);
            },
            MidiMessage::Controller { controller, value } => {
                r.push(controller % 128);
                r.push(value % 128);
            },
            MidiMessage::ProgramChange { program } => {
                r.push(program % 128);
            },
            MidiMessage::ChannelAftertouch { vel } => {
                r.push(vel % 128);
            },
            MidiMessage::PitchBend { bend } => {
                r.push((bend % 128) as u8);
                r.push(((bend % 0x4000) / 128) as u8);
            },
        }
        assert(r@ =~= self.wire());
        r
    }
}

/// A key moved by `shift` semitones, if it stays in the MIDI range 0..=127.
pub open spec fn shift_key(key: u8, shift: i8) -> Option<u8> {
    let k = key + shift;
    if 0 <= k < 128 {
        Some(k as u8)
    } else {
        None
    }
}

/// The event moved by `shift` semitones: keys of note-on, note-off and
/// aftertouch messages move, percussion and every other event stay as they
/// are, and a message whose key leaves the MIDI range is dropped (`None`).
pub open spec fn transposed_event(e: Event, shift: i8) -> Option<Event> {
    match e {
        Event::Midi(m) => if shift == 0 || m.channel == PERCUSSION_CHANNEL {
            Some(e)
        } else {
            match m.message {
                MidiMessage::NoteOn { key, vel } => match shift_key(key, shift) {
                    Some(k) => Some(Event::Midi(MidiEvent { channel: m.channel, message: MidiMessage::NoteOn { key: k, vel } })),
                    None => None,
                },
                MidiMessage::NoteOff { key, vel } => match shift_key(key, shift) {
                    Some(k) => Some(Event::Midi(MidiEvent { channel: m.channel, message: MidiMessage::NoteOff { key: k, vel } })),
                    None => None,
                },
                MidiMessage::Aftertouch { key, vel } => match shift_key(key, shift) {
                    Some(k) => Some(Event::Midi(MidiEvent { channel: m.channel, message: MidiMessage::Aftertouch { key: k, vel } })),
                    None => None,
                },
                _ => Some(e),
            }
        },
        _ => Some(e),
    }
}

/// Every event moved by `shift`, in order, without those that fell out of range.
pub open spec fn transposed_events(s: Seq<Event>, shift: i8) -> Seq<Event>
    decreases s.len(),
{
    if s.len() == 0 {
        seq![]
    } else {
        let prev = transposed_events(s.drop_last(), shift);
        match transposed_event(s.last(), shift) {
            Some(e) => prev.push(e),
            None => prev,
        }
    }
}

/// A moment moved by `shift`; an empty moment stays empty.
pub open spec fn transposed_moment(m: Option<Seq<Event>>, shift: i8) -> Option<Seq<Event>> {
    match m {
        None => None,
        Some(s) => Some(transposed_events(s, shift)),
    }
}

/// Moving by zero semitones changes nothing.
pub proof fn lemma_transpose_zero(s: Seq<Event>)
    ensures
        transposed_events(s, 0) == s,
    decreases s.len(),
{
    if s.len() > 0 {
        lemma_transpose_zero(s.drop_last());
        assert(s.drop_last().push(s.last()) =~= s);
    }
}

fn shifted_key(key: u8, shift: i8) -> (r: Option<u8>)
    ensures
        r == shift_key(key, shift),
{
    let k: i16 = key as i16 + shift as i16;
    if 0 <= k && k < 128 {
        Some(k as u8)
    } else {
        None
    }
}

impl Event {
    /// This event moved by `shift` semitones (see `transposed_event`).
    pub fn transposed(&self, shift: i8) -> (r: Option<Event>)
        ensures
            r == transposed_event(*self, shift),
    {
        match *self {
            Event::Midi(m) => {
                if shift == 0 || m.channel == PERCUSSION_CHANNEL {
                    return Some(*self);
                }
                let channel = m.channel;
                match m.message {
                    MidiMessage::NoteOn { key, vel } => match shifted_key(key, shift) {
                        Some(k) => Some(Event::Midi(MidiEvent { channel, message: MidiMessage::NoteOn { key: k, vel } })),
                        None => None,
                    },
                    MidiMessage::NoteOff { key, vel } => match shifted_key(key, shift) {
                        Some(k) => Some(Event::Midi(MidiEvent { channel, message: MidiMessage::NoteOff { key: k, vel } })),
                        None => None,
                    },
                    MidiMessage::Aftertouch { key, vel } => match shifted_key(key, shift) {
                        Some(k) => Some(Event::Midi(MidiEvent { channel, message: MidiMessage::Aftertouch { key: k, vel } })),
                        None => None,
                    },
                    _ => Some(*self),
                }
            },
            _ => Some(*self),
        }
    }
}

impl Clone for Moment {
    fn clone(&self) -> (r: Moment)
        ensures
            r@ == self@,
    {
        match self {
            Moment::Empty => Moment::Empty,
            Moment::Events(events) => {
                let mut out: Vec<Event> = Vec::new();
                let mut i: usize = 0;
                while i < events.len()
                    invariant
                        i <= events@.len(),
                        out@ == events@.subrange(0, i as int),
                    decreases events@.len() - i,
                {
                    out.push(events[i]);
                    i += 1;
                    assert(out@ =~= events@.subrange(0, i as int));
                }
                assert(events@.subrange(0, i as int) =~= events@);
                Moment::Events(out)
            },
        }
    }
}

impl Moment {
    /// The events of this moment, none for an empty one.
    pub open spec fn events_of(m: Option<Seq<Event>>) -> Seq<Event> {
        match m {
            None => seq![],
            Some(s) => s,
        }
    }

    /// Whether nothing happens on this tick.
    pub fn is_empty(&self) -> (r: bool)
        ensures
            r == silent(self@),
    {
        match self {
            Moment::Empty => true,
            Moment::Events(v) => v.len() == 0,
        }
    }

    /// A copy of this moment moved by `shift` semitones; `self` is untouched.
    pub fn transposed(&self, shift: i8) -> (r: Moment)
        ensures
            r@ == transposed_moment(self@, shift),
    {
        match self {
            Moment::Empty => Moment::Empty,
            Moment::Events(events) => {
                let mut out: Vec<Event> = Vec::new();
                let mut i: usize = 0;
                while i < events.len()
                    invariant
                        i <= events@.len(),
                        out@ == transposed_events(events@.subrange(0, i as int), shift),
                    decreases events@.len() - i,
                {
                    proof {
                        assert(events@.subrange(0, i + 1).drop_last() =~= events@.subrange(0, i as int));
                    }
                    match events[i].transposed(shift) {
                        Some(e) => out.push(e),
                        None => {},
                    }
                    i += 1;
                }
                assert(events@.subrange(0, i as int) =~= events@);
                Moment::Events(out)
            },
        }
    }
}

#[verifier::external_type_specification]
#[verifier::external_body]
pub struct ExU4(u4);

#[verifier::external_type_specification]
#[verifier::external_body]
pub struct ExU7(u7);

#[verifier::external_type_specification]
#[verifier::external_body]
pub struct ExU14(u14);

/// Relies on midly's `u4::new`, to build the channel of a message in nodi's form.
pub assume_specification[ u4::new ](raw: u8) -> u4;

/// Relies on midly's `u7::new`, to build the data bytes of a message in nodi's form.
pub assume_specification[ u7::new ](raw: u8) -> u7;

/// Relies on midly's `u14::new`, to build a pitch bend in nodi's form.
pub assume_specification[ u14::new ](raw: u16) -> u14;

#[verifier::external_type_specification]
pub struct ExPitchBend(DecodedBend);

#[verifier::external_type_specification]
pub struct ExDecodedMessage(DecodedMessage);

#[verifier::external_type_specification]
pub struct ExNodiMidiEvent(NodiMidiEvent);

#[verifier::external_type_specification]
pub struct ExNodiEvent(NodiEvent);

#[verifier::external_type_specification]
pub struct ExNodiMoment(NodiMoment);

/// An event in nodi's form agrees with one of ours: the same tempo or
/// signature, or a MIDI message on both sides.
pub open spec fn agrees(a: Event, b: NodiEvent) -> bool {
    match a {
        Event::Tempo(t) => b == NodiEvent::Tempo(t),
        Event::TimeSignature(n, d, c, q) => b == NodiEvent::TimeSignature(n, d, c, q),
        Event::KeySignature(k, m) => b == NodiEvent::KeySignature(k, m),
        Event::Midi(_) => b is Midi,
    }
}

fn decoded_message(m: MidiMessage) -> DecodedMessage {
    match m {
        MidiMessage::NoteOff { key, vel } => DecodedMessage::NoteOff { key: u7::new(key), vel: u7::new(vel) },
        MidiMessage::NoteOn { key, vel } => DecodedMessage::NoteOn { key: u7::new(key), vel: u7::new(vel) },
        MidiMessage::Aftertouch { key, vel } => DecodedMessage::Aftertouch { key: u7::new(key), vel: u7::new(vel) },
        MidiMessage::Controller { controller, value } => DecodedMessage::Controller {
            controller: u7::new(controller),
            value: u7::new(value),
        },
        MidiMessage::ProgramChange { program } => DecodedMessage::ProgramChange { program: u7::new(program) },
        MidiMessage::ChannelAftertouch { vel } => DecodedMessage::ChannelAftertouch { vel: u7::new(vel) },
        MidiMessage::PitchBend { bend } => DecodedMessage::PitchBend { bend: DecodedBend(u14::new(bend)) },
    }
}

impl Event {
    /// This event in nodi's form.
    pub fn to_nodi(&self) -> (r: NodiEvent)
        ensures
            agrees(*self, r),
    {
        match *self {
            Event::Tempo(t) => NodiEvent::Tempo(t),
            Event::TimeSignature(n, d, c, q) => NodiEvent::TimeSignature(n, d, c, q),
            Event::KeySignature(k, m) => NodiEvent::KeySignature(k, m),
            Event::Midi(m) => NodiEvent::Midi(
                NodiMidiEvent { channel: u4::new(m.channel), message: decoded_message(m.message) },
            ),
        }
    }
}

impl Moment {
    /// This moment in nodi's form, event for event; an empty moment has no events.
    pub fn to_nodi(&self) -> (r: NodiMoment)
        ensures
            r.events@.len() == Moment::events_of(self@).len(),
            forall|i: int| 0 <= i < r.events@.len() ==> agrees(Moment::events_of(self@)[i], #[trigger] r.events@[i]),
    {
        let mut events: Vec<NodiEvent> = Vec::new();
        match self {
            Moment::Empty => {},
            Moment::Events(es) => {
                let mut i: usize = 0;
                while i < es.len()
                    invariant
                        i <= es@.len(),
                        events@.len() == i,
                        forall|k: int| 0 <= k < i ==> agrees(es@[k], #[trigger] events@[k]),
                    decreases es@.len() - i,
                {
                    events.push(es[i].to_nodi());
                    i += 1;
                }
            },
        }
        NodiMoment { events }
    }
}

} // verus!
