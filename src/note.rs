//! Pitches: which notes sound in a moment, and how a note is named.
use vstd::prelude::*;
use vstd::string::*;

use crate::event::{Event, MidiMessage, Moment, PERCUSSION_CHANNEL};

verus! {

/// A MIDI key reduced to its place in the twelve-tone scale and an octave.
#[derive(Clone, Copy, Debug, PartialEq, Eq, Structural)]
pub struct Note {
    pub offset: u8,
    pub octave: u8,
}

/// The note of key `k`: its offset is `k % 12`; its octave is `k / 12`,
/// counted one higher for every key but the C's.
pub open spec fn note_of(k: int) -> Note {
    let offset = k % 12;
    Note { offset: offset as u8, octave: (if offset == 0 { k / 12 } else { k / 12 + 1 }) as u8 }
}

impl From<u8> for Note {
    fn from(n: u8) -> (r: Note) {
        let offset = n % 12;
        let octave = if offset == 0 { n / 12 } else { n / 12 + 1 };
        Note { offset, octave }
    }
}

impl vstd::std_specs::convert::FromSpecImpl<u8> for Note {
    open spec fn obeys_from_spec() -> bool {
        true
    }

    open spec fn from_spec(n: u8) -> Note {
        note_of(n as int)
    }
}

/// The key that event `e` starts sounding, moved by `shift`: only note-on
/// messages with a nonzero velocity outside the percussion channel count, and
/// only while the moved key stays in 0..=127.
pub open spec fn sounding_key(e: Event, shift: i8) -> Option<int> {
    match e {
        Event::Midi(m) => if m.channel == PERCUSSION_CHANNEL {
            None
        } else {
            match m.message {
                MidiMessage::NoteOn { key, vel } => if vel > 0 && 0 <= key + shift <= 127 {
                    Some(key + shift)
                } else {
                    None
                },
                _ => None,
            }
        },
        _ => None,
    }
}

/// The notes that the events start, each once, in the order of their first
/// occurrence.
pub open spec fn distinct_notes(s: Seq<Event>, shift: i8) -> Seq<Note>
    decreases s.len(),
{
    if s.len() == 0 {
        seq![]
    } else {
        let prev = distinct_notes(s.drop_last(), shift);
        match sounding_key(s.last(), shift) {
            Some(k) => if prev.contains(note_of(k)) {
                prev
            } else {
                prev.push(note_of(k))
            },
            None => prev,
        }
    }
}

/// The notes heard in a moment: `None` where there are none.
pub open spec fn notes_of_moment(m: Option<Seq<Event>>, shift: i8) -> Option<Seq<Note>> {
    match m {
        None => None,
        Some(s) => if distinct_notes(s, shift).len() == 0 {
            None
        } else {
            Some(distinct_notes(s, shift))
        },
    }
}

/// A MIDI message on the percussion channel.
pub open spec fn on_percussion(e: Event) -> bool {
    match e {
        Event::Midi(m) => m.channel == PERCUSSION_CHANNEL,
        _ => false,
    }
}

/// Events that all go to the percussion channel start no notes, however
/// they are transposed.
pub proof fn lemma_percussion_has_no_notes(s: Seq<Event>, shift: i8)
    requires
        forall|i: int| 0 <= i < s.len() ==> on_percussion(#[trigger] s[i]),
    ensures
        distinct_notes(s, shift) == Seq::<Note>::empty(),
        notes_of_moment(Some(s), shift) is None,
    decreases s.len(),
{
    if s.len() > 0 {
        assert(on_percussion(s[s.len() - 1]));
        lemma_percussion_has_no_notes(s.drop_last(), shift);
    }
}

pub open spec fn opt_seq<T>(v: Option<Vec<T>>) -> Option<Seq<T>> {
    match v {
        None => None,
        Some(v) => Some(v@),
    }
}

/// The distinct notes that `moment` starts, moved by `shift` semitones.
pub fn moment_notes(moment: &Moment, shift: i8) -> (r: Option<Vec<Note>>)
    ensures
        opt_seq(r) == notes_of_moment(moment@, shift),
{
    match moment {
        Moment::Empty => None,
        Moment::Events(events) => {
            let mut buf: Vec<Note> = Vec::new();
            let mut i: usize = 0;
            while i < events.len()
                invariant
                    i <= events@.len(),
                    buf@ == distinct_notes(events@.subrange(0, i as int), shift),
                decreases events@.len() - i,
            {
                proof {
                    assert(events@.subrange(0, i + 1).drop_last() =~= events@.subrange(0, i as int));
                }
                if let Event::Midi(m) = events[i] {
                    if m.channel != PERCUSSION_CHANNEL {
                        if let MidiMessage::NoteOn { key, vel } = m.message {
                            let k: i16 = key as i16 + shift as i16;
                            if vel > 0 && 0 <= k && k <= 127 {
                                let n = Note::from(k as u8);
                                let mut j: usize = 0;
                                let mut seen = false;
                                while j < buf.len()
                                    invariant
                                        j <= buf@.len(),
                                        seen == buf@.subrange(0, j as int).contains(n),
                                    decreases buf@.len() - j,
                                {
                                    proof {
                                        let p = buf@.subrange(0, j as int);
                                        let q = buf@.subrange(0, j + 1);
                                        assert(q =~= p.push(buf@[j as int]));
                                        assert(q.contains(n) <==> (p.contains(n) || buf@[j as int] == n)) by {
                                            if q.contains(n) {
                                                let k = choose|k: int| 0 <= k < q.len() && q[k] == n;
                                                if k < j {
                                                    assert(p[k] == n);
                                                }
                                            }
                                            if p.contains(n) {
                                                let k = choose|k: int| 0 <= k < p.len() && p[k] == n;
                                                assert(q[k] == n);
                                            }
                                            if buf@[j as int] == n {
                                                assert(q[j as int] == n);
                                            }
                                        }
                                    }
                                    if buf[j] == n {
                                        seen = true;
                                    }
                                    j += 1;
                                }
                                assert(buf@.subrange(0, j as int) =~= buf@);
                                if !seen {
                                    buf.push(n);
                                }
                            }
                        }
                    }
                }
                i += 1;
            }
            assert(events@.subrange(0, i as int) =~= events@);
            if buf.len() == 0 {
                None
            } else {
                Some(buf)
            }
        },
    }
}

/// How notes are named.
#[derive(Clone, Copy, Debug, PartialEq, Eq, Structural)]
pub enum NoteStyle {
    /// A, B, C
    Abc,
    /// A3, B2, E7
    AbcN,
    /// Do, Re, Mi
    Doremi,
    /// Do 2, Re 5, Mi 7
    DoremiN,
}

/// The letter name of a place in the scale.
pub open spec fn abc_name(offset: u8) -> Seq<char> {
    match offset {
        0 => "C"@,
        1 => "C#"@,
        2 => "D"@,
        3 => "E♭"@,
        4 => "E"@,
        5 => "F"@,
        6 => "F#"@,
        7 => "G"@,
        8 => "A♭"@,
        9 => "A"@,
        10 => "B♭"@,
        _ => "B"@,
    }
}

/// The solfège name of a place in the scale.
pub open spec fn doremi_name(offset: u8) -> Seq<char> {
    match offset {
        0 => "Do"@,
        1 => "Do#"@,
        2 => "Re"@,
        3 => "Mi♭"@,
        4 => "Mi"@,
        5 => "Fa"@,
        6 => "Fa#"@,
        7 => "Sol"@,
        8 => "La♭"@,
        9 => "La"@,
        10 => "Si♭"@,
        _ => "Si"@,
    }
}

/// A decimal digit.
pub open spec fn digit(d: u8) -> Seq<char> {
    match d {
        0 => "0"@,
        1 => "1"@,
        2 => "2"@,
        3 => "3"@,
        4 => "4"@,
        5 => "5"@,
        6 => "6"@,
        7 => "7"@,
        8 => "8"@,
        _ => "9"@,
    }
}

/// A number in decimal, without leading zeros.
pub open spec fn decimal(n: nat) -> Seq<char>
    decreases n,
{
    if n < 10 {
        digit(n as u8)
    } else {
        decimal(n / 10) + digit((n % 10) as u8)
    }
}

/// The text of note `n` in style `style`: its name, followed by its octave
/// in the numbered styles.
pub open spec fn note_text(style: NoteStyle, n: Note) -> Seq<char> {
    match style {
        NoteStyle::Abc => abc_name(n.offset),
        NoteStyle::AbcN => abc_name(n.offset) + decimal(n.octave as nat),
        NoteStyle::Doremi => doremi_name(n.offset),
        NoteStyle::DoremiN => doremi_name(n.offset) + decimal(n.octave as nat),
    }
}

/// The style after `s` in the cycle Abc, AbcN, Doremi, DoremiN, Abc.
pub open spec fn next_style(s: NoteStyle) -> NoteStyle {
    match s {
        NoteStyle::Abc => NoteStyle::AbcN,
        NoteStyle::AbcN => NoteStyle::Doremi,
        NoteStyle::Doremi => NoteStyle::DoremiN,
        NoteStyle::DoremiN => NoteStyle::Abc,
    }
}

/// The style that follows `s`; four toggles give `s` back.
pub fn toggle_style(s: NoteStyle) -> (r: NoteStyle)
    ensures
        r == next_style(s),
{
    match s {
        NoteStyle::Abc => NoteStyle::AbcN,
        NoteStyle::AbcN => NoteStyle::Doremi,
        NoteStyle::Doremi => NoteStyle::DoremiN,
        NoteStyle::DoremiN => NoteStyle::Abc,
    }
}

/// The style notes are shown in until it is toggled: letters with octaves.
pub fn style() -> (r: NoteStyle)
    ensures
        r == NoteStyle::AbcN,
{
    NoteStyle::AbcN
}

fn abc_str(offset: u8) -> (r: &'static str)
    ensures
        r@ == abc_name(offset),
{
    match offset {
        0 => "C",
        1 => "C#",
        2 => "D",
        3 => "E♭",
        4 => "E",
        5 => "F",
        6 => "F#",
        7 => "G",
        8 => "A♭",
        9 => "A",
        10 => "B♭",
        _ => "B",
    }
}

fn doremi_str(offset: u8) -> (r: &'static str)
    ensures
        r@ == doremi_name(offset),
{
    match offset {
        0 => "Do",
        1 => "Do#",
        2 => "Re",
        3 => "Mi♭",
        4 => "Mi",
        5 => "Fa",
        6 => "Fa#",
        7 => "Sol",
        8 => "La♭",
        9 => "La",
        10 => "Si♭",
        _ => "Si",
    }
}

fn digit_str(d: u8) -> (r: &'static str)
    requires
        d < 10,
    ensures
        r@ == digit(d),
{
    match d {
        0 => "0",
        1 => "1",
        2 => "2",
        3 => "3",
        4 => "4",
        5 => "5",
        6 => "6",
        7 => "7",
        8 => "8",
        _ => "9",
    }
}

fn push_decimal(s: &mut String, n: u8)
    ensures
        final(s)@ == old(s)@ + decimal(n as nat),
{
    let ghost s0 = s@;
    if n >= 100 {
        s.append(digit_str(n / 100));
        s.append(digit_str((n / 10) % 10));
        s.append(digit_str(n % 10));
        assert(decimal((n / 10) as nat) == decimal((n / 100) as nat) + digit((n / 10) % 10));
        assert(decimal(n as nat) == decimal((n / 10) as nat) + digit(n % 10));
        assert(s@ =~= s0 + decimal(n as nat));
    } else if n >= 10 {
        s.append(digit_str(n / 10));
        s.append(digit_str(n % 10));
        assert(decimal(n as nat) == decimal((n / 10) as nat) + digit(n % 10));
        assert(s@ =~= s0 + decimal(n as nat));
    } else {
        s.append(digit_str(n));
    }
}

impl NoteStyle {
    /// The name of note `n` in this style.
    pub fn display_note(self, n: Note) -> (r: String)
        requires
            n.offset < 12,
        ensures
            r@ == note_text(self, n),
    {
        let mut s = match self {
            NoteStyle::Abc | NoteStyle::AbcN => String::from_str(abc_str(n.offset)),
            NoteStyle::Doremi | NoteStyle::DoremiN => String::from_str(doremi_str(n.offset)),
        };
        match self {
            NoteStyle::AbcN | NoteStyle::DoremiN => push_decimal(&mut s, n.octave),
            _ => {},
        }
        s
    }
}

} // verus!
