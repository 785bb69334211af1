//! What a track calls itself: the name and instrument given in its text events.
use vstd::prelude::*;
use vstd::string::*;

verus! {

/// The text that a track event carries, if it names the track or its instrument.
#[derive(Clone, Debug, PartialEq, Eq)]
pub enum TrackText {
    Name(String),
    Instrument(String),
    Other,
}

/// The name and instrument of a track.
#[derive(Clone, Debug, PartialEq, Eq)]
pub struct Meta {
    pub name: Option<String>,
    pub instrument: Option<String>,
}

/// The name and instrument read from `es[i..]`, having read `name` and
/// `instrument` before: each text replaces the one of its kind, and reading
/// stops at the first text that completes the pair.
pub open spec fn scan(es: Seq<TrackText>, i: int, name: Option<String>, instrument: Option<String>) -> (
    Option<String>,
    Option<String>,
)
    decreases es.len() - i,
{
    if i >= es.len() || i < 0 {
        (name, instrument)
    } else {
        match es[i] {
            TrackText::Name(n) => if instrument is Some {
                (Some(n), instrument)
            } else {
                scan(es, i + 1, Some(n), instrument)
            },
            TrackText::Instrument(t) => if name is Some {
                (name, Some(t))
            } else {
                scan(es, i + 1, name, Some(t))
            },
            TrackText::Other => scan(es, i + 1, name, instrument),
        }
    }
}

/// How a track is shown: its name (or "Unnamed Track"), then its
/// instrument in parentheses if it has one.
pub open spec fn label_text(name: Option<String>, instrument: Option<String>) -> Seq<char> {
    let shown = match name {
        Some(n) => n@,
        None => "Unnamed Track"@,
    };
    match instrument {
        Some(t) => shown + " ("@ + t@ + ")"@,
        None => shown,
    }
}

impl Meta {
    /// Reads the name and instrument of a track from its text events.
    pub fn from_track(events: &Vec<TrackText>) -> (r: Meta)
        ensures
            (r.name, r.instrument) == scan(events@, 0, None, None),
    {
        let mut name: Option<String> = None;
        let mut instrument: Option<String> = None;
        let mut i: usize = 0;
        while i < events.len()
            invariant
                i <= events@.len(),
                scan(events@, 0, None, None) == scan(events@, i as int, name, instrument),
            decreases events@.len() - i,
        {
            match &events[i] {
                TrackText::Name(n) => {
                    name = Some(n.clone());
                    if instrument.is_some() {
                        return Meta { name, instrument };
                    }
                },
                TrackText::Instrument(t) => {
                    instrument = Some(t.clone());
                    if name.is_some() {
                        return Meta { name, instrument };
                    }
                },
                TrackText::Other => {},
            }
            i += 1;
        }
        Meta { name, instrument }
    }

    /// The text that shows this track.
    pub fn label(&self) -> (r: String)
        ensures
            r@ == label_text(self.name, self.instrument),
    {
        let mut s = match &self.name {
            Some(n) => n.clone(),
            None => String::from_str("Unnamed Track"),
        };
        match &self.instrument {
            Some(t) => {
                s.append(" (");
                s.append(t.as_str());
                s.append(")");
            },
            None => {},
        }
        s
    }
}

/// The track chosen by number `choice` among `count` tracks, if there is one.
pub fn select_track(choice: usize, count: usize) -> (r: Option<usize>)
    ensures
        r == if choice < count { Some(choice) } else { None::<usize> },
{
    if choice < count {
        Some(choice)
    } else {
        None
    }
}

} // verus!
