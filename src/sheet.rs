//! Whole timelines: the meta events of a mix, and two timelines played as one.
use vstd::prelude::*;

use crate::event::{Event, Moment};

verus! {

/// The events that make no sound: every event but the MIDI messages, in order.
pub open spec fn meta_only(es: Seq<Event>) -> Seq<Event>
    decreases es.len(),
{
    if es.len() == 0 {
        seq![]
    } else {
        let prev = meta_only(es.drop_last());
        match es.last() {
            Event::Midi(_) => prev,
            e => prev.push(e),
        }
    }
}

/// A moment with its MIDI messages taken out; one left without events is empty.
pub open spec fn meta_moment(m: Option<Seq<Event>>) -> Option<Seq<Event>> {
    match m {
        None => None,
        Some(es) => if meta_only(es).len() == 0 {
            None
        } else {
            Some(meta_only(es))
        },
    }
}

/// Two moments on one tick: the events of the first, then those of the second.
pub open spec fn merged_moment(a: Option<Seq<Event>>, b: Option<Seq<Event>>) -> Option<Seq<Event>> {
    match (a, b) {
        (None, None) => None,
        (Some(x), None) => Some(x),
        (None, Some(y)) => Some(y),
        (Some(x), Some(y)) => Some(x + y),
    }
}

/// The moment at tick `i`, empty past the end.
pub open spec fn moment_at(s: Seq<Moment>, i: int) -> Option<Seq<Event>> {
    if 0 <= i < s.len() {
        s[i]@
    } else {
        None
    }
}

/// The tempo changes and other markers of a timeline, without its MIDI
/// messages, tick for tick.
pub fn extract_meta_events(sheet: &Vec<Moment>) -> (r: Vec<Moment>)
    ensures
        r@.len() == sheet@.len(),
        forall|i: int| 0 <= i < r@.len() ==> #[trigger] r@[i]@ == meta_moment(sheet@[i]@),
{
    let mut r: Vec<Moment> = Vec::new();
    let mut i: usize = 0;
    while i < sheet.len()
        invariant
            i <= sheet@.len(),
            r@.len() == i,
            forall|k: int| 0 <= k < i ==> #[trigger] r@[k]@ == meta_moment(sheet@[k]@),
        decreases sheet@.len() - i,
    {
        let m = match &sheet[i] {
            Moment::Empty => Moment::Empty,
            Moment::Events(events) => {
                let mut kept: Vec<Event> = Vec::new();
                let mut j: usize = 0;
                while j < events.len()
                    invariant
                        j <= events@.len(),
                        kept@ == meta_only(events@.subrange(0, j as int)),
                    decreases events@.len() - j,
                {
                    proof {
                        assert(events@.subrange(0, j + 1).drop_last() =~= events@.subrange(0, j as int));
                    }
                    match events[j] {
                        Event::Midi(_) => {},
                        e => kept.push(e),
                    }
                    j += 1;
                }
                assert(events@.subrange(0, j as int) =~= events@);
                if kept.len() == 0 {
                    Moment::Empty
                } else {
                    Moment::Events(kept)
                }
            },
        };
        r.push(m);
        i += 1;
    }
    r
}

fn merge_moments(a: &Moment, b: &Moment) -> (r: Moment)
    ensures
        r@ == merged_moment(a@, b@),
{
    match (a, b) {
        (Moment::Empty, Moment::Empty) => Moment::Empty,
        (Moment::Events(_), Moment::Empty) => a.clone(),
        (Moment::Empty, Moment::Events(_)) => b.clone(),
        (Moment::Events(x), Moment::Events(y)) => {
            let mut out: Vec<Event> = Vec::new();
            let mut i: usize = 0;
            while i < x.len()
                invariant
                    i <= x@.len(),
                    out@ == x@.subrange(0, i as int),
                decreases x@.len() - i,
            {
                out.push(x[i]);
                i += 1;
                assert(out@ =~= x@.subrange(0, i as int));
            }
            let mut j: usize = 0;
            while j < y.len()
                invariant
                    i == x@.len(),
                    j <= y@.len(),
                    out@ == x@ + y@.subrange(0, j as int),
                decreases y@.len() - j,
            {
                out.push(y[j]);
                j += 1;
                assert(out@ =~= x@ + y@.subrange(0, j as int));
            }
            assert(y@.subrange(0, j as int) =~= y@);
            Moment::Events(out)
        },
    }
}

/// Two timelines played together: tick `i` holds the events of both at `i`,
/// those of `sheet` first; the result is as long as the longer one.
pub fn merge_with(sheet: &Vec<Moment>, other: &Vec<Moment>) -> (r: Vec<Moment>)
    ensures
        r@.len() == if sheet@.len() >= other@.len() { sheet@.len() } else { other@.len() },
        forall|i: int|
            0 <= i < r@.len() ==> #[trigger] r@[i]@ == merged_moment(moment_at(sheet@, i), moment_at(other@, i)),
{
    let n: usize = if sheet.len() >= other.len() { sheet.len() } else { other.len() };
    let empty = Moment::Empty;
    let mut r: Vec<Moment> = Vec::new();
    let mut i: usize = 0;
    while i < n
        invariant
            i <= n,
            n == if sheet@.len() >= other@.len() { sheet@.len() } else { other@.len() },
            empty@ == None::<Seq<Event>>,
            r@.len() == i,
            forall|k: int|
                0 <= k < i ==> #[trigger] r@[k]@ == merged_moment(moment_at(sheet@, k), moment_at(other@, k)),
        decreases n - i,
    {
        let a = if i < sheet.len() { &sheet[i] } else { &empty };
        let b = if i < other.len() { &other[i] } else { &empty };
        r.push(merge_moments(a, b));
        i += 1;
    }
    r
}

} // verus!
