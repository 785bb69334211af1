//! Bars: a timeline cut into bars by its time signatures, each with the
//! tempo that holds at its start.
use vstd::prelude::*;

use crate::note::{Note, lemma_percussion_has_no_notes, moment_notes, notes_of_moment, on_percussion};
use nodi::Moment as NodiMoment;
use crate::event::{Event, Moment, lemma_transpose_zero, silent, transposed_moment};
use vstd::slice::slice_subrange;
use std::borrow::Cow;

verus! {

/// A tempo clock snapshot: the resolution and the tempo in force.
#[derive(Clone, Copy, Debug, PartialEq, Eq)]
pub struct Clock {
    pub ticks_per_beat: u16,
    /// Microseconds per beat; 0 until the first tempo change, which makes
    /// waits take no time.
    pub micros_per_beat: u32,
}

impl Clock {
    pub fn new(ticks_per_beat: u16) -> (r: Clock)
        ensures
            r == (Clock { ticks_per_beat, micros_per_beat: 0 }),
    {
        Clock { ticks_per_beat, micros_per_beat: 0 }
    }

    /// Takes a tempo change from here on.
    pub fn change_tempo(&mut self, micros_per_beat: u32)
        ensures
            *final(self) == (Clock { micros_per_beat, ..*old(self) }),
    {
        self.micros_per_beat = micros_per_beat;
    }
}

/// A slice of the timeline with the clock at its start.
#[derive(Clone, Debug)]
pub struct Bar {
    pub timer: Clock,
    pub moments: Vec<Moment>,
}

/// The tempo after the events, starting from `t`: that of the last tempo
/// change among them, or `t` if there is none.
pub open spec fn tempo_after_events(es: Seq<Event>, t: u32) -> u32
    decreases es.len(),
{
    if es.len() == 0 {
        t
    } else {
        match es.last() {
            Event::Tempo(n) => n,
            _ => tempo_after_events(es.drop_last(), t),
        }
    }
}

/// The tempo after the moments, starting from `t`.
pub open spec fn tempo_after(ms: Seq<Moment>, t: u32) -> u32
    decreases ms.len(),
{
    if ms.len() == 0 {
        t
    } else {
        tempo_after_events(Moment::events_of(ms.last()@), tempo_after(ms.drop_last(), t))
    }
}

/// The views of the moments.
pub open spec fn views(s: Seq<Moment>) -> Seq<Option<Seq<Event>>> {
    s.map_values(|m: Moment| m@)
}

/// The sum of the numbers.
pub open spec fn total(lens: Seq<int>) -> int
    decreases lens.len(),
{
    if lens.len() == 0 {
        0
    } else {
        total(lens.drop_last()) + lens.last()
    }
}

/// Where bar `i` starts, for bars of the given lengths.
pub open spec fn bar_start(lens: Seq<int>, i: int) -> int {
    total(lens.take(i))
}

/// The lengths, in ticks, of the bars that nodi cuts a sheet into at
/// `tpb` ticks per beat, following its time signatures.
pub uninterp spec fn bar_lengths(sheet: Seq<Option<Seq<Event>>>, tpb: u16) -> Seq<int>;

/// Relies on nodi's `Sheet::into_bars`: it takes the moments off the front
/// of the sheet, at least one per bar, until none are left, so the bars hold
/// every moment once and in order.
#[verifier::external_body]
fn cut_into_bars(sheet: &Vec<Moment>, tpb: u16) -> (r: Vec<Vec<NodiMoment>>)
    ensures
        r@.map_values(|b: Vec<NodiMoment>| b@.len() as int) == bar_lengths(views(sheet@), tpb),
        total(r@.map_values(|b: Vec<NodiMoment>| b@.len() as int)) == sheet@.len(),
        forall|i: int| 0 <= i < r@.len() ==> #[trigger] r@[i]@.len() > 0,
{
    let s: nodi::Sheet = sheet.iter().map(|m| m.to_nodi()).collect();
    s.into_bars(tpb).collect()
}

proof fn lemma_total_prefix(lens: Seq<int>, i: int)
    requires
        0 <= i <= lens.len(),
        forall|k: int| 0 <= k < lens.len() ==> lens[k] > 0,
    ensures
        bar_start(lens, i) <= total(lens),
        i < lens.len() ==> bar_start(lens, i + 1) == bar_start(lens, i) + lens[i],
    decreases lens.len(),
{
    if i < lens.len() {
        assert(lens.take(i + 1).drop_last() =~= lens.take(i));
        let d = lens.drop_last();
        if i < d.len() {
            lemma_total_prefix(d, i);
            assert(d.take(i) =~= lens.take(i));
            assert(d.take(i + 1) =~= lens.take(i + 1));
        } else {
            assert(lens.take(i) =~= d);
        }
    } else {
        assert(lens.take(i) =~= lens);
    }
}

fn tempo_in(m: &Moment, t: u32) -> (r: u32)
    ensures
        r == tempo_after_events(Moment::events_of(m@), t),
{
    match m {
        Moment::Empty => t,
        Moment::Events(events) => {
            let mut r = t;
            let mut i: usize = 0;
            while i < events.len()
                invariant
                    i <= events@.len(),
                    r == tempo_after_events(events@.subrange(0, i as int), t),
                decreases events@.len() - i,
            {
                proof {
                    assert(events@.subrange(0, i + 1).drop_last() =~= events@.subrange(0, i as int));
                }
                if let Event::Tempo(n) = events[i] {
                    r = n;
                }
                i += 1;
            }
            assert(events@.subrange(0, i as int) =~= events@);
            r
        },
    }
}

/// Cuts a timeline into bars where nodi's bar iterator cuts it, by the time
/// signature in force (one beat per bar before the first one): each bar of
/// at least one tick, the bars covering the timeline in order without gap or
/// overlap.
/// Each bar carries the clock as it stands at its first tick, with every
/// tempo change before that tick applied.
pub fn bars(sheet: Vec<Moment>, tpb: u16) -> (r: Vec<Bar>)
    ensures
        r@.len() == bar_lengths(views(sheet@), tpb).len(),
        bar_start(bar_lengths(views(sheet@), tpb), r@.len() as int) == sheet@.len(),
        forall|i: int|
            0 <= i < r@.len() ==> {
                let lens = bar_lengths(views(sheet@), tpb);
                &&& (#[trigger] r@[i]).moments@.len() > 0
                &&& r@[i].moments@ == sheet@.subrange(bar_start(lens, i), bar_start(lens, i + 1))
                &&& r@[i].timer == (Clock {
                    ticks_per_beat: tpb,
                    micros_per_beat: tempo_after(sheet@.subrange(0, bar_start(lens, i)), 0),
                })
            },
{
    let cut = cut_into_bars(&sheet, tpb);
    let ghost lens = bar_lengths(views(sheet@), tpb);
    proof {
        assert(lens.len() == cut@.len());
        assert forall|k: int| 0 <= k < lens.len() implies lens[k] > 0 by {
            assert(lens[k] == cut@[k]@.len());
        }
        assert(lens =~= cut@.map_values(|b: Vec<NodiMoment>| b@.len() as int));
    }
    let n = sheet.len();
    let mut timer = Clock::new(tpb);
    let mut buf: Vec<Bar> = Vec::new();
    let mut start: usize = 0;
    let mut rest = sheet;
    let mut i: usize = 0;
    assert(lens.take(0) =~= Seq::<int>::empty());
    while i < cut.len()
        invariant
            n == sheet@.len(),
            lens == bar_lengths(views(sheet@), tpb),
            lens.len() == cut@.len(),
            total(lens) == n,
            forall|k: int| 0 <= k < lens.len() ==> lens[k] > 0,
            forall|k: int| 0 <= k < lens.len() ==> lens[k] == #[trigger] cut@[k]@.len(),
            i <= cut@.len(),
            buf@.len() == i,
            start == bar_start(lens, i as int),
            start <= n,
            rest@ == sheet@.subrange(start as int, n as int),
            timer == (Clock { ticks_per_beat: tpb, micros_per_beat: tempo_after(sheet@.subrange(0, start as int), 0) }),
            forall|k: int|
                0 <= k < buf@.len() ==> {
                    &&& (#[trigger] buf@[k]).moments@.len() > 0
                    &&& buf@[k].moments@ == sheet@.subrange(bar_start(lens, k), bar_start(lens, k + 1))
                    &&& buf@[k].timer == (Clock {
                        ticks_per_beat: tpb,
                        micros_per_beat: tempo_after(sheet@.subrange(0, bar_start(lens, k)), 0),
                    })
                },
        decreases cut@.len() - i,
    {
        let len = cut[i].len();
        proof {
            lemma_total_prefix(lens, i as int);
            lemma_total_prefix(lens, i + 1);
            assert(lens[i as int] == len);
        }
        let snapshot = timer;
        let mut j: usize = 0;
        while j < len
            invariant
                j <= len,
                start + len <= n,
                n == sheet@.len(),
                rest@ == sheet@.subrange(start as int, n as int),
                timer == (Clock { ticks_per_beat: tpb, micros_per_beat: tempo_after(sheet@.subrange(0, start + j), 0) }),
            decreases len - j,
        {
            proof {
                assert(sheet@.subrange(0, start + j + 1).drop_last() =~= sheet@.subrange(0, start + j));
                assert(sheet@.subrange(0, start + j + 1).last() == rest@[j as int]);
            }
            let t = tempo_in(&rest[j], timer.micros_per_beat);
            timer.change_tempo(t);
            j += 1;
        }
        let tail = rest.split_off(len);
        proof {
            assert(rest@ =~= sheet@.subrange(start as int, start + len));
            assert(tail@ =~= sheet@.subrange(start + len, n as int));
        }
        buf.push(Bar { timer: snapshot, moments: rest });
        rest = tail;
        start = start + len;
        i += 1;
    }
    proof {
        assert(lens.take(lens.len() as int) =~= lens);
    }
    buf
}

/// The moments without the silent ones at the front.
pub open spec fn trim_front(s: Seq<Moment>) -> Seq<Moment>
    decreases s.len(),
{
    if s.len() > 0 && silent(s[0]@) {
        trim_front(s.drop_first())
    } else {
        s
    }
}

/// The moments without the silent ones at the back.
pub open spec fn trim_back(s: Seq<Moment>) -> Seq<Moment>
    decreases s.len(),
{
    if s.len() > 0 && silent(s.last()@) {
        trim_back(s.drop_last())
    } else {
        s
    }
}

/// The moments without silence at either edge.
pub open spec fn trimmed(s: Seq<Moment>) -> Seq<Moment> {
    trim_back(trim_front(s))
}

/// Neither edge of the moments is silent.
pub open spec fn has_sound_at_edges(s: Seq<Moment>) -> bool {
    s.len() == 0 || (!silent(s[0]@) && !silent(s.last()@))
}

proof fn lemma_trim_front_edge(s: Seq<Moment>)
    ensures
        trim_front(s).len() == 0 || !silent(trim_front(s)[0]@),
    decreases s.len(),
{
    if s.len() > 0 && silent(s[0]@) {
        lemma_trim_front_edge(s.drop_first());
    }
}

proof fn lemma_trim_back_edges(s: Seq<Moment>)
    ensures
        trim_back(s).len() <= s.len(),
        trim_back(s) == s.subrange(0, trim_back(s).len() as int),
        trim_back(s).len() == 0 || !silent(trim_back(s).last()@),
        s.len() > 0 && !silent(s[0]@) ==> trim_back(s).len() > 0,
    decreases s.len(),
{
    if s.len() > 0 && silent(s.last()@) {
        lemma_trim_back_edges(s.drop_last());
        assert(s.drop_last().subrange(0, trim_back(s).len() as int) =~= s.subrange(0, trim_back(s).len() as int));
    } else {
        assert(s.subrange(0, s.len() as int) =~= s);
    }
}

/// Trimming a slice whose edges both sound gives the same slice back.
pub proof fn lemma_trim_keeps_sounding_edges(s: Seq<Moment>)
    requires
        has_sound_at_edges(s),
    ensures
        trimmed(s) == s,
{
}

/// What trimming leaves sounds at both edges, so trimming twice is trimming once.
pub proof fn lemma_trim_idempotent(s: Seq<Moment>)
    ensures
        has_sound_at_edges(trimmed(s)),
        trimmed(trimmed(s)) == trimmed(s),
{
    let f = trim_front(s);
    lemma_trim_front_edge(s);
    lemma_trim_back_edges(f);
    let t = trim_back(f);
    if t.len() > 0 {
        assert(t[0] == f[0]);
    }
    lemma_trim_keeps_sounding_edges(t);
}

impl Bar {
    /// The moments of this bar without silence at either edge.
    pub fn trim_moments(&self) -> (r: &[Moment])
        ensures
            r@ == trimmed(self.moments@),
    {
        let m = &self.moments;
        let n = m.len();
        let mut start: usize = 0;
        assert(m@.subrange(0, n as int) =~= m@);
        while start < n && m[start].is_empty()
            invariant
                start <= n == m@.len(),
                trim_front(m@) == trim_front(m@.subrange(start as int, n as int)),
            decreases n - start,
        {
            proof {
                let t = m@.subrange(start as int, n as int);
                assert(t.drop_first() =~= m@.subrange(start + 1, n as int));
                assert(t[0] == m@[start as int]);
            }
            start += 1;
        }
        let ghost front = m@.subrange(start as int, n as int);
        assert(trim_front(m@) == front) by {
            if start < n {
                assert(front[0] == m@[start as int]);
            }
        }
        let mut end: usize = n;
        while end > start && m[end - 1].is_empty()
            invariant
                start <= end <= n == m@.len(),
                front == m@.subrange(start as int, n as int),
                trim_back(front) == trim_back(m@.subrange(start as int, end as int)),
            decreases end - start,
        {
            proof {
                let t = m@.subrange(start as int, end as int);
                assert(t.drop_last() =~= m@.subrange(start as int, end - 1));
                assert(t.last() == m@[end - 1]);
            }
            end -= 1;
        }
        proof {
            let t = m@.subrange(start as int, end as int);
            if end > start {
                assert(t.last() == m@[end - 1]);
            }
        }
        slice_subrange(m.as_slice(), start, end)
    }

    /// The trimmed moments moved by `n` semitones. With `n == 0` the bar's
    /// own moments are lent out; otherwise a transposed copy is made and the
    /// bar is left as it was.
    pub fn transposed_moments<'a>(&'a self, n: i8) -> (r: Cow<'a, [Moment]>)
        ensures
            r@.len() == trimmed(self.moments@).len(),
            forall|i: int|
                0 <= i < r@.len() ==> #[trigger] r@[i]@ == transposed_moment(trimmed(self.moments@)[i]@, n),
            n == 0 ==> r@ == trimmed(self.moments@),
    {
        let trim = self.trim_moments();
        if n == 0 {
            proof {
                assert forall|i: int| 0 <= i < trim@.len() implies #[trigger] trim@[i]@ == transposed_moment(trim@[i]@, n) by {
                    if let Some(es) = trim@[i]@ {
                        lemma_transpose_zero(es);
                    }
                }
            }
            Cow::Borrowed(trim)
        } else {
            let mut moments: Vec<Moment> = Vec::new();
            let mut i: usize = 0;
            while i < trim.len()
                invariant
                    i <= trim@.len(),
                    moments@.len() == i,
                    forall|k: int| 0 <= k < i ==> #[trigger] moments@[k]@ == transposed_moment(trim@[k]@, n),
                decreases trim@.len() - i,
            {
                moments.push(trim[i].transposed(n));
                i += 1;
            }
            Cow::Owned(moments)
        }
    }
}

/// A moment that sounds, and how many ticks pass before it: since the start
/// for the first one, since the previous one for the others.
#[derive(Clone, Copy, Debug, PartialEq, Eq)]
pub struct Cue {
    pub wait_ticks: u32,
    /// Its position among the moments.
    pub moment: usize,
}

/// The positions of the moments that are not silent, in order.
pub open spec fn sounding_positions(s: Seq<Moment>) -> Seq<int>
    decreases s.len(),
{
    if s.len() == 0 {
        seq![]
    } else {
        let prev = sounding_positions(s.drop_last());
        if silent(s.last()@) {
            prev
        } else {
            prev.push(s.len() - 1)
        }
    }
}

proof fn lemma_sounding_positions_bounded(s: Seq<Moment>)
    ensures
        forall|k: int| 0 <= k < sounding_positions(s).len() ==> 0 <= #[trigger] sounding_positions(s)[k] < s.len(),
    decreases s.len(),
{
    if s.len() > 0 {
        let p = sounding_positions(s.drop_last());
        lemma_sounding_positions_bounded(s.drop_last());
        assert forall|k: int| 0 <= k < sounding_positions(s).len() implies 0 <= #[trigger] sounding_positions(s)[k] < s.len() by {
            if k < p.len() {
                assert(sounding_positions(s)[k] == p[k]);
            }
        }
    }
}

/// When each sounding moment is due: one cue per moment that is not silent,
/// in order, waiting the ticks since the previous cue (or since the start).
pub fn cues(moments: &[Moment]) -> (r: Vec<Cue>)
    requires
        moments@.len() <= u32::MAX,
    ensures
        r@.len() == sounding_positions(moments@).len(),
        forall|k: int|
            0 <= k < r@.len() ==> {
                &&& (#[trigger] r@[k]).moment == sounding_positions(moments@)[k]
                &&& r@[k].wait_ticks == sounding_positions(moments@)[k] - (if k == 0 {
                    0
                } else {
                    sounding_positions(moments@)[k - 1]
                })
            },
{
    let mut r: Vec<Cue> = Vec::new();
    let mut prev: usize = 0;
    let mut i: usize = 0;
    while i < moments.len()
        invariant
            i <= moments@.len() <= u32::MAX,
            prev <= i,
            r@.len() == 0 ==> prev == 0,
            r@.len() > 0 ==> prev == r@.last().moment,
            r@.len() == sounding_positions(moments@.subrange(0, i as int)).len(),
            forall|k: int|
                0 <= k < r@.len() ==> {
                    &&& (#[trigger] r@[k]).moment == sounding_positions(moments@.subrange(0, i as int))[k]
                    &&& r@[k].wait_ticks == sounding_positions(moments@.subrange(0, i as int))[k] - (if k == 0 {
                        0
                    } else {
                        sounding_positions(moments@.subrange(0, i as int))[k - 1]
                    })
                },
        decreases moments@.len() - i,
    {
        let ghost sp = sounding_positions(moments@.subrange(0, i as int));
        let ghost r0 = r@;
        proof {
            let t = moments@.subrange(0, i + 1);
            assert(t.drop_last() =~= moments@.subrange(0, i as int));
            assert(t.last() == moments@[i as int]);
            lemma_sounding_positions_bounded(moments@.subrange(0, i as int));
        }
        if !moments[i].is_empty() {
            r.push(Cue { wait_ticks: (i - prev) as u32, moment: i });
            prev = i;
            proof {
                let sq = sounding_positions(moments@.subrange(0, i + 1));
                assert(sq == sp.push(i as int));
                assert forall|k: int| 0 <= k < r@.len() implies {
                    &&& (#[trigger] r@[k]).moment == sq[k]
                    &&& r@[k].wait_ticks == sq[k] - (if k == 0 { 0 } else { sq[k - 1] })
                } by {
                    if k < r0.len() {
                        assert(r@[k] == r0[k]);
                    } else if k > 0 {
                        assert(r0[k - 1].moment == sp[k - 1]);
                        assert(r0.last() == r0[k - 1]);
                    }
                }
            }
        } else {
            assert(sounding_positions(moments@.subrange(0, i + 1)) == sp);
        }
        i += 1;
    }
    assert(moments@.subrange(0, i as int) =~= moments@);
    let ghost sp = sounding_positions(moments@);
    assert(sounding_positions(moments@.subrange(0, i as int)) == sp);
    assert forall|k: int| 0 <= k < r@.len() implies {
        &&& (#[trigger] r@[k]).moment == sp[k]
        &&& r@[k].wait_ticks == sp[k] - (if k == 0 { 0 } else { sp[k - 1] })
    } by {
        assert(r@[k].moment == sounding_positions(moments@.subrange(0, i as int))[k]);
    }
    r
}

/// The notes heard in each moment, without the moments where none are.
pub open spec fn notes_in(ms: Seq<Moment>, transpose: i8) -> Seq<Seq<Note>>
    decreases ms.len(),
{
    if ms.len() == 0 {
        seq![]
    } else {
        let prev = notes_in(ms.drop_last(), transpose);
        match notes_of_moment(ms.last()@, transpose) {
            Some(ns) => prev.push(ns),
            None => prev,
        }
    }
}

/// A bar whose events all go to the percussion channel shows no notes at
/// any transposition.
pub proof fn lemma_percussion_bar_has_no_notes(ms: Seq<Moment>, transpose: i8)
    requires
        forall|i: int, j: int|
            0 <= i < ms.len() && 0 <= j < Moment::events_of(ms[i]@).len() ==> on_percussion(
                #[trigger] Moment::events_of(ms[i]@)[j],
            ),
    ensures
        notes_in(ms, transpose) == Seq::<Seq<Note>>::empty(),
        forall|i: int| 0 <= i < ms.len() ==> notes_of_moment(#[trigger] ms[i]@, transpose) is None,
    decreases ms.len(),
{
    assert forall|i: int| 0 <= i < ms.len() implies notes_of_moment(#[trigger] ms[i]@, transpose) is None by {
        if let Some(es) = ms[i]@ {
            assert forall|j: int| 0 <= j < es.len() implies on_percussion(#[trigger] es[j]) by {
                assert(Moment::events_of(ms[i]@)[j] == es[j]);
            }
            lemma_percussion_has_no_notes(es, transpose);
        }
    }
    if ms.len() > 0 {
        let last = ms.len() - 1;
        assert(ms.last() == ms[last]);
        assert forall|i: int, j: int|
            0 <= i < ms.drop_last().len() && 0 <= j < Moment::events_of(ms.drop_last()[i]@).len() implies on_percussion(
                #[trigger] Moment::events_of(ms.drop_last()[i]@)[j],
            ) by {
            assert(ms.drop_last()[i] == ms[i]);
        }
        lemma_percussion_bar_has_no_notes(ms.drop_last(), transpose);
    }
}

impl Bar {
    /// The distinct notes of each moment of this bar that has any, moved by
    /// `transpose` semitones.
    pub fn notes(&self, transpose: i8) -> (r: Vec<Vec<Note>>)
        ensures
            r@.map_values(|v: Vec<Note>| v@) == notes_in(self.moments@, transpose),
    {
        let ms = &self.moments;
        let mut r: Vec<Vec<Note>> = Vec::new();
        let mut i: usize = 0;
        while i < ms.len()
            invariant
                i <= ms@.len(),
                r@.map_values(|v: Vec<Note>| v@) == notes_in(ms@.subrange(0, i as int), transpose),
            decreases ms@.len() - i,
        {
            proof {
                assert(ms@.subrange(0, i + 1).drop_last() =~= ms@.subrange(0, i as int));
            }
            match moment_notes(&ms[i], transpose) {
                Some(ns) => {
                    let ghost before = r@;
                    r.push(ns);
                    assert(r@.map_values(|v: Vec<Note>| v@) =~= before.map_values(|v: Vec<Note>| v@).push(ns@));
                },
                None => {},
            }
            i += 1;
        }
        assert(ms@.subrange(0, i as int) =~= ms@);
        r
    }
}

} // verus!
