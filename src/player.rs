//! The player's control state: the navigation cursor, transposition, speed
//! and solo flag, and what each command asks the runtime to do.
use vstd::prelude::*;

use crate::note::Note;

verus! {

/// The speed multiplier never goes below this many percent.
pub const MIN_SPEED: u32 = 10;

/// The speed after a reset, in percent.
pub const DEFAULT_SPEED: u32 = 100;

/// The distinct notes of each sounding moment of a bar.
pub type Notes = Vec<Vec<Note>>;

/// A snapshot of the player, as reported to the presentation layer.
#[derive(Clone, Copy, Debug, PartialEq, Eq)]
pub struct State {
    pub transposition: i8,
    /// The bar played last.
    pub index: usize,
    /// The number of bars.
    pub length: usize,
    pub solo: bool,
    /// The speed multiplier, in percent.
    pub speed: u32,
}

/// What the user asks of the player.
#[derive(Clone, Copy, Debug, PartialEq, Eq)]
pub enum Command {
    Next,
    Prev,
    Replay,
    Silence,
    Reset,
    Solo,
    /// Transpose(0) resets the transposition instead.
    Transpose(i8),
    Info,
    /// Changes the speed by the given number of percentage points.
    Speed(i32),
    /// Switches how notes are named; the presentation layer handles it.
    NoteStyle,
}

/// What the player reports back.
#[derive(Clone, Debug, PartialEq, Eq)]
pub enum Response {
    EndOfTrack,
    StartOfTrack,
    Notes(Notes),
    State(State),
}

/// What a play action hands to the worker that sounds one bar: copies of the
/// settings at the time of the command.
#[derive(Clone, Copy, Debug, PartialEq, Eq)]
pub struct Playback {
    pub bar: usize,
    /// Whether the solo bars sound rather than the full mix.
    pub solo: bool,
    pub transpose: i8,
    /// The speed multiplier, in percent.
    pub speed: u32,
}

/// What the runtime does after a command.
#[derive(Clone, Debug, PartialEq, Eq)]
pub enum Action {
    /// Silence the output, report the notes of the bar, then sound it.
    Play(Playback),
    /// Silence the output.
    Silence,
    /// Send a response.
    Respond(Response),
    /// Nothing beyond the change of state.
    Nothing,
}

impl Action {
    /// Whether the bar in flight stops before this action is carried out:
    /// it does when a new bar is about to sound or silence is asked for.
    /// Reports and changes of settings leave it playing.
    pub fn cancels_in_flight(&self) -> (r: bool)
        ensures
            r == (self is Play || self is Silence),
    {
        match self {
            Action::Play(_) | Action::Silence => true,
            Action::Respond(_) | Action::Nothing => false,
        }
    }
}

/// The player's state as mathematical values.
pub struct PlayerView {
    /// The boundary cursor: after a forward move one past the bar played,
    /// after a backward move the bar played.
    pub index: int,
    pub last_forward: bool,
    pub n_bars: int,
    pub solo: bool,
    pub transpose: int,
    /// In percent.
    pub speed: int,
    /// The bar that a replay sounds.
    pub last_played: int,
}

/// The remainder of `a / m` with the sign of `a`, as Rust's `%` computes it.
pub open spec fn trunc_rem(a: int, m: int) -> int {
    if a >= 0 {
        a % m
    } else {
        -((-a) % m)
    }
}

/// The transposition after `Transpose(n)`: 0 when `n` is 0, else the sum
/// reduced to -11..=11 by the remainder of a division by 12.
pub open spec fn next_transpose(t: int, n: int) -> int {
    if n == 0 {
        0
    } else {
        trunc_rem(t + n, 12)
    }
}

/// The speed after `Speed(d)`: the sum, raised to the floor, capped at the
/// largest `u32`.
pub open spec fn next_speed(s: int, d: int) -> int {
    if s + d < MIN_SPEED {
        MIN_SPEED as int
    } else if s + d > u32::MAX {
        u32::MAX as int
    } else {
        s + d
    }
}

impl PlayerView {
    pub open spec fn wf(self) -> bool {
        &&& 0 <= self.index <= self.n_bars
        &&& !self.last_forward ==> self.index + 2 <= self.n_bars
        &&& -11 <= self.transpose <= 11
        &&& MIN_SPEED <= self.speed <= u32::MAX
        &&& 0 <= self.last_played
        &&& (self.n_bars == 0 || self.last_played < self.n_bars)
    }

    /// A forward move: `None` when there is no next bar, else the new state
    /// and the bar to play.
    pub open spec fn advance(self) -> Option<(PlayerView, int)> {
        if self.index >= self.n_bars || (self.last_forward && self.index + 1 > self.n_bars) {
            None
        } else {
            let index = if self.last_forward { self.index + 1 } else { self.index + 2 };
            Some((PlayerView { index, last_forward: true, last_played: index - 1, ..self }, index - 1))
        }
    }

    /// A backward move: `None` when the cursor would go below 0, else the new
    /// state and the bar to play.
    pub open spec fn retreat(self) -> Option<(PlayerView, int)> {
        let index = if self.last_forward { self.index - 2 } else { self.index - 1 };
        if index < 0 {
            None
        } else {
            Some((PlayerView { index, last_forward: false, last_played: index, ..self }, index))
        }
    }

    pub open spec fn reset(self) -> PlayerView {
        PlayerView { index: 0, last_forward: true, speed: DEFAULT_SPEED as int, last_played: 0, ..self }
    }

    pub open spec fn state(self) -> State {
        State {
            transposition: self.transpose as i8,
            index: self.last_played as usize,
            length: self.n_bars as usize,
            solo: self.solo,
            speed: self.speed as u32,
        }
    }

    pub open spec fn playback(self, bar: int) -> Playback {
        Playback { bar: bar as usize, solo: self.solo, transpose: self.transpose as i8, speed: self.speed as u32 }
    }

    /// The new state and the action for command `c`.
    pub open spec fn step(self, c: Command) -> (PlayerView, Action) {
        match c {
            Command::Next => match self.advance() {
                Some((v, bar)) => (v, Action::Play(v.playback(bar))),
                None => (self, Action::Respond(Response::EndOfTrack)),
            },
            Command::Prev => match self.retreat() {
                Some((v, bar)) => (v, Action::Play(v.playback(bar))),
                None => (self, Action::Respond(Response::StartOfTrack)),
            },
            Command::Replay => if self.n_bars == 0 {
                (self, Action::Nothing)
            } else {
                (self, Action::Play(self.playback(self.last_played)))
            },
            Command::Silence => (self, Action::Silence),
            Command::Reset => (self.reset(), Action::Nothing),
            Command::Solo => (PlayerView { solo: !self.solo, ..self }, Action::Nothing),
            Command::Transpose(n) => {
                let v = PlayerView { transpose: next_transpose(self.transpose, n as int), ..self };
                (v, Action::Respond(Response::State(v.state())))
            },
            Command::Info => (self, Action::Respond(Response::State(self.state()))),
            Command::Speed(d) => {
                let v = PlayerView { speed: next_speed(self.speed, d as int), ..self };
                (v, Action::Respond(Response::State(v.state())))
            },
            Command::NoteStyle => (self, Action::Nothing),
        }
    }
}

/// The bars that `m` forward moves in a row play, starting from `v`; `None`
/// for each move that found no next bar.
pub open spec fn forward_run(v: PlayerView, m: nat) -> Seq<Option<int>>
    decreases m,
{
    if m == 0 {
        seq![]
    } else {
        match v.advance() {
            Some((w, bar)) => seq![Some(bar)] + forward_run(w, (m - 1) as nat),
            None => seq![None] + forward_run(v, (m - 1) as nat),
        }
    }
}

/// The state after the commands, applied in order.
pub open spec fn after(v: PlayerView, cs: Seq<Command>) -> PlayerView
    decreases cs.len(),
{
    if cs.len() == 0 {
        v
    } else {
        after(v.step(cs[0]).0, cs.drop_first())
    }
}

proof fn lemma_forward_run_from(v: PlayerView, m: nat)
    requires
        v.wf(),
        v.last_forward,
    ensures
        forward_run(v, m) == Seq::new(m, |i: int| if v.index + i < v.n_bars { Some(v.index + i) } else { None }),
    decreases m,
{
    let expected = Seq::new(m, |i: int| if v.index + i < v.n_bars { Some(v.index + i) } else { None });
    if m > 0 {
        match v.advance() {
            Some((w, bar)) => {
                lemma_forward_run_from(w, (m - 1) as nat);
                assert(forward_run(v, m) =~= expected);
            },
            None => {
                lemma_forward_run_from(v, (m - 1) as nat);
                assert(forward_run(v, m) =~= expected);
            },
        }
    } else {
        assert(forward_run(v, m) =~= expected);
    }
}

/// Forward moves from the first bar boundary play bars 0, 1, 2, ... in
/// order, then find no next bar at every further move; a reset brings the
/// cursor back there from any state.
pub proof fn lemma_forward_visits_in_order(v: PlayerView, m: nat)
    requires
        v.wf(),
    ensures
        v.index == 0 && v.last_forward ==> forward_run(v, m) == Seq::new(
            m,
            |i: int| if i < v.n_bars { Some(i) } else { None },
        ),
        forward_run(v.reset(), m) == Seq::new(m, |i: int| if i < v.n_bars { Some(i) } else { None }),
{
    lemma_forward_run_from(v.reset(), m);
    assert(Seq::new(m, |i: int| if v.reset().index + i < v.n_bars { Some(v.reset().index + i) } else { None })
        =~= Seq::new(m, |i: int| if i < v.n_bars { Some(i) } else { None }));
    if v.index == 0 && v.last_forward {
        lemma_forward_run_from(v, m);
        assert(Seq::new(m, |i: int| if v.index + i < v.n_bars { Some(v.index + i) } else { None })
            =~= Seq::new(m, |i: int| if i < v.n_bars { Some(i) } else { None }));
    }
}

/// A backward move at the first boundary finds no bar, whichever way the
/// last move went, and changes nothing.
pub proof fn lemma_retreat_at_start(v: PlayerView)
    requires
        v.wf(),
        v.index == 0,
    ensures
        v.retreat() is None,
        v.step(Command::Prev) == (v, Action::Respond(Response::StartOfTrack)),
{
}

/// A forward move at the last boundary finds no bar and changes nothing.
pub proof fn lemma_advance_at_end(v: PlayerView)
    requires
        v.wf(),
        v.index == v.n_bars,
    ensures
        v.advance() is None,
        v.step(Command::Next) == (v, Action::Respond(Response::EndOfTrack)),
{
}

proof fn lemma_trunc_rem(a: int)
    ensures
        -11 <= trunc_rem(a, 12) <= 11,
        (a - trunc_rem(a, 12)) % 12 == 0,
{
    if a >= 0 {
        assert((a - a % 12) % 12 == 0) by (nonlinear_arith);
    } else {
        assert((a + (-a) % 12) % 12 == 0) by (nonlinear_arith)
            requires a < 0;
    }
}

/// `Transpose(0)` resets the transposition to 0 whatever it was; any other
/// `Transpose(k)` adds `k` modulo 12, and `Transpose(-k)` after it brings
/// the transposition back to the first value modulo 12.
pub proof fn lemma_transpose_reset_and_round_trip(v: PlayerView, k: i8)
    requires
        v.wf(),
        k != 0,
        k != i8::MIN,
    ensures
        v.step(Command::Transpose(0)).0.transpose == 0,
        (v.step(Command::Transpose(k)).0.transpose - (v.transpose + k)) % 12 == 0,
        (v.step(Command::Transpose(k)).0.step(Command::Transpose((-k) as i8)).0.transpose - v.transpose) % 12 == 0,
{
    let w = v.step(Command::Transpose(k)).0;
    let u = w.step(Command::Transpose((-k) as i8)).0;
    lemma_trunc_rem(v.transpose + k);
    lemma_trunc_rem(w.transpose - k);
    let a = v.transpose + k - w.transpose;
    let b = w.transpose - k - u.transpose;
    assert(u.transpose - v.transpose == -(a + b));
    assert((-(a + b)) % 12 == 0) by (nonlinear_arith)
        requires a % 12 == 0, b % 12 == 0;
    assert(-a % 12 == 0) by (nonlinear_arith)
        requires a % 12 == 0;
}

/// Every command keeps the state well formed.
pub proof fn lemma_step_wf(v: PlayerView, c: Command)
    requires
        v.wf(),
    ensures
        v.step(c).0.wf(),
{
    if let Command::Transpose(n) = c {
        lemma_trunc_rem(v.transpose + n);
    }
}

/// Whatever the commands, the state stays well formed: in particular the
/// cursor stays within the bars and the speed never drops below the floor,
/// however many speed decreases come in a row.
pub proof fn lemma_speed_floor(v: PlayerView, cs: Seq<Command>)
    requires
        v.wf(),
    ensures
        after(v, cs).wf(),
        after(v, cs).speed >= MIN_SPEED > 0,
    decreases cs.len(),
{
    if cs.len() > 0 {
        lemma_step_wf(v, cs[0]);
        lemma_speed_floor(v.step(cs[0]).0, cs.drop_first());
    }
}

/// The control state of a player over a fixed number of bars.
pub struct Player {
    index: usize,
    last_forward: bool,
    n_bars: usize,
    solo_on: bool,
    transpose: i8,
    speed: u32,
    last_played: usize,
}

impl View for Player {
    type V = PlayerView;

    closed spec fn view(&self) -> PlayerView {
        PlayerView {
            index: self.index as int,
            last_forward: self.last_forward,
            n_bars: self.n_bars as int,
            solo: self.solo_on,
            transpose: self.transpose as int,
            speed: self.speed as int,
            last_played: self.last_played as int,
        }
    }
}

impl Player {
    pub open spec fn wf(&self) -> bool {
        self@.wf()
    }

    /// A player over `n_bars` bars, before the first bar, at full speed,
    /// untransposed, with the full mix sounding.
    pub fn new(n_bars: usize) -> (r: Player)
        ensures
            r.wf(),
            r@ == (PlayerView {
                index: 0,
                last_forward: true,
                n_bars: n_bars as int,
                solo: false,
                transpose: 0,
                speed: DEFAULT_SPEED as int,
                last_played: 0,
            }),
    {
        Player {
            index: 0,
            last_forward: true,
            n_bars,
            solo_on: false,
            transpose: 0,
            speed: DEFAULT_SPEED,
            last_played: 0,
        }
    }

    /// Moves forward one bar; returns the bar to play, or `None` at the end.
    pub fn play_next(&mut self) -> (r: Option<usize>)
        requires
            old(self).wf(),
        ensures
            final(self).wf(),
            match old(self)@.advance() {
                Some((v, bar)) => r == Some(bar as usize) && final(self)@ == v,
                None => r.is_none() && final(self)@ == old(self)@,
            },
    {
        if self.index >= self.n_bars || (self.last_forward && self.index + 1 > self.n_bars) {
            return None;
        }
        if self.last_forward {
            self.index += 1;
        } else {
            self.index += 2;
        }
        self.last_forward = true;
        self.last_played = self.index - 1;
        Some(self.index - 1)
    }

    /// Moves back one bar; returns the bar to play, or `None` at the start.
    pub fn play_prev(&mut self) -> (r: Option<usize>)
        requires
            old(self).wf(),
        ensures
            final(self).wf(),
            match old(self)@.retreat() {
                Some((v, bar)) => r == Some(bar as usize) && final(self)@ == v,
                None => r.is_none() && final(self)@ == old(self)@,
            },
    {
        let step: usize = if self.last_forward { 2 } else { 1 };
        if self.index < step {
            return None;
        }
        self.index = self.index - step;
        self.last_forward = false;
        self.last_played = self.index;
        Some(self.index)
    }

    /// Back before the first bar, at the default speed.
    pub fn reset(&mut self)
        requires
            old(self).wf(),
        ensures
            final(self).wf(),
            final(self)@ == old(self)@.reset(),
    {
        self.index = 0;
        self.last_forward = true;
        self.speed = DEFAULT_SPEED;
        self.last_played = 0;
    }

    /// `Transpose(n)`: resets the transposition when `n` is 0, else adds `n`
    /// modulo 12.
    pub fn transpose(&mut self, n: i8)
        requires
            old(self).wf(),
        ensures
            final(self).wf(),
            final(self)@ == (PlayerView { transpose: next_transpose(old(self)@.transpose, n as int), ..old(self)@ }),
    {
        if n == 0 {
            self.transpose = 0;
        } else {
            let s: i16 = self.transpose as i16 + n as i16;
            if s >= 0 {
                self.transpose = ((s as u16) % 12) as i8;
            } else {
                self.transpose = -((((-s) as u16) % 12) as i8);
            }
        }
    }

    /// `Speed(d)`: adds `d` percentage points, never going below the floor.
    pub fn change_speed(&mut self, d: i32)
        requires
            old(self).wf(),
        ensures
            final(self).wf(),
            final(self)@ == (PlayerView { speed: next_speed(old(self)@.speed, d as int), ..old(self)@ }),
    {
        let f: i64 = self.speed as i64 + d as i64;
        if f < MIN_SPEED as i64 {
            self.speed = MIN_SPEED;
        } else if f > u32::MAX as i64 {
            self.speed = u32::MAX;
        } else {
            self.speed = f as u32;
        }
    }

    /// Switches between the solo line and the full mix.
    pub fn toggle_solo(&mut self)
        requires
            old(self).wf(),
        ensures
            final(self).wf(),
            final(self)@ == (PlayerView { solo: !old(self)@.solo, ..old(self)@ }),
    {
        self.solo_on = !self.solo_on;
    }

    /// A snapshot of the player.
    pub fn state(&self) -> (r: State)
        requires
            self.wf(),
        ensures
            r == self@.state(),
    {
        State {
            transposition: self.transpose,
            index: self.last_played,
            length: self.n_bars,
            solo: self.solo_on,
            speed: self.speed,
        }
    }

    fn playback(&self, bar: usize) -> (r: Playback)
        ensures
            r == self@.playback(bar as int),
    {
        Playback { bar, solo: self.solo_on, transpose: self.transpose, speed: self.speed }
    }

    /// Applies command `c` and says what the runtime does next.
    pub fn handle(&mut self, c: Command) -> (r: Action)
        requires
            old(self).wf(),
        ensures
            final(self).wf(),
            (final(self)@, r) == old(self)@.step(c),
    {
        match c {
            Command::Next => match self.play_next() {
                Some(bar) => Action::Play(self.playback(bar)),
                None => Action::Respond(Response::EndOfTrack),
            },
            Command::Prev => match self.play_prev() {
                Some(bar) => Action::Play(self.playback(bar)),
                None => Action::Respond(Response::StartOfTrack),
            },
            Command::Replay => if self.n_bars == 0 {
                Action::Nothing
            } else {
                Action::Play(self.playback(self.last_played))
            },
            Command::Silence => Action::Silence,
            Command::Reset => {
                self.reset();
                Action::Nothing
            },
            Command::Solo => {
                self.toggle_solo();
                Action::Nothing
            },
            Command::Transpose(n) => {
                self.transpose(n);
                Action::Respond(Response::State(self.state()))
            },
            Command::Info => Action::Respond(Response::State(self.state())),
            Command::Speed(d) => {
                self.change_speed(d);
                Action::Respond(Response::State(self.state()))
            },
            Command::NoteStyle => Action::Nothing,
        }
    }
}

} // verus!
