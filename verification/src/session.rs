use vstd::prelude::*;
use vstd::arithmetic::div_mod::{lemma_div_is_ordered, lemma_div_multiples_vanish};
use crate::scramble::{generate_scramble, scramble_ok, Move, Scramble};
use crate::state::TimerState;

verus! {

/// Length of the inspection window, in nanoseconds.
pub const INSPECTION_NANOS: u64 = 20_000_000_000;

/// Abstract identity of a key edge delivered by the input collaborator.
#[derive(Clone, Copy, Debug, PartialEq, Eq, Structural)]
pub enum Key {
    /// The primary start/stop key.
    Primary,
    /// The exit key.
    Exit,
    /// Scrolls the history view towards older solves.
    ScrollUp,
    /// Scrolls the history view towards newer solves.
    ScrollDown,
    /// Any other key; never acted on.
    Other,
}

/// One completed solve: its duration in nanoseconds and the scramble that
/// was live while it was solved. Never changed once recorded.
#[derive(Debug)]
pub struct SolveRecord {
    pub duration_nanos: u64,
    pub scramble: Scramble,
}

/// The abstract value of a session: the timer phase, the recorded history as
/// (duration, scramble) pairs in chronological order, the held-key and exit
/// flags, the live scramble, the last completed duration, and the history
/// scroll offset.
#[verifier::ext_equal]
pub ghost struct Model {
    pub state: TimerState,
    pub times: Seq<(u64, Seq<Move>)>,
    pub space_pressed: bool,
    pub exit: bool,
    pub scramble: Seq<Move>,
    pub last_solved: Option<u64>,
    pub history_scroll: int,
}

/// The abstract value of one recorded solve.
pub open spec fn record_model(r: SolveRecord) -> (u64, Seq<Move>) {
    (r.duration_nanos, r.scramble@)
}

/// The durations of a history, in chronological order.
pub open spec fn durations_of(ts: Seq<(u64, Seq<Move>)>) -> Seq<u64> {
    ts.map_values(|p: (u64, Seq<Move>)| p.0)
}

/// Sum of a duration sequence.
pub open spec fn sum_nanos(s: Seq<u64>) -> int
    decreases s.len(),
{
    if s.len() == 0 {
        0
    } else {
        sum_nanos(s.drop_last()) + s.last()
    }
}

/// Arithmetic mean, rounded down, of the last `n` entries of `s`.
pub open spec fn mean_of_last(s: Seq<u64>, n: int) -> int
    recommends
        1 <= n <= s.len(),
{
    sum_nanos(s.subrange(s.len() - n, s.len() as int)) / n
}

/// A session is well formed when its live scramble and every recorded
/// scramble satisfy the generation rule, and the scroll offset is zero on an
/// empty history and otherwise at most the history length minus one.
pub open spec fn model_wf(m: Model) -> bool {
    &&& scramble_ok(m.scramble)
    &&& forall|i: int| 0 <= i < m.times.len() ==> scramble_ok((#[trigger] m.times[i]).1)
    &&& if m.times.len() == 0 {
            m.history_scroll == 0
        } else {
            0 <= m.history_scroll < m.times.len()
        }
}

/// The session a press edge of `key` at instant `now` leads to.
pub open spec fn press_step(m: Model, key: Key, now: u64) -> Model {
    if key == Key::Exit {
        Model { exit: true, ..m }
    } else if key == Key::Primary {
        let held = Model { space_pressed: true, ..m };
        match m.state {
            TimerState::Idle => Model { state: TimerState::Inspection(now), ..held },
            TimerState::Inspection(_) => Model { state: TimerState::ReadyToStart, ..held },
            TimerState::Solving(start) => {
                let elapsed = (now - start) as u64;
                Model {
                    state: TimerState::Solved(elapsed),
                    times: m.times.push((elapsed, m.scramble)),
                    last_solved: Some(elapsed),
                    ..held
                }
            },
            _ => held,
        }
    } else if key == Key::ScrollUp {
        if m.history_scroll + 1 < m.times.len() {
            Model { history_scroll: m.history_scroll + 1, ..m }
        } else {
            m
        }
    } else if key == Key::ScrollDown {
        if m.history_scroll > 0 {
            Model { history_scroll: m.history_scroll - 1, ..m }
        } else {
            m
        }
    } else {
        m
    }
}

/// The session a release edge of `key` at instant `now` leads to; `fresh` is
/// the scramble that replaces the finished one when the solve is
/// acknowledged, and is ignored on every other path.
pub open spec fn release_step(m: Model, key: Key, now: u64, fresh: Seq<Move>) -> Model {
    if key == Key::Primary {
        let up = Model { space_pressed: false, ..m };
        match m.state {
            TimerState::ReadyToStart => Model { state: TimerState::Solving(now), ..up },
            TimerState::Solved(_) => Model { state: TimerState::Idle, scramble: fresh, ..up },
            _ => up,
        }
    } else {
        m
    }
}

/// The session the timed check at instant `now` leads to: inspection turns
/// into solving once the window has elapsed, unless the key is held.
pub open spec fn tick_step(m: Model, now: u64) -> Model {
    match m.state {
        TimerState::Inspection(start) => {
            if now >= start + INSPECTION_NANOS && !m.space_pressed {
                Model { state: TimerState::Solving(now), ..m }
            } else {
                m
            }
        },
        _ => m,
    }
}

/// One practice session: the current timer phase, the solve history, the
/// held-key and exit flags, the live scramble, the last completed duration,
/// and the scroll offset into the history view.
#[derive(Debug)]
pub struct App {
    pub state: TimerState,
    pub times: Vec<SolveRecord>,
    pub space_pressed: bool,
    pub exit: bool,
    pub scramble: Scramble,
    pub last_solved: Option<u64>,
    pub history_scroll: usize,
}

impl View for App {
    type V = Model;

    open spec fn view(&self) -> Model {
        Model {
            state: self.state,
            times: self.times@.map_values(|r: SolveRecord| record_model(r)),
            space_pressed: self.space_pressed,
            exit: self.exit,
            scramble: self.scramble@,
            last_solved: self.last_solved,
            history_scroll: self.history_scroll as int,
        }
    }
}

impl Default for App {
    /// A session starts idle, with an empty history, no key held, no exit
    /// requested, a freshly generated scramble, and the scroll at the top.
    fn default() -> (r: Self)
        ensures
            r@.state == TimerState::Idle,
            r@.times == Seq::<(u64, Seq<Move>)>::empty(),
            !r@.space_pressed,
            !r@.exit,
            r@.last_solved is None,
            r@.history_scroll == 0,
            model_wf(r@),
    {
        let r = App {
            state: TimerState::Idle,
            times: Vec::new(),
            space_pressed: false,
            exit: false,
            scramble: generate_scramble(),
            last_solved: None,
            history_scroll: 0,
        };
        proof {
            assert(r@.times =~= Seq::<(u64, Seq<Move>)>::empty());
        }
        r
    }
}

impl App {
    /// The session is well formed.
    pub open spec fn wf(&self) -> bool {
        model_wf(self@)
    }

    /// Applies a press edge of `key` captured at instant `now`.
    pub fn on_key_press(&mut self, key: Key, now: u64)
        requires
            old(self).wf(),
            old(self).state matches TimerState::Solving(start) ==> now >= start,
        ensures
            final(self).wf(),
            final(self)@ == press_step(old(self)@, key, now),
    {
        match key {
            Key::Exit => {
                self.exit = true;
            },
            Key::Primary => {
                self.space_pressed = true;
                match self.state {
                    TimerState::Idle => {
                        self.state = TimerState::Inspection(now);
                    },
                    TimerState::Inspection(_) => {
                        self.state = TimerState::ReadyToStart;
                    },
                    TimerState::Solving(start) => {
                        let elapsed = now - start;
                        let finished = self.scramble.clone();
                        self.times.push(
                            SolveRecord { duration_nanos: elapsed, scramble: finished },
                        );
                        self.last_solved = Some(elapsed);
                        self.state = TimerState::Solved(elapsed);
                        proof {
                            assert(self@.times =~= old(self)@.times.push(
                                (elapsed, old(self)@.scramble),
                            ));
                        }
                    },
                    _ => {},
                }
            },
            Key::ScrollUp => {
                let len = self.times.len();
                if self.history_scroll + 1 < len {
                    self.history_scroll = self.history_scroll + 1;
                }
            },
            Key::ScrollDown => {
                if self.history_scroll > 0 {
                    self.history_scroll = self.history_scroll - 1;
                }
            },
            Key::Other => {},
        }
        proof {
            assert(self@ =~= press_step(old(self)@, key, now));
        }
    }

    /// Applies a release edge of `key` captured at instant `now`. When the
    /// release acknowledges a finished solve, the scramble is regenerated;
    /// the new one is well formed but otherwise unconstrained.
    pub fn on_key_release(&mut self, key: Key, now: u64)
        requires
            old(self).wf(),
        ensures
            final(self).wf(),
            final(self)@ == release_step(old(self)@, key, now, final(self)@.scramble),
    {
        match key {
            Key::Primary => {
                self.space_pressed = false;
                match self.state {
                    TimerState::ReadyToStart => {
                        self.state = TimerState::Solving(now);
                    },
                    TimerState::Solved(_) => {
                        self.scramble = generate_scramble();
                        self.state = TimerState::Idle;
                    },
                    _ => {},
                }
            },
            _ => {},
        }
        proof {
            assert(self@ =~= release_step(old(self)@, key, now, self@.scramble));
        }
    }

    /// Applies the timed check at instant `now`: inspection that has run for
    /// the full window turns into solving, unless the primary key is held.
    pub fn tick(&mut self, now: u64)
        requires
            old(self).wf(),
        ensures
            final(self).wf(),
            final(self)@ == tick_step(old(self)@, now),
    {
        match self.state {
            TimerState::Inspection(start) => {
                if now >= start && now - start >= INSPECTION_NANOS && !self.space_pressed {
                    self.state = TimerState::Solving(now);
                }
            },
            _ => {},
        }
        proof {
            assert(self@ =~= tick_step(old(self)@, now));
        }
    }

    /// Mean duration, in nanoseconds rounded down, of the `n` most recent
    /// solves; unavailable while fewer than `n` solves are recorded.
    pub fn average(&self, n: usize) -> (r: Option<u64>)
        requires
            n >= 1,
        ensures
            self@.times.len() < n ==> r is None,
            self@.times.len() >= n ==> (r matches Some(v)
                && v as int == mean_of_last(durations_of(self@.times), n as int)),
    {
        let len = self.times.len();
        if len < n {
            return None;
        }
        let ghost ds = durations_of(self@.times);
        let mut acc: u128 = 0;
        let mut i: usize = len - n;
        proof {
            assert(ds.subrange(len - n, len - n) =~= Seq::<u64>::empty());
        }
        while i < len
            invariant
                n >= 1,
                len == self.times@.len(),
                n <= len,
                len - n <= i <= len,
                ds == durations_of(self@.times),
                ds.len() == len,
                acc == sum_nanos(ds.subrange(len - n, i as int)),
                acc <= (i - (len - n)) * (u64::MAX as int),
            decreases len - i,
        {
            let d = self.times[i].duration_nanos;
            proof {
                let k = i - (len - n);
                assert(acc + d <= (k + 1) * (u64::MAX as int)) by (nonlinear_arith)
                    requires
                        acc <= k * (u64::MAX as int),
                        d <= u64::MAX as int,
                ;
                assert((k + 1) * (u64::MAX as int) <= (n as int) * (u64::MAX as int))
                    by (nonlinear_arith)
                    requires
                        k + 1 <= n as int,
                ;
                assert((n as int) * (u64::MAX as int) <= u128::MAX as int) by (nonlinear_arith)
                    requires
                        0 <= n as int <= u64::MAX as int,
                ;
                assert(ds[i as int] == self.times@[i as int].duration_nanos);
            }
            acc = acc + d as u128;
            proof {
                let prefix = ds.subrange(len - n, i as int);
                let extended = ds.subrange(len - n, i + 1 as int);
                assert(extended.drop_last() =~= prefix);
                assert(extended.last() == ds[i as int]);
            }
            i = i + 1;
        }
        proof {
            assert(ds.subrange(len - n, len as int) =~= ds.subrange(
                ds.len() - n,
                ds.len() as int,
            ));
            lemma_div_is_ordered(acc as int, (n as int) * (u64::MAX as int), n as int);
            lemma_div_multiples_vanish(u64::MAX as int, n as int);
        }
        let avg: u128 = acc / (n as u128);
        Some(avg as u64)
    }
}

/// The rows of the transition table, read off the step functions: pressing
/// from idle starts inspection at the captured instant; pressing during
/// inspection arms the start; releasing the armed start begins solving at
/// the captured instant; pressing while solving freezes the elapsed time and
/// appends it, with the live scramble, to the history; releasing from solved
/// returns to idle and installs the regenerated scramble; the exit key only
/// raises the exit flag; and inspection that has run for the full window
/// with the key up turns into solving.
pub proof fn lemma_transition_table(m: Model, now: u64, fresh: Seq<Move>)
    ensures
        (m.state == TimerState::Idle ==> press_step(m, Key::Primary, now).state
            == TimerState::Inspection(now)),
        ((m.state matches TimerState::Inspection(_)) ==> press_step(m, Key::Primary, now).state
            == TimerState::ReadyToStart),
        (m.state == TimerState::ReadyToStart ==> release_step(m, Key::Primary, now, fresh).state
            == TimerState::Solving(now)),
        (m.state matches TimerState::Solving(start) ==> (press_step(m, Key::Primary, now).state
            == TimerState::Solved((now - start) as u64)
            && press_step(m, Key::Primary, now).times
                == m.times.push(((now - start) as u64, m.scramble)))),
        (m.state matches TimerState::Solved(_) ==> (release_step(m, Key::Primary, now, fresh).state
            == TimerState::Idle
            && release_step(m, Key::Primary, now, fresh).scramble == fresh)),
        (press_step(m, Key::Exit, now) == (Model { exit: true, ..m })),
        ((m.state matches TimerState::Inspection(start) && now >= start + INSPECTION_NANOS
            && !m.space_pressed) ==> tick_step(m, now).state == TimerState::Solving(now)),
{
}

/// Totality of the state machine: a (phase, event) pair outside the
/// transition table leaves the phase exactly as it was, and a key outside
/// the vocabulary changes nothing at all. The exit and scroll keys never
/// touch the phase or the history.
pub proof fn lemma_totality(m: Model, key: Key, now: u64, fresh: Seq<Move>)
    ensures
        (!(key == Key::Primary && (m.state matches TimerState::Idle
            || m.state matches TimerState::Inspection(_)
            || m.state matches TimerState::Solving(_))) ==> press_step(m, key, now).state
            == m.state),
        (!(key == Key::Primary && (m.state matches TimerState::ReadyToStart
            || m.state matches TimerState::Solved(_))) ==> release_step(m, key, now, fresh).state
            == m.state),
        (!(m.state matches TimerState::Inspection(start) && now >= start + INSPECTION_NANOS
            && !m.space_pressed) ==> tick_step(m, now) == m),
        (key != Key::Primary ==> press_step(m, key, now).times == m.times),
        (key != Key::Primary ==> release_step(m, key, now, fresh) == m),
        (key == Key::Other ==> press_step(m, key, now) == m),
{
}

/// A full press, press, release, press cycle from idle walks the protocol
/// (inspection, armed, solving, solved) and appends exactly one record to
/// the history: its duration is the time between the release that started
/// the stopwatch and the press that stopped it, and its scramble is the one
/// that was live when inspection began. The live scramble is untouched.
pub proof fn lemma_full_cycle(m0: Model, t1: u64, t2: u64, t3: u64, t4: u64)
    requires
        m0.state == TimerState::Idle,
        t4 >= t3,
    ensures
        ({
            let m1 = press_step(m0, Key::Primary, t1);
            let m2 = press_step(m1, Key::Primary, t2);
            let m3 = release_step(m2, Key::Primary, t3, m2.scramble);
            let m4 = press_step(m3, Key::Primary, t4);
            &&& m1.state == TimerState::Inspection(t1)
            &&& m2.state == TimerState::ReadyToStart
            &&& m3.state == TimerState::Solving(t3)
            &&& m4.state == TimerState::Solved((t4 - t3) as u64)
            &&& m4.times == m0.times.push(((t4 - t3) as u64, m0.scramble))
            &&& m4.scramble == m0.scramble
        }),
{
}

} // verus!
