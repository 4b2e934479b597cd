use vstd::prelude::*;

verus! {

/// Nanoseconds in one second.
pub const NANOS_PER_SEC: u64 = 1_000_000_000;

/// Whether a timer stops after its first cycle or starts the next one.
#[derive(Clone, Copy, Debug, PartialEq, Eq, Structural)]
pub enum TimerMode {
    Once,
    Repeating,
}

/// A countdown that accumulates elapsed time and reports completed cycles.
///
/// `finished` is the level: true once a cycle completed on the last tick,
/// and for a `Once` timer every tick after. `times_finished_this_tick`
/// counts the cycles completed on the last tick (the edge).
#[derive(Clone, Copy, Debug)]
pub struct Timer {
    pub duration_ns: u64,
    pub elapsed_ns: u64,
    pub mode: TimerMode,
    pub paused: bool,
    pub finished: bool,
    pub times_finished_this_tick: u64,
}

/// A duration brought up to the shortest one a timer accepts.
pub open spec fn clamped_duration(d: u64) -> u64 {
    if d == 0 {
        1
    } else {
        d
    }
}

impl Timer {
    /// The cycle length is positive, and a `Once` timer is finished exactly
    /// when its elapsed time has reached its duration, never beyond it.
    pub open spec fn wf(self) -> bool {
        &&& self.duration_ns > 0
        &&& self.mode == TimerMode::Once ==> self.elapsed_ns <= self.duration_ns && (self.finished
            <==> self.elapsed_ns == self.duration_ns)
    }

    /// A timer that has not run yet.
    pub open spec fn fresh(duration_ns: u64, mode: TimerMode) -> Timer {
        Timer {
            duration_ns: clamped_duration(duration_ns),
            elapsed_ns: 0,
            mode,
            paused: false,
            finished: false,
            times_finished_this_tick: 0,
        }
    }

    /// The timer after `delta` nanoseconds have been offered to it.
    pub open spec fn ticked(self, delta: u64) -> Timer {
        if self.paused {
            Timer {
                finished: if self.mode == TimerMode::Repeating {
                    false
                } else {
                    self.finished
                },
                times_finished_this_tick: 0,
                ..self
            }
        } else if self.mode == TimerMode::Once && self.finished {
            Timer { times_finished_this_tick: 0, ..self }
        } else {
            let total = self.elapsed_ns + delta;
            let e: u64 = if total > u64::MAX {
                u64::MAX
            } else {
                total as u64
            };
            if e >= self.duration_ns {
                if self.mode == TimerMode::Repeating {
                    Timer {
                        elapsed_ns: (e % self.duration_ns) as u64,
                        finished: true,
                        times_finished_this_tick: (e / self.duration_ns) as u64,
                        ..self
                    }
                } else {
                    Timer {
                        elapsed_ns: self.duration_ns,
                        finished: true,
                        times_finished_this_tick: 1,
                        ..self
                    }
                }
            } else {
                Timer { elapsed_ns: e, finished: false, times_finished_this_tick: 0, ..self }
            }
        }
    }

    /// A timer of the given cycle length; a zero length becomes one nanosecond.
    pub fn new(duration_ns: u64, mode: TimerMode) -> (r: Timer)
        ensures
            r == Timer::fresh(duration_ns, mode),
            r.wf(),
    {
        Timer {
            duration_ns: if duration_ns == 0 {
                1
            } else {
                duration_ns
            },
            elapsed_ns: 0,
            mode,
            paused: false,
            finished: false,
            times_finished_this_tick: 0,
        }
    }

    /// Advances the timer by `delta` nanoseconds, unless it is paused.
    pub fn tick(&mut self, delta: u64)
        requires
            old(self).wf(),
        ensures
            *final(self) == old(self).ticked(delta),
            final(self).wf(),
    {
        if self.paused {
            if self.mode == TimerMode::Repeating {
                self.finished = false;
            }
            self.times_finished_this_tick = 0;
            return ;
        }
        if self.mode == TimerMode::Once && self.finished {
            self.times_finished_this_tick = 0;
            return ;
        }
        let e = self.elapsed_ns.saturating_add(delta);
        if e >= self.duration_ns {
            if self.mode == TimerMode::Repeating {
                self.times_finished_this_tick = e / self.duration_ns;
                self.elapsed_ns = e % self.duration_ns;
            } else {
                self.times_finished_this_tick = 1;
                self.elapsed_ns = self.duration_ns;
            }
            self.finished = true;
        } else {
            self.elapsed_ns = e;
            self.finished = false;
            self.times_finished_this_tick = 0;
        }
    }

    /// True once a cycle completed (see the type's description).
    pub fn finished(&self) -> (r: bool)
        ensures
            r == self.finished,
    {
        self.finished
    }

    /// True only on the tick on which a cycle completed.
    pub fn just_finished(&self) -> (r: bool)
        ensures
            r == (self.times_finished_this_tick > 0),
    {
        self.times_finished_this_tick > 0
    }

    /// Changes the cycle length and keeps the progress made so far.
    pub fn set_duration(&mut self, duration_ns: u64)
        ensures
            *final(self) == (Timer { duration_ns: clamped_duration(duration_ns), ..*old(self) }),
            old(self).wf() && (old(self).mode == TimerMode::Repeating || (!old(self).finished
                && old(self).elapsed_ns < clamped_duration(duration_ns))) ==> final(self).wf(),
    {
        self.duration_ns = if duration_ns == 0 {
            1
        } else {
            duration_ns
        };
    }

    /// Stops accumulation: `tick` is ignored until `unpause`.
    pub fn pause(&mut self)
        ensures
            *final(self) == (Timer { paused: true, ..*old(self) }),
            old(self).wf() ==> final(self).wf(),
    {
        self.paused = true;
    }

    /// Resumes accumulation.
    pub fn unpause(&mut self)
        ensures
            *final(self) == (Timer { paused: false, ..*old(self) }),
            old(self).wf() ==> final(self).wf(),
    {
        self.paused = false;
    }

    /// Back to the start of a cycle; the pause state is kept.
    pub fn reset(&mut self)
        ensures
            *final(self) == (Timer {
                elapsed_ns: 0,
                finished: false,
                times_finished_this_tick: 0,
                ..*old(self)
            }),
            old(self).wf() ==> final(self).wf(),
    {
        self.elapsed_ns = 0;
        self.finished = false;
        self.times_finished_this_tick = 0;
    }
}

/// A timer of cycle length `d`, ticked once by exactly `d`, reports exactly
/// one completed cycle on that tick; ticked once by less, it reports none and
/// is not finished. A `Once` timer reports no further completion afterwards.
pub proof fn lemma_timer_round_trip(d: u64, mode: TimerMode, less: u64, later: u64)
    requires
        d > 0,
        less < d,
    ensures
        Timer::fresh(d, mode).ticked(d).times_finished_this_tick == 1,
        Timer::fresh(d, mode).ticked(d).finished,
        !Timer::fresh(d, mode).ticked(less).finished,
        Timer::fresh(d, mode).ticked(less).times_finished_this_tick == 0,
        mode == TimerMode::Once ==> Timer::fresh(d, mode).ticked(d).ticked(
            later,
        ).times_finished_this_tick == 0,
        mode == TimerMode::Repeating ==> Timer::fresh(d, mode).ticked(d).ticked(
            less,
        ).times_finished_this_tick == 0,
{
    assert(d % d == 0 && d / d == 1) by (nonlinear_arith)
        requires
            d > 0,
    ;
}

/// Elapsed run time that can be paused and reset.
#[derive(Clone, Copy, Debug)]
pub struct Stopwatch {
    pub elapsed_ns: u64,
    pub paused: bool,
}

impl Stopwatch {
    pub fn new() -> (r: Stopwatch)
        ensures
            r.elapsed_ns == 0,
            !r.paused,
    {
        Stopwatch { elapsed_ns: 0, paused: false }
    }

    /// Adds `delta` nanoseconds unless paused (saturating at the maximum).
    pub fn tick(&mut self, delta: u64)
        ensures
            final(self).paused == old(self).paused,
            final(self).elapsed_ns == if old(self).paused {
                old(self).elapsed_ns as int
            } else if old(self).elapsed_ns + delta > u64::MAX {
                u64::MAX as int
            } else {
                old(self).elapsed_ns + delta
            },
    {
        if !self.paused {
            self.elapsed_ns = self.elapsed_ns.saturating_add(delta);
        }
    }

    pub fn pause(&mut self)
        ensures
            final(self).paused,
            final(self).elapsed_ns == old(self).elapsed_ns,
    {
        self.paused = true;
    }

    pub fn unpause(&mut self)
        ensures
            !final(self).paused,
            final(self).elapsed_ns == old(self).elapsed_ns,
    {
        self.paused = false;
    }

    pub fn reset(&mut self)
        ensures
            final(self).elapsed_ns == 0,
            final(self).paused == old(self).paused,
    {
        self.elapsed_ns = 0;
    }
}

} // verus!
