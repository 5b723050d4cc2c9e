//! Elapsed-time counters that drive automatic descent, fast drop and the
//! blink of full rows. Times are whole microseconds.

use vstd::prelude::*;

verus! {

/// A repeating timer that reports, on each tick, whether its period came
/// round; it can be paused.
#[derive(Debug, Clone, Copy)]
pub struct RepeatTimer {
    pub duration: u64,
    pub elapsed: u64,
    pub paused: bool,
    pub finished: bool,
}

impl RepeatTimer {
    pub open spec fn wf(&self) -> bool {
        self.duration > 0 && self.elapsed < self.duration
    }

    /// A running timer with period `duration`, at zero.
    pub open spec fn new_spec(duration: u64) -> Self {
        RepeatTimer { duration, elapsed: 0, paused: false, finished: false }
    }

    pub fn new(duration: u64) -> (r: Self)
        requires
            duration > 0,
        ensures
            r.wf(),
            r == Self::new_spec(duration),
    {
        RepeatTimer { duration, elapsed: 0, paused: false, finished: false }
    }

    /// The timer after a tick of `delta`.
    pub open spec fn ticked(self, delta: u64) -> RepeatTimer {
        if self.paused {
            RepeatTimer { finished: false, ..self }
        } else {
            RepeatTimer {
                elapsed: ((self.elapsed + delta) % (self.duration as int)) as u64,
                finished: self.elapsed + delta >= self.duration,
                ..self
            }
        }
    }

    /// Advances a running timer by `delta`; it has finished in this tick
    /// when the period came round, and keeps the remainder.
    pub fn tick(&mut self, delta: u64)
        requires
            old(self).wf(),
        ensures
            final(self).wf(),
            final(self).duration == old(self).duration,
            final(self).paused == old(self).paused,
            old(self).paused ==> final(self).elapsed == old(self).elapsed && !final(self).finished,
            !old(self).paused ==> final(self).finished == (old(self).elapsed + delta >= old(self).duration)
                && final(self).elapsed == (old(self).elapsed + delta) % (old(self).duration as int),
            *final(self) == old(self).ticked(delta),
    {
        if self.paused {
            self.finished = false;
            return;
        }
        let room = self.duration - self.elapsed;
        if delta >= room {
            proof {
                assert((self.elapsed + delta) % (self.duration as int) == (delta - room) % (self.duration as int)) by {
                    vstd::arithmetic::div_mod::lemma_mod_sub_multiples_vanish(
                        (self.elapsed + delta) as int,
                        self.duration as int,
                    );
                }
            }
            self.elapsed = (delta - room) % self.duration;
            self.finished = true;
        } else {
            proof {
                vstd::arithmetic::div_mod::lemma_small_mod((self.elapsed + delta) as nat, self.duration as nat);
            }
            self.elapsed = self.elapsed + delta;
            self.finished = false;
        }
    }

    /// Whether the last tick completed a period.
    pub fn is_finished(&self) -> (r: bool)
        ensures
            r == self.finished,
    {
        self.finished
    }

    pub fn pause(&mut self)
        ensures
            *final(self) == (RepeatTimer { paused: true, ..*old(self) }),
    {
        self.paused = true;
    }

    pub fn unpause(&mut self)
        ensures
            *final(self) == (RepeatTimer { paused: false, ..*old(self) }),
    {
        self.paused = false;
    }
}

/// A timer that, once started, fires at most once per update whenever
/// `interval` has elapsed, until it has fired `max_steps` times.
#[derive(Debug, Clone, Copy)]
pub struct CountDownTimer {
    pub interval: u64,
    pub max_steps: u32,
    pub steps: u32,
    pub elapsed: u64,
    pub running: bool,
}

impl CountDownTimer {
    pub open spec fn wf(&self) -> bool {
        self.interval > 0 && self.elapsed < self.interval && self.steps <= self.max_steps
    }

    /// A stopped timer at zero.
    pub open spec fn new_spec(interval: u64, max_steps: u32) -> Self {
        CountDownTimer { interval, max_steps, steps: 0, elapsed: 0, running: false }
    }

    pub fn new(interval: u64, max_steps: u32) -> (r: Self)
        requires
            interval > 0,
        ensures
            r.wf(),
            r == Self::new_spec(interval, max_steps),
    {
        CountDownTimer { interval, max_steps, steps: 0, elapsed: 0, running: false }
    }

    /// Starts counting from zero steps.
    pub fn start(&mut self)
        requires
            old(self).wf(),
        ensures
            *final(self) == old(self).started(),
            final(self).wf(),
    {
        self.steps = 0;
        self.elapsed = 0;
        self.running = true;
    }

    /// Stops and resets the timer.
    pub fn stop(&mut self)
        requires
            old(self).wf(),
        ensures
            *final(self) == old(self).stopped(),
            final(self).wf(),
    {
        self.steps = 0;
        self.elapsed = 0;
        self.running = false;
    }

    /// The timer started from zero steps.
    pub open spec fn started(self) -> CountDownTimer {
        CountDownTimer { steps: 0, elapsed: 0, running: true, ..self }
    }

    /// The timer stopped and reset.
    pub open spec fn stopped(self) -> CountDownTimer {
        CountDownTimer { steps: 0, elapsed: 0, running: false, ..self }
    }

    /// The timer after an update by `delta`.
    pub open spec fn updated(self, delta: u64) -> CountDownTimer {
        if !self.running || self.steps >= self.max_steps {
            self
        } else if self.elapsed + delta >= self.interval {
            CountDownTimer {
                steps: (self.steps + 1) as u32,
                elapsed: ((self.elapsed + delta - self.interval) % (self.interval as int)) as u64,
                ..self
            }
        } else {
            CountDownTimer { elapsed: (self.elapsed + delta) as u64, ..self }
        }
    }

    /// Whether an update by `delta` fires a step.
    pub open spec fn fires(&self, delta: u64) -> bool {
        self.running && self.steps < self.max_steps && self.elapsed + delta >= self.interval
    }

    /// Whether a started timer has fired all its steps.
    pub open spec fn finished(&self) -> bool {
        self.running && self.steps >= self.max_steps
    }

    pub fn is_finished(&self) -> (r: bool)
        ensures
            r == self.finished(),
    {
        self.running && self.steps >= self.max_steps
    }

    /// Advances the timer by `delta`; returns whether it fired a step.
    pub fn update(&mut self, delta: u64) -> (fired: bool)
        requires
            old(self).wf(),
        ensures
            final(self).wf(),
            final(self).interval == old(self).interval,
            final(self).max_steps == old(self).max_steps,
            final(self).running == old(self).running,
            fired == old(self).fires(delta),
            *final(self) == old(self).updated(delta),
            !old(self).running || old(self).steps >= old(self).max_steps ==> *final(self) == *old(self),
            old(self).running && old(self).steps < old(self).max_steps ==> {
                &&& fired == (old(self).elapsed + delta >= old(self).interval)
                &&& final(self).steps == if fired { old(self).steps + 1 } else { old(self).steps as int }
                &&& final(self).elapsed == if fired {
                    (old(self).elapsed + delta - old(self).interval) % (old(self).interval as int)
                } else {
                    old(self).elapsed + delta
                }
            },
    {
        if !self.running || self.steps >= self.max_steps {
            return false;
        }
        let room = self.interval - self.elapsed;
        if delta >= room {
            self.elapsed = (delta - room) % self.interval;
            self.steps = self.steps + 1;
            true
        } else {
            self.elapsed = self.elapsed + delta;
            false
        }
    }
}

} // verus!
