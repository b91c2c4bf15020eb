use vstd::prelude::*;

verus! {

/// Abstract state of a repeating timer: its period, the time elapsed in the
/// current period and how often it completed during the last tick, all in
/// nanoseconds and counts.
pub ghost struct TimerView {
    pub duration: nat,
    pub elapsed: nat,
    pub times_finished: nat,
}

/// What a repeating timer looks like after `delta` nanoseconds have passed:
/// the elapsed time wraps around the period and the number of completed
/// periods is counted (truncated to 32 bits; a zero period completes
/// `u32::MAX` times and stays at zero).
pub open spec fn repeating_tick(duration: nat, elapsed: nat, delta: nat) -> (nat, nat) {
    let total = elapsed + delta;
    if total < duration {
        (total, 0)
    } else if duration == 0 {
        (0, u32::MAX as nat)
    } else {
        ((total % duration) as nat, ((total / duration) as u32) as nat)
    }
}

/// The timer state after a tick of `delta` nanoseconds.
pub open spec fn tick_view(t: TimerView, delta: nat) -> TimerView {
    let (elapsed, times) = repeating_tick(t.duration, t.elapsed, delta);
    TimerView { duration: t.duration, elapsed, times_finished: times }
}

/// Advances a repeating `bevy::time::Timer` of period `duration_ns` that has
/// run `elapsed_ns` nanoseconds into its period by `delta_ns` nanoseconds and
/// reports the new elapsed time and `Timer::times_finished_this_tick`.
/// The contract restates `Timer::tick` for an unpaused repeating timer: the
/// elapsed time wraps around modulo the period, and the number of completed
/// periods is the quotient, cast to `u32`.
#[verifier::external_body]
fn bevy_repeating_tick(duration_ns: u64, elapsed_ns: u64, delta_ns: u64) -> (r: (u64, u32))
    requires
        elapsed_ns + delta_ns <= u64::MAX,
    ensures
        (r.0 as nat, r.1 as nat) == repeating_tick(duration_ns as nat, elapsed_ns as nat, delta_ns as nat),
{
    let mut timer = bevy::time::Timer::new(
        std::time::Duration::from_nanos(duration_ns),
        bevy::time::TimerMode::Repeating,
    );
    timer.set_elapsed(std::time::Duration::from_nanos(elapsed_ns));
    timer.tick(std::time::Duration::from_nanos(delta_ns));
    (timer.elapsed().as_nanos() as u64, timer.times_finished_this_tick())
}

/// A repeating timer measured in nanoseconds, as the game uses for burn
/// damage, flame flicker and water spraying.
pub struct RepeatingTimer {
    duration_ns: u64,
    elapsed_ns: u64,
    times_finished: u32,
}

impl View for RepeatingTimer {
    type V = TimerView;

    closed spec fn view(&self) -> TimerView {
        TimerView {
            duration: self.duration_ns as nat,
            elapsed: self.elapsed_ns as nat,
            times_finished: self.times_finished as nat,
        }
    }
}

impl RepeatingTimer {
    /// Elapsed time always lies inside the current period (and is zero for
    /// a zero period).
    #[verifier::type_invariant]
    closed spec fn inv(self) -> bool {
        if self.duration_ns == 0 {
            self.elapsed_ns == 0
        } else {
            self.elapsed_ns < self.duration_ns
        }
    }

    /// The same invariant, stated over the view for callers.
    pub open spec fn within_period(v: TimerView) -> bool {
        if v.duration == 0 {
            v.elapsed == 0
        } else {
            v.elapsed < v.duration
        }
    }

    /// A fresh timer with period `duration_ns` that has not started yet.
    pub fn new(duration_ns: u64) -> (t: RepeatingTimer)
        ensures
            t@ == (TimerView { duration: duration_ns as nat, elapsed: 0, times_finished: 0 }),
    {
        RepeatingTimer { duration_ns, elapsed_ns: 0, times_finished: 0 }
    }

    /// The period in nanoseconds.
    pub fn duration_ns(&self) -> (d: u64)
        ensures
            d == self@.duration,
    {
        self.duration_ns
    }

    /// The time elapsed in the current period, in nanoseconds.
    pub fn elapsed_ns(&self) -> (e: u64)
        ensures
            e == self@.elapsed,
            Self::within_period(self@),
    {
        proof {
            use_type_invariant(self);
        }
        self.elapsed_ns
    }

    /// How many periods completed during the last tick.
    pub fn times_finished_this_tick(&self) -> (n: u32)
        ensures
            n == self@.times_finished,
    {
        self.times_finished
    }

    /// Whether the timer completed at least one period during the last tick.
    pub fn just_finished(&self) -> (b: bool)
        ensures
            b == (self@.times_finished > 0),
    {
        self.times_finished > 0
    }

    /// Restarts the current period from zero.
    pub fn reset(&mut self)
        ensures
            final(self)@ == (TimerView { duration: old(self)@.duration, elapsed: 0, times_finished: 0 }),
    {
        self.elapsed_ns = 0;
        self.times_finished = 0;
    }

    /// Advances the timer by `delta_ns` nanoseconds.
    pub fn tick(&mut self, delta_ns: u64)
        requires
            old(self)@.elapsed + delta_ns <= u64::MAX,
        ensures
            final(self)@ == tick_view(old(self)@, delta_ns as nat),
            Self::within_period(final(self)@),
    {
        proof {
            use_type_invariant(&*self);
        }
        let (elapsed, times) = bevy_repeating_tick(self.duration_ns, self.elapsed_ns, delta_ns);
        proof {
            let total = self.elapsed_ns + delta_ns;
            if total >= self.duration_ns && self.duration_ns > 0 {
                assert((total % (self.duration_ns as int)) < self.duration_ns);
            }
        }
        self.elapsed_ns = elapsed;
        self.times_finished = times;
    }
}

/// A tick loses no time: the periods it completes plus the new elapsed time
/// add up to the old elapsed time plus the tick, as long as the number of
/// periods fits the 32-bit counter.
pub proof fn law_tick_conserves_time(t: TimerView, delta: nat)
    requires
        t.duration > 0,
        (t.elapsed + delta) / t.duration <= u32::MAX,
    ensures
        tick_view(t, delta).times_finished * t.duration + tick_view(t, delta).elapsed == t.elapsed + delta,
        tick_view(t, delta).elapsed < t.duration || t.elapsed + delta < t.duration,
{
    let total = t.elapsed + delta;
    if total >= t.duration {
        vstd::arithmetic::div_mod::lemma_fundamental_div_mod(total as int, t.duration as int);
        assert(((total / t.duration) as u32) as nat == total / t.duration);
        assert((total / t.duration) * t.duration == t.duration * (total / t.duration)) by (nonlinear_arith);
    }
}

/// Abstract state of a one-shot timer: its duration, the time elapsed so
/// far (never beyond the duration) and whether it has run out.
pub ghost struct OnceTimerView {
    pub duration: nat,
    pub elapsed: nat,
    pub finished: bool,
}

/// The one-shot timer state after a tick of `delta` nanoseconds: elapsed
/// time stops at the duration, and the timer is finished once it gets there.
pub open spec fn once_tick_view(t: OnceTimerView, delta: nat) -> OnceTimerView {
    OnceTimerView {
        duration: t.duration,
        elapsed: if t.elapsed + delta >= t.duration { t.duration } else { t.elapsed + delta },
        finished: t.elapsed + delta >= t.duration,
    }
}

/// Advances a one-shot `bevy::time::Timer` of duration `duration_ns` that
/// has run `elapsed_ns` nanoseconds by `delta_ns` nanoseconds and reports
/// the new elapsed time and `Timer::is_finished`. The contract restates
/// `Timer::tick` for an unpaused one-shot timer: the elapsed time grows and
/// stops at the duration, and the timer is finished once it gets there.
#[verifier::external_body]
fn bevy_once_tick(duration_ns: u64, elapsed_ns: u64, delta_ns: u64) -> (r: (u64, bool))
    requires
        elapsed_ns + delta_ns <= u64::MAX,
    ensures
        r.0 == (if elapsed_ns + delta_ns >= duration_ns { duration_ns as int } else { elapsed_ns + delta_ns }),
        r.1 == (elapsed_ns + delta_ns >= duration_ns),
{
    let mut timer = bevy::time::Timer::new(
        std::time::Duration::from_nanos(duration_ns),
        bevy::time::TimerMode::Once,
    );
    timer.set_elapsed(std::time::Duration::from_nanos(elapsed_ns));
    timer.tick(std::time::Duration::from_nanos(delta_ns));
    (timer.elapsed().as_nanos() as u64, timer.is_finished())
}

/// A one-shot timer measured in nanoseconds, as a water bubble's lifetime.
#[derive(Debug, PartialEq, Eq)]
pub struct OnceTimer {
    duration_ns: u64,
    elapsed_ns: u64,
    finished: bool,
}

impl View for OnceTimer {
    type V = OnceTimerView;

    closed spec fn view(&self) -> OnceTimerView {
        OnceTimerView {
            duration: self.duration_ns as nat,
            elapsed: self.elapsed_ns as nat,
            finished: self.finished,
        }
    }
}

impl OnceTimer {
    /// The elapsed time never passes the duration, and a finished timer has
    /// run its whole duration.
    #[verifier::type_invariant]
    closed spec fn inv(self) -> bool {
        &&& self.elapsed_ns <= self.duration_ns
        &&& self.finished ==> self.elapsed_ns == self.duration_ns
    }

    /// A fresh timer of `duration_ns` nanoseconds that has not started yet.
    pub fn new(duration_ns: u64) -> (t: OnceTimer)
        ensures
            t@ == (OnceTimerView { duration: duration_ns as nat, elapsed: 0, finished: false }),
    {
        OnceTimer { duration_ns, elapsed_ns: 0, finished: false }
    }

    /// The time elapsed so far, in nanoseconds.
    pub fn elapsed_ns(&self) -> (e: u64)
        ensures
            e == self@.elapsed,
            e <= self@.duration,
    {
        proof {
            use_type_invariant(self);
        }
        self.elapsed_ns
    }

    /// Whether the timer has run out.
    pub fn is_finished(&self) -> (b: bool)
        ensures
            b == self@.finished,
    {
        self.finished
    }

    /// Advances the timer by `delta_ns` nanoseconds: the elapsed time stops
    /// at the duration, where the timer is finished.
    pub fn tick(&mut self, delta_ns: u64)
        requires
            old(self)@.elapsed + delta_ns <= u64::MAX,
        ensures
            final(self)@ == once_tick_view(old(self)@, delta_ns as nat),
    {
        let (elapsed, finished) = bevy_once_tick(self.duration_ns, self.elapsed_ns, delta_ns);
        *self = OnceTimer { duration_ns: self.duration_ns, elapsed_ns: elapsed, finished };
    }

    /// Ticks a lifetime by `delta_ns` nanoseconds and says whether it has
    /// run out, as each water bubble does every frame.
    pub fn expired_after(&mut self, delta_ns: u64) -> (expired: bool)
        requires
            old(self)@.elapsed + delta_ns <= u64::MAX,
        ensures
            final(self)@ == once_tick_view(old(self)@, delta_ns as nat),
            expired == (old(self)@.elapsed + delta_ns >= old(self)@.duration),
            expired == final(self)@.finished,
    {
        self.tick(delta_ns);
        self.is_finished()
    }
}

/// Once a one-shot timer has run out it stays run out, whatever later ticks
/// bring.
pub proof fn law_once_timer_stays_finished(t: OnceTimerView, delta: nat)
    requires
        t.finished,
        t.elapsed == t.duration,
    ensures
        once_tick_view(t, delta) == t,
{
}

} // verus!
