//! Pacing of one spun routine: when its next invocation is owed, and when
//! the spin is over.
use vstd::prelude::*;
use crate::rate::{Rate, RateError};

verus! {

/// Nanoseconds between two looks at an on-demand trigger that is not set.
pub const POLL_INTERVAL: u64 = 1_000_000;

/// How a spun routine is paced.
#[derive(Clone, Copy, Debug, PartialEq, Eq)]
pub enum SpinMode {
    /// Invoke again as soon as the previous invocation returns.
    Freewheel,
    /// Invoke on the beats of a rate, counted from the start of the spin.
    Frequency(Rate),
    /// Invoke when the trigger is set, `Some(())`. A set trigger pays for
    /// one invocation: whoever reports it set clears it.
    Ondemand(Option<()>),
}

impl Default for SpinMode {
    fn default() -> (mode: SpinMode)
        ensures
            mode == SpinMode::Freewheel,
    {
        SpinMode::Freewheel
    }
}

impl SpinMode {
    /// The mode that invokes `millihertz` thousandths of a time per second.
    /// Zero and negative rates are refused.
    pub fn frequency(millihertz: i64) -> (made: Result<SpinMode, RateError>)
        ensures
            millihertz <= 0 ==> made == Err::<SpinMode, RateError>(RateError::NegativeOrZeroRate),
            millihertz > 0 ==> (made matches Ok(SpinMode::Frequency(rate)) && rate@ == millihertz),
    {
        match Rate::new(millihertz) {
            Ok(rate) => Ok(SpinMode::Frequency(rate)),
            Err(refused) => Err(refused),
        }
    }
}

/// What the spinning thread does next.
#[derive(Clone, Copy, Debug, PartialEq, Eq, Structural)]
pub enum Pace {
    /// Sleep for `wait` nanoseconds, then invoke the routine.
    Invoke { wait: u64 },
    /// Sleep for `wait` nanoseconds, then ask for the mode again.
    Poll { wait: u64 },
    /// The routine has said stop: leave the loop.
    Halt,
}

/// A `Pace` with unbounded waits.
pub enum PaceView {
    Invoke { wait: nat },
    Poll { wait: nat },
    Halt,
}

impl View for Pace {
    type V = PaceView;

    open spec fn view(&self) -> PaceView {
        match *self {
            Pace::Invoke { wait } => PaceView::Invoke { wait: wait as nat },
            Pace::Poll { wait } => PaceView::Poll { wait: wait as nat },
            Pace::Halt => PaceView::Halt,
        }
    }
}

/// Nanoseconds from `now` until `deadline`; zero when the deadline has passed.
pub open spec fn wait_until(deadline: nat, now: nat) -> nat {
    if deadline > now {
        (deadline - now) as nat
    } else {
        0
    }
}

/// The pacing state of a spin as a mathematical value.
pub struct SpinView {
    /// The beat on which the next fixed-frequency invocation falls.
    pub next_call: nat,
    /// Whether the routine has said stop.
    pub stopped: bool,
}

impl SpinView {
    /// The state of a spin that starts at `now`.
    pub open spec fn starting(now: nat) -> SpinView {
        SpinView { next_call: now, stopped: false }
    }

    /// What a spin in this state does next under `mode` at instant `now`.
    pub open spec fn pace(self, mode: SpinMode, now: nat) -> PaceView {
        if self.stopped {
            PaceView::Halt
        } else {
            match mode {
                SpinMode::Freewheel => PaceView::Invoke { wait: 0 },
                SpinMode::Frequency(_) => PaceView::Invoke {
                    wait: wait_until(self.next_call, now),
                },
                SpinMode::Ondemand(Some(_)) => PaceView::Invoke { wait: 0 },
                SpinMode::Ondemand(None) => PaceView::Poll { wait: POLL_INTERVAL as nat },
            }
        }
    }

    /// The state after pacing once under `mode`: a fixed-frequency pace
    /// moves the beat on by one period, whatever the clock says; nothing
    /// else changes anything.
    pub open spec fn paced(self, mode: SpinMode) -> SpinView {
        if self.stopped {
            self
        } else {
            match mode {
                SpinMode::Frequency(rate) => SpinView {
                    next_call: self.next_call + rate.spec_period(),
                    stopped: false,
                },
                _ => self,
            }
        }
    }

    /// Whether a pace under `mode` keeps the beat within `u64`. Only a
    /// fixed-frequency pace of a spin that goes on moves the beat.
    pub open spec fn can_pace(self, mode: SpinMode) -> bool {
        self.stopped || !(mode is Frequency) || self.paced(mode).next_call <= u64::MAX
    }

    /// Whether `pace` and `after` are the answer and the state of a spin in
    /// this state that was to be paced under `mode` at instant `now`: those
    /// of `pace` and `paced` where the beat stays within `u64`, and
    /// otherwise no answer and the state as it was.
    pub open spec fn paces_to(
        self,
        mode: SpinMode,
        now: nat,
        pace: Option<Pace>,
        after: SpinView,
    ) -> bool {
        if self.can_pace(mode) {
            pace.is_some() && pace.unwrap()@ == self.pace(mode, now) && after == self.paced(mode)
        } else {
            pace.is_none() && after == self
        }
    }

    /// The state after the routine returned `outcome`: `None` stops the spin.
    pub open spec fn settled(self, outcome: Option<()>) -> SpinView {
        SpinView { next_call: self.next_call, stopped: self.stopped || outcome.is_none() }
    }

    /// The instant at which an invocation paced at `now` under `mode`
    /// begins, if the sleep is exact.
    pub open spec fn invoked_at(self, mode: SpinMode, now: nat) -> nat {
        match self.pace(mode, now) {
            PaceView::Invoke { wait } => now + wait,
            _ => now,
        }
    }
}

/// The pacing state of one spun routine.
#[derive(Clone, Copy, Debug, PartialEq, Eq, Structural)]
pub struct Spin {
    next_call: u64,
    stopped: bool,
}

impl View for Spin {
    type V = SpinView;

    closed spec fn view(&self) -> SpinView {
        SpinView { next_call: self.next_call as nat, stopped: self.stopped }
    }
}

impl Spin {
    /// The state of a spin that starts at `now`: the first beat is `now`.
    pub fn new(now: u64) -> (spin: Spin)
        ensures
            spin@ == SpinView::starting(now as nat),
    {
        Spin { next_call: now, stopped: false }
    }

    /// The beat on which the next fixed-frequency invocation falls.
    pub fn next_call(&self) -> (beat: u64)
        ensures
            beat == self@.next_call,
    {
        self.next_call
    }

    /// Whether the routine has said stop.
    pub fn is_stopped(&self) -> (stopped: bool)
        ensures
            stopped == self@.stopped,
    {
        self.stopped
    }

    /// Whether a pace under `mode` keeps the beat within `u64`.
    pub fn can_pace(&self, mode: &SpinMode) -> (fits: bool)
        ensures
            fits == self@.can_pace(*mode),
    {
        if self.stopped {
            return true;
        }
        match mode {
            SpinMode::Frequency(rate) => self.next_call <= u64::MAX - rate.period(),
            _ => true,
        }
    }

    /// Decides what the spinning thread does before the next invocation,
    /// given the mode just read and the clock reading `now`.
    ///
    /// Under a fixed frequency the wait lasts until the current beat, and is
    /// zero when that beat has passed; the beat then moves on by exactly one
    /// period, so that lateness never shifts the beats that follow.
    pub fn pace(&mut self, mode: &SpinMode, now: u64) -> (pace: Pace)
        requires
            old(self)@.can_pace(*mode),
        ensures
            pace@ == old(self)@.pace(*mode, now as nat),
            final(self)@ == old(self)@.paced(*mode),
    {
        if self.stopped {
            return Pace::Halt;
        }
        match mode {
            SpinMode::Freewheel => Pace::Invoke { wait: 0 },
            SpinMode::Frequency(rate) => {
                let wait: u64 = if self.next_call > now {
                    self.next_call - now
                } else {
                    0
                };
                self.next_call = self.next_call + rate.period();
                Pace::Invoke { wait }
            },
            SpinMode::Ondemand(Some(_)) => Pace::Invoke { wait: 0 },
            SpinMode::Ondemand(None) => Pace::Poll { wait: POLL_INTERVAL },
        }
    }

    /// Takes note of what the routine returned. `None` stops the spin for
    /// good. Returns whether the spin goes on.
    pub fn settle(&mut self, outcome: Option<()>) -> (goes_on: bool)
        ensures
            final(self)@ == old(self)@.settled(outcome),
            goes_on == !final(self)@.stopped,
    {
        if outcome.is_none() {
            self.stopped = true;
        }
        !self.stopped
    }
}

/// The state after `beats` fixed-frequency paces at `rate`, one after the
/// other, starting from `spin`.
pub open spec fn spun(spin: SpinView, rate: Rate, beats: nat) -> SpinView
    decreases beats,
{
    if beats == 0 {
        spin
    } else {
        spun(spin, rate, (beats - 1) as nat).paced(SpinMode::Frequency(rate))
    }
}

/// Something that happens to a spin: it is paced under a mode, or the
/// routine returns.
pub enum SpinEvent {
    Paced(SpinMode),
    Settled(Option<()>),
}

/// The state after `events` have happened to `spin`, in order.
pub open spec fn after(spin: SpinView, events: Seq<SpinEvent>) -> SpinView
    decreases events.len(),
{
    if events.len() == 0 {
        spin
    } else {
        let before = after(spin, events.drop_last());
        match events.last() {
            SpinEvent::Paced(mode) => before.paced(mode),
            SpinEvent::Settled(outcome) => before.settled(outcome),
        }
    }
}

/// Phase lock. A spin that starts at `start` and runs at a fixed `rate` has
/// its beat number `k` at `start + k * period`, whatever the clock read
/// at the paces before it. An invocation paced no later than its beat
/// begins exactly on the beat, so lateness does not add up.
pub proof fn lemma_phase_lock(start: nat, rate: Rate, k: nat, now: nat)
    ensures
        spun(SpinView::starting(start), rate, k).next_call == start + k * rate.spec_period(),
        !spun(SpinView::starting(start), rate, k).stopped,
        now <= start + k * rate.spec_period() ==> spun(
            SpinView::starting(start),
            rate,
            k,
        ).invoked_at(SpinMode::Frequency(rate), now) == start + k * rate.spec_period(),
    decreases k,
{
    let period = rate.spec_period();
    if k > 0 {
        lemma_phase_lock(start, rate, (k - 1) as nat, now);
        assert(start + (k - 1) * period + period == start + k * period) by (nonlinear_arith);
    } else {
        assert(start + 0 * period == start) by (nonlinear_arith);
    }
}

/// Overrun absorption. When the clock is read at `later`, more than one
/// period after the previous invocation began, the next invocation is owed
/// at once, and the beat still moves on by exactly one period for each
/// pace: it is not set back to the clock.
pub proof fn lemma_overrun_absorbed(spin: SpinView, rate: Rate, now: nat, later: nat)
    requires
        !spin.stopped,
        later > spin.invoked_at(SpinMode::Frequency(rate), now) + rate.spec_period(),
    ensures
        spin.paced(SpinMode::Frequency(rate)).pace(SpinMode::Frequency(rate), later)
            == (PaceView::Invoke { wait: 0 }),
        spin.paced(SpinMode::Frequency(rate)).paced(SpinMode::Frequency(rate)).next_call
            == spin.next_call + 2 * rate.spec_period(),
{
}

/// Termination. Once the routine has returned `None`, the spin is stopped
/// whatever happens to it afterwards, and every later pace says halt: the
/// routine is never invoked again.
pub proof fn lemma_stop_is_final(spin: SpinView, events: Seq<SpinEvent>, mode: SpinMode, now: nat)
    ensures
        after(spin.settled(None), events) == spin.settled(None),
        after(spin.settled(None), events).pace(mode, now) == PaceView::Halt,
    decreases events.len(),
{
    if events.len() > 0 {
        lemma_stop_is_final(spin, events.drop_last(), mode, now);
    }
}

} // verus!
