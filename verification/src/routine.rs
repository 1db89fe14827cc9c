//! Routines that can be spun, and the handles through which a thread spins
//! them.
//!
//! A routine comes in one of two shapes. A `SpinWise` routine shares its
//! state as it is and locks the fields that it touches itself. A
//! `SpinWhole` routine, or a `Freewheel` one, has its whole state behind one
//! lock. Either way the same loop spins it: ask for the mode, pace, invoke,
//! until the routine says stop.
use vstd::prelude::*;
use std::sync::{Arc, RwLock};
use crate::lock::shared;
use crate::spin::{Pace, Spin, SpinMode, SpinView};

verus! {

/// A routine that is spun against its own state, with the state's fields
/// locked one by one by the routine itself.
pub trait SpinWise: Sized + Sync + Send + 'static {
    /// How the routine wants to be paced right now. Asked before every
    /// invocation; freewheel unless overridden.
    fn spin_mode(&self) -> (mode: SpinMode)
        default_ensures
            mode == SpinMode::Freewheel,
    {
        SpinMode::Freewheel
    }

    /// One invocation of the routine, on the shared handle to its state.
    /// `None` stops the spin.
    fn main(self: &Arc<Self>) -> Option<()>;

    /// Starts a spin of `self` at instant `now`. Returns the caller's handle
    /// to the shared state and the spinner for the thread that is to drive
    /// the spin, both on the same state.
    fn spin(self, now: u64) -> (started: (Arc<Self>, Spinner<Self>))
        ensures
            *started.0 == self,
            started.1.routine() == started.0,
            started.1@ == SpinView::starting(now as nat),
    {
        let owned = Arc::new(self);
        let spinner = Spinner { routine: owned.clone(), spin: Spin::new(now) };
        (owned, spinner)
    }
}

/// One spun routine together with its pacing state: what the spinning
/// thread holds.
pub struct Spinner<S> {
    routine: Arc<S>,
    spin: Spin,
}

impl<S> Spinner<S> {
    /// The handle to the routine's state.
    pub closed spec fn routine(&self) -> Arc<S> {
        self.routine
    }

    /// The pacing state.
    pub closed spec fn view(&self) -> SpinView {
        self.spin@
    }

    /// The beat on which the next fixed-frequency invocation falls.
    pub fn next_call(&self) -> (beat: u64)
        ensures
            beat == self@.next_call,
    {
        self.spin.next_call()
    }

    /// Whether the routine has said stop.
    pub fn is_stopped(&self) -> (stopped: bool)
        ensures
            stopped == self@.stopped,
    {
        self.spin.is_stopped()
    }
}

impl<S: SpinWise> Spinner<S> {
    /// Decides what to do before the next invocation, given the clock
    /// reading `now`.
    ///
    /// A spin that is over halts, and the routine is not asked. Otherwise
    /// the routine is asked for its mode, and the answer and the new state
    /// are those of `Spin::pace` under the mode that it reported. There is
    /// no answer, and nothing changes, when that mode is a fixed frequency
    /// and the beat cannot be moved on within `u64`.
    pub fn pace(&mut self, now: u64) -> (pace: Option<Pace>)
        ensures
            old(self)@.stopped ==> pace == Some(Pace::Halt) && final(self)@ == old(self)@,
            !old(self)@.stopped ==> exists|mode: SpinMode|
                call_ensures(S::spin_mode, (&*old(self).routine(),), mode) && #[trigger] old(
                    self,
                )@.paces_to(mode, now as nat, pace, final(self)@),
            final(self).routine() == old(self).routine(),
    {
        if self.spin.is_stopped() {
            return Some(Pace::Halt);
        }
        let mode = self.routine.spin_mode();
        if !self.spin.can_pace(&mode) {
            proof {
                assert(old(self)@.paces_to(mode, now as nat, None, self@));
            }
            return None;
        }
        let pace = self.spin.pace(&mode, now);
        proof {
            assert(old(self)@.paces_to(mode, now as nat, Some(pace), self@));
        }
        Some(pace)
    }

    /// Invokes the routine once, unless the spin is over, and takes note of
    /// what it returned. Returns whether the spin goes on. Once the
    /// routine has returned `None` it is never invoked again.
    pub fn invoke(&mut self) -> (goes_on: bool)
        ensures
            old(self)@.stopped ==> !goes_on && final(self)@ == old(self)@,
            !old(self)@.stopped ==> exists|outcome: Option<()>|
                call_ensures(S::main, (&old(self).routine(),), outcome) && final(self)@
                    == #[trigger] old(self)@.settled(outcome),
            goes_on == !final(self)@.stopped,
            final(self).routine() == old(self).routine(),
    {
        if self.spin.is_stopped() {
            return false;
        }
        let outcome = self.routine.main();
        let goes_on = self.spin.settle(outcome);
        proof {
            assert(self@ == old(self)@.settled(outcome));
        }
        goes_on
    }
}

/// A routine that is spun against its whole state under one lock.
pub trait SpinWhole: Sized + Sync + Send + 'static {
    /// How the routine wants to be paced right now. Asked before every
    /// invocation; freewheel unless overridden.
    fn spin_mode(this: &Arc<RwLock<Self>>) -> (mode: SpinMode)
        default_ensures
            mode == SpinMode::Freewheel,
    {
        SpinMode::Freewheel
    }

    /// One invocation of the routine on the whole state behind its lock.
    /// `None` stops the spin.
    fn main(this: &Arc<RwLock<Self>>) -> Option<()>;

    /// Puts `initialized` behind a lock and starts a spin of it at instant
    /// `now`. Returns the caller's handle to the lock, which is the one that
    /// `shared` makes around `initialized`, and the spinner for the thread
    /// that is to drive the spin, both on the same lock.
    fn spin(initialized: Self, now: u64) -> (started: (Arc<RwLock<Self>>, WholeSpinner<Self>))
        ensures
            call_ensures(shared, (initialized,), started.0),
            started.1.state() == started.0,
            started.1@ == SpinView::starting(now as nat),
    {
        let object = shared(initialized);
        let spinner = WholeSpinner { state: object.clone(), spin: Spin::new(now) };
        (object, spinner)
    }

    /// As `spin`, on the default state.
    fn spin_default(now: u64) -> (started: (Arc<RwLock<Self>>, WholeSpinner<Self>)) where
        Self: Default,

        ensures
            exists|initial: Self|
                call_ensures(Self::default, (), initial) && #[trigger] call_ensures(
                    shared,
                    (initial,),
                    started.0,
                ),
            started.1.state() == started.0,
            started.1@ == SpinView::starting(now as nat),
    {
        Self::spin(Self::default(), now)
    }
}

/// One routine spun on its whole state, together with its pacing state:
/// what the spinning thread holds.
#[verifier::reject_recursive_types(S)]
pub struct WholeSpinner<S> {
    state: Arc<RwLock<S>>,
    spin: Spin,
}

impl<S> WholeSpinner<S> {
    /// The handle to the lock around the routine's state.
    pub closed spec fn state(&self) -> Arc<RwLock<S>> {
        self.state
    }

    /// The pacing state.
    pub closed spec fn view(&self) -> SpinView {
        self.spin@
    }

    /// The beat on which the next fixed-frequency invocation falls.
    pub fn next_call(&self) -> (beat: u64)
        ensures
            beat == self@.next_call,
    {
        self.spin.next_call()
    }

    /// Whether the routine has said stop.
    pub fn is_stopped(&self) -> (stopped: bool)
        ensures
            stopped == self@.stopped,
    {
        self.spin.is_stopped()
    }
}

impl<S: SpinWhole> WholeSpinner<S> {
    /// Decides what to do before the next invocation, given the clock
    /// reading `now`.
    ///
    /// A spin that is over halts, and the routine is not asked. Otherwise
    /// the routine is asked for its mode, and the answer and the new state
    /// are those of `Spin::pace` under the mode that it reported. There is
    /// no answer, and nothing changes, when that mode is a fixed frequency
    /// and the beat cannot be moved on within `u64`.
    pub fn pace(&mut self, now: u64) -> (pace: Option<Pace>)
        ensures
            old(self)@.stopped ==> pace == Some(Pace::Halt) && final(self)@ == old(self)@,
            !old(self)@.stopped ==> exists|mode: SpinMode|
                call_ensures(S::spin_mode, (&old(self).state(),), mode) && #[trigger] old(
                    self,
                )@.paces_to(mode, now as nat, pace, final(self)@),
            final(self).state() == old(self).state(),
    {
        if self.spin.is_stopped() {
            return Some(Pace::Halt);
        }
        let mode = S::spin_mode(&self.state);
        if !self.spin.can_pace(&mode) {
            proof {
                assert(old(self)@.paces_to(mode, now as nat, None, self@));
            }
            return None;
        }
        let pace = self.spin.pace(&mode, now);
        proof {
            assert(old(self)@.paces_to(mode, now as nat, Some(pace), self@));
        }
        Some(pace)
    }

    /// Invokes the routine once, unless the spin is over, and takes note of
    /// what it returned. Returns whether the spin goes on. Once the
    /// routine has returned `None` it is never invoked again.
    pub fn invoke(&mut self) -> (goes_on: bool)
        ensures
            old(self)@.stopped ==> !goes_on && final(self)@ == old(self)@,
            !old(self)@.stopped ==> exists|outcome: Option<()>|
                call_ensures(S::main, (&old(self).state(),), outcome) && final(self)@
                    == #[trigger] old(self)@.settled(outcome),
            goes_on == !final(self)@.stopped,
            final(self).state() == old(self).state(),
    {
        if self.spin.is_stopped() {
            return false;
        }
        let outcome = S::main(&self.state);
        let goes_on = self.spin.settle(outcome);
        proof {
            assert(self@ == old(self)@.settled(outcome));
        }
        goes_on
    }
}

/// A routine that is spun against its whole state under one lock, and whose
/// state has a default to start from.
pub trait Freewheel: Default + Send + Sync + 'static {
    /// How the routine wants to be paced right now. Asked before every
    /// invocation; freewheel unless overridden.
    fn spin_mode(this: &Arc<RwLock<Self>>) -> (mode: SpinMode)
        default_ensures
            mode == SpinMode::Freewheel,
    {
        SpinMode::Freewheel
    }

    /// One invocation of the routine on the whole state behind its lock.
    /// `None` stops the spin.
    fn main(this: &Arc<RwLock<Self>>) -> Option<()>;

    /// Puts `initialized` behind a lock and starts a spin of it at instant
    /// `now`. Returns the caller's handle to the lock, which is the one that
    /// `shared` makes around `initialized`, and the spinner for the thread
    /// that is to drive the spin, both on the same lock.
    fn freewheel(initialized: Self, now: u64) -> (started: (
        Arc<RwLock<Self>>,
        FreewheelSpinner<Self>,
    ))
        ensures
            call_ensures(shared, (initialized,), started.0),
            started.1.state() == started.0,
            started.1@ == SpinView::starting(now as nat),
    {
        let object = shared(initialized);
        let spinner = FreewheelSpinner { state: object.clone(), spin: Spin::new(now) };
        (object, spinner)
    }

    /// As `freewheel`, on the default state.
    fn freewheelDefault(now: u64) -> (started: (Arc<RwLock<Self>>, FreewheelSpinner<Self>))
        ensures
            exists|initial: Self|
                call_ensures(Self::default, (), initial) && #[trigger] call_ensures(
                    shared,
                    (initial,),
                    started.0,
                ),
            started.1.state() == started.0,
            started.1@ == SpinView::starting(now as nat),
    {
        Self::freewheel(Self::default(), now)
    }
}

/// One freewheeling routine together with its pacing state: what the
/// spinning thread holds.
#[verifier::reject_recursive_types(S)]
pub struct FreewheelSpinner<S> {
    state: Arc<RwLock<S>>,
    spin: Spin,
}

impl<S> FreewheelSpinner<S> {
    /// The handle to the lock around the routine's state.
    pub closed spec fn state(&self) -> Arc<RwLock<S>> {
        self.state
    }

    /// The pacing state.
    pub closed spec fn view(&self) -> SpinView {
        self.spin@
    }

    /// The beat on which the next fixed-frequency invocation falls.
    pub fn next_call(&self) -> (beat: u64)
        ensures
            beat == self@.next_call,
    {
        self.spin.next_call()
    }

    /// Whether the routine has said stop.
    pub fn is_stopped(&self) -> (stopped: bool)
        ensures
            stopped == self@.stopped,
    {
        self.spin.is_stopped()
    }
}

impl<S: Freewheel> FreewheelSpinner<S> {
    /// Decides what to do before the next invocation, given the clock
    /// reading `now`.
    ///
    /// A spin that is over halts, and the routine is not asked. Otherwise
    /// the routine is asked for its mode, and the answer and the new state
    /// are those of `Spin::pace` under the mode that it reported. There is
    /// no answer, and nothing changes, when that mode is a fixed frequency
    /// and the beat cannot be moved on within `u64`.
    pub fn pace(&mut self, now: u64) -> (pace: Option<Pace>)
        ensures
            old(self)@.stopped ==> pace == Some(Pace::Halt) && final(self)@ == old(self)@,
            !old(self)@.stopped ==> exists|mode: SpinMode|
                call_ensures(S::spin_mode, (&old(self).state(),), mode) && #[trigger] old(
                    self,
                )@.paces_to(mode, now as nat, pace, final(self)@),
            final(self).state() == old(self).state(),
    {
        if self.spin.is_stopped() {
            return Some(Pace::Halt);
        }
        let mode = S::spin_mode(&self.state);
        if !self.spin.can_pace(&mode) {
            proof {
                assert(old(self)@.paces_to(mode, now as nat, None, self@));
            }
            return None;
        }
        let pace = self.spin.pace(&mode, now);
        proof {
            assert(old(self)@.paces_to(mode, now as nat, Some(pace), self@));
        }
        Some(pace)
    }

    /// Invokes the routine once, unless the spin is over, and takes note of
    /// what it returned. Returns whether the spin goes on. Once the
    /// routine has returned `None` it is never invoked again.
    pub fn invoke(&mut self) -> (goes_on: bool)
        ensures
            old(self)@.stopped ==> !goes_on && final(self)@ == old(self)@,
            !old(self)@.stopped ==> exists|outcome: Option<()>|
                call_ensures(S::main, (&old(self).state(),), outcome) && final(self)@
                    == #[trigger] old(self)@.settled(outcome),
            goes_on == !final(self)@.stopped,
            final(self).state() == old(self).state(),
    {
        if self.spin.is_stopped() {
            return false;
        }
        let outcome = S::main(&self.state);
        let goes_on = self.spin.settle(outcome);
        proof {
            assert(self@ == old(self)@.settled(outcome));
        }
        goes_on
    }
}

} // verus!
