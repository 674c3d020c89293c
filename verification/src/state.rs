//! The operating-mode state machine and the guard that enforces it.

use vstd::prelude::*;

verus! {

/// The set of errors that can be caused from working with a `Guard`.
#[derive(Debug, Clone, Copy, PartialEq, Eq, Structural)]
pub enum Error {
    /// The guard's lock was poisoned.  This implies a panicked thread owned a
    /// lock.  The verified guard never produces this value itself; it exists
    /// for the shell that shares a guard between threads.
    Poison,
    /// An illegal transition was attempted.
    IllegalTransition {
        /// The state that the transition was attempted from.
        from: State,
        /// The state that the transition was attempted into.
        to: State,
    },
}

/// The set of all states the engine controller can be in.
#[derive(Debug, Clone, Copy, PartialEq, Eq, Structural)]
pub enum State {
    /// The engine is in standby - passively logging and awaiting commands.
    Standby,
    /// The engine is preparing to ignite in the upcoming seconds.
    PreIgnite,
    /// The engine is currently ignited.
    Ignite,
    /// The engine is not currently ignited, but was igniting recently.
    PostIgnite,
    /// An emergency stop command has just been called.
    EStopping,
    /// The engine controller is shutting down.
    Quit,
}

/// The legal transition relation on controller states.
///
/// The graph is exactly: `Standby → PreIgnite → Ignite → PostIgnite →
/// Standby`; `Standby → Quit`; and from any other state into `EStopping`,
/// then `EStopping → Standby`.  A second attempt to enter `EStopping` while
/// a stop is already underway is rejected, which is how concurrent
/// emergency-stop initiators are deduplicated: whoever sees that rejection
/// knows another initiator is running the stop.
pub open spec fn valid_transition(from: State, to: State) -> bool {
    match to {
        State::Standby => from == State::EStopping || from == State::PostIgnite,
        State::PreIgnite | State::Quit => from == State::Standby,
        State::Ignite => from == State::PreIgnite,
        State::PostIgnite => from == State::Ignite,
        State::EStopping => from != State::Quit && from != State::EStopping,
    }
}

/// A guard for controller state.  It owns the current operating mode and is
/// the single point through which the mode may be read or changed.
///
/// Beside the current state the guard carries a ghost trace of every state it
/// has ever been in, oldest first; the trace lets callers state facts about
/// the whole trajectory of a run.
pub struct Guard {
    /// The current state.
    state: State,
    /// Every state the guard has held, in order.  The last entry is always
    /// the current state.
    trace: Ghost<Seq<State>>,
}

impl Guard {
    /// The guard's invariant: the trace records the full history, it ends at
    /// the current state, and every step ever taken was legal.
    pub closed spec fn wf(&self) -> bool {
        &&& self.trace@.len() >= 1
        &&& self.trace@.last() == self.state
        &&& forall|i: int|
            0 < i < self.trace@.len() ==> valid_transition(
                self.trace@[i - 1],
                #[trigger] self.trace@[i],
            )
    }

    /// The trace of states this guard has been through, oldest first.
    pub closed spec fn trace(&self) -> Seq<State> {
        self.trace@
    }

    /// The current state.
    pub closed spec fn current(&self) -> State {
        self.state
    }

    /// Construct a new `Guard`.  Initializes its state to the value of
    /// `state`.
    #[must_use]
    pub fn new(state: State) -> (guard: Guard)
        ensures
            guard.wf(),
            guard.current() == state,
            guard.trace() == seq![state],
    {
        let ghost initial_trace: Seq<State> = seq![state];
        Guard { state, trace: Ghost(initial_trace) }
    }

    /// Get the status of this guard.
    pub fn status(&self) -> (status: State)
        ensures
            status == self.current(),
    {
        self.state
    }

    /// Move this guard into a new state.
    ///
    /// If `new_state` is not reachable from the current state per the
    /// transition graph, an `Err(Error::IllegalTransition)` is returned and
    /// the guard is left exactly as it was.
    pub fn move_to(&mut self, new_state: State) -> (result: Result<(), Error>)
        requires
            old(self).wf(),
        ensures
            final(self).wf(),
            result.is_ok() <==> valid_transition(old(self).current(), new_state),
            result.is_ok() ==> {
                &&& final(self).current() == new_state
                &&& final(self).trace() == old(self).trace().push(new_state)
            },
            result.is_err() ==> {
                &&& result == Err::<(), Error>(
                    Error::IllegalTransition { from: old(self).current(), to: new_state },
                )
                &&& *final(self) == *old(self)
            },
    {
        let old_state = self.state;

        // determine whether the transition is valid
        let legal = match new_state {
            State::Standby => old_state == State::EStopping || old_state == State::PostIgnite,
            State::PreIgnite | State::Quit => old_state == State::Standby,
            State::Ignite => old_state == State::PreIgnite,
            State::PostIgnite => old_state == State::Ignite,
            State::EStopping => old_state != State::Quit && old_state != State::EStopping,
        };

        if !legal {
            return Err(Error::IllegalTransition { from: old_state, to: new_state });
        }

        self.state = new_state;
        proof {
            self.trace@ = self.trace@.push(new_state);
        }
        Ok(())
    }
}

/// Every accepted transition is an edge of the legal graph: along the trace
/// of a well-formed guard, each adjacent pair of states is a valid
/// transition.
pub proof fn lemma_trace_transitions_legal(guard: &Guard, i: int)
    requires
        guard.wf(),
        0 < i < guard.trace().len(),
    ensures
        valid_transition(guard.trace()[i - 1], guard.trace()[i]),
{
}

} // verus!
