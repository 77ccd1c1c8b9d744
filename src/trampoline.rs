//! The execution trampoline: reconciles a handler that may return a promise-like
//! value with the host's need for one settled result. The host performs each
//! action and reports back; the trampoline decides the next step and owns the
//! single-slot settlement holder.

use vstd::prelude::*;

verus! {

/// Where an invocation stands.
#[derive(Debug, Clone, Copy, PartialEq, Eq, Structural)]
pub enum Phase {
    /// The handler has been called and has not returned yet.
    Invoked,
    /// The handler returned a thenable; the continuations are installed and the
    /// microtask queue is being drained.
    AwaitingSettlement,
    /// The final value is known and has been handed out for serialization.
    Finished,
}

/// What the host does next with the handler's return value.
#[derive(Debug)]
pub enum Next<V> {
    /// Install the resolve and reject continuations through its `then`, then
    /// drain the microtask queue and report with `drained`.
    InstallAndDrain,
    /// Serialize this value as the response; nothing is drained.
    Emit(V),
}

/// Why an invocation could not produce a result.
#[derive(Debug, Clone, Copy, PartialEq, Eq, Structural)]
pub enum TrampolineError {
    /// The queue ran empty and neither continuation had fired.
    NeverSettled,
}

/// The trampoline of one invocation.
pub struct Trampoline<V, E> {
    phase: Phase,
    holder: Option<Result<V, E>>,
}

impl<V, E> Trampoline<V, E> {
    /// The current phase.
    pub closed spec fn phase_of(&self) -> Phase {
        self.phase
    }

    /// What the settlement holder holds.
    pub closed spec fn held(&self) -> Option<Result<V, E>> {
        self.holder
    }

    /// A trampoline for an invocation that has just called its handler; the holder is empty.
    pub fn new() -> (r: Trampoline<V, E>)
        ensures
            r.phase_of() == Phase::Invoked,
            r.held() is None,
    {
        Trampoline { phase: Phase::Invoked, holder: None }
    }

    /// The current phase.
    pub fn phase(&self) -> (r: Phase)
        ensures
            r == self.phase_of(),
    {
        self.phase
    }

    /// The handler returned `value`; `thenable` tells whether it has a callable
    /// `then`. A thenable is waited for; any other value is final at once.
    pub fn returned(&mut self, value: V, thenable: bool) -> (r: Next<V>)
        requires
            old(self).phase_of() == Phase::Invoked,
        ensures
            final(self).held() == old(self).held(),
            thenable ==> r is InstallAndDrain && final(self).phase_of() == Phase::AwaitingSettlement,
            !thenable ==> r == Next::Emit(value) && final(self).phase_of() == Phase::Finished,
    {
        if thenable {
            self.phase = Phase::AwaitingSettlement;
            Next::InstallAndDrain
        } else {
            self.phase = Phase::Finished;
            Next::Emit(value)
        }
    }

    /// The resolve continuation fired with `value`.
    pub fn on_resolve(&mut self, value: V)
        ensures
            final(self).phase_of() == old(self).phase_of(),
            final(self).held() == Some(Ok::<V, E>(value)),
    {
        self.holder = Some(Ok(value));
    }

    /// The reject continuation fired with `error`.
    pub fn on_reject(&mut self, error: E)
        ensures
            final(self).phase_of() == old(self).phase_of(),
            final(self).held() == Some(Err::<V, E>(error)),
    {
        self.holder = Some(Err(error));
    }

    /// The microtask queue ran empty. The settled outcome is read and the holder
    /// cleared; with nothing settled the invocation has no result.
    pub fn drained(&mut self) -> (r: Result<Result<V, E>, TrampolineError>)
        requires
            old(self).phase_of() == Phase::AwaitingSettlement,
        ensures
            final(self).held() is None,
            final(self).phase_of() == Phase::Finished,
            match old(self).held() {
                Some(outcome) => r == Ok::<Result<V, E>, TrampolineError>(outcome),
                None => r == Err::<Result<V, E>, TrampolineError>(TrampolineError::NeverSettled),
            },
    {
        self.phase = Phase::Finished;
        match self.holder.take() {
            Some(outcome) => Ok(outcome),
            None => Err(TrampolineError::NeverSettled),
        }
    }
}

} // verus!
