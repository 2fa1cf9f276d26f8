//! The rate-adaptation controller: a state machine from signals to actions.

use vstd::prelude::*;

verus! {

/// What the signal synthesiser reports to the controller.
#[derive(Debug, Clone, Copy, PartialEq, Eq, Structural)]
pub enum Signal {
    /// The monitor timer ticked.
    MonitorTimer,
    /// The queue latency went above the congestion threshold. The payload is
    /// the observed latency in milliseconds, a double-precision number held
    /// by its 64-bit pattern; the controller does not read it.
    QueueCongest(u64),
    /// A probe ran its full window without congestion.
    ProbeDone,
    /// The configuration reached the top of the ladder.
    ConfigMax,
    /// The queue drained below the low-water threshold.
    QueueEmpty,
    /// The queue drained while the top configuration was in use.
    QueueEmptyAtMaxConfig,
}

/// What the controller asks the executor to do.
#[derive(Debug, Clone, Copy, PartialEq, Eq, Structural)]
pub enum Action {
    NoOp,
    AdvanceConfig,
    AdjustConfig,
    StartProbe,
    IncreaseProbePace,
    StopProbe,
}

/// States of the rate adaptation algorithm.
#[derive(Debug, Clone, Copy, PartialEq, Eq, Structural)]
pub enum State {
    /// Climbing the ladder while the queue drains cleanly.
    Startup,
    /// Dropping quality on every congestion event.
    Degrade,
    /// Resting; waits for a drained queue or congestion.
    Steady,
    /// Testing whether the next configuration would fit.
    Probe,
}

/// The transition table. `None` marks a pair the controller has no rule for.
pub open spec fn transition(state: State, signal: Signal) -> Option<(State, Action)> {
    match (state, signal) {
        (State::Startup, Signal::QueueEmpty) => Some((State::Startup, Action::AdvanceConfig)),
        (State::Startup, Signal::QueueEmptyAtMaxConfig) => Some((State::Steady, Action::NoOp)),
        (State::Startup, Signal::QueueCongest(_)) => Some((State::Degrade, Action::AdjustConfig)),
        (State::Degrade, Signal::QueueCongest(_)) => Some((State::Degrade, Action::AdjustConfig)),
        (State::Degrade, Signal::QueueEmpty) => Some((State::Steady, Action::NoOp)),
        (State::Degrade, Signal::QueueEmptyAtMaxConfig) => Some((State::Steady, Action::NoOp)),
        (State::Steady, Signal::QueueCongest(_)) => Some((State::Degrade, Action::AdjustConfig)),
        (State::Steady, Signal::QueueEmpty) => Some((State::Probe, Action::StartProbe)),
        (State::Probe, Signal::QueueCongest(_)) => Some((State::Steady, Action::StopProbe)),
        (State::Probe, Signal::ProbeDone) => Some((State::Steady, Action::AdvanceConfig)),
        (State::Probe, Signal::QueueEmpty) => Some((State::Probe, Action::IncreaseProbePace)),
        _ => None,
    }
}

/// Whether a signal reports a drained queue.
pub open spec fn is_drain(signal: Signal) -> bool {
    signal == Signal::QueueEmpty || signal == Signal::QueueEmptyAtMaxConfig
}

/// The controller. It owns its state and nothing else.
pub struct Adaptation {
    state: State,
}

impl View for Adaptation {
    type V = State;

    closed spec fn view(&self) -> State {
        self.state
    }
}

impl Adaptation {
    /// A controller in `Startup`.
    pub fn new() -> (a: Adaptation)
        ensures
            a@ == State::Startup,
    {
        Adaptation { state: State::Startup }
    }

    /// The current state.
    pub fn state(&self) -> (s: State)
        ensures
            s == self@,
    {
        self.state
    }

    /// Whether the table has a rule for `signal` in the current state.
    pub fn handles(&self, signal: Signal) -> (b: bool)
        ensures
            b == transition(self@, signal).is_some(),
    {
        match self.state {
            State::Startup => match signal {
                Signal::QueueEmpty | Signal::QueueEmptyAtMaxConfig | Signal::QueueCongest(_) => true,
                _ => false,
            },
            State::Degrade => match signal {
                Signal::QueueEmpty | Signal::QueueEmptyAtMaxConfig | Signal::QueueCongest(_) => true,
                _ => false,
            },
            State::Steady => match signal {
                Signal::QueueEmpty | Signal::QueueCongest(_) => true,
                _ => false,
            },
            State::Probe => match signal {
                Signal::QueueEmpty | Signal::ProbeDone | Signal::QueueCongest(_) => true,
                _ => false,
            },
        }
    }

    /// Takes one transition: moves to the next state and returns the action
    /// the table prescribes. A pair without a rule is a bug in the caller.
    pub fn transit(&mut self, signal: Signal) -> (action: Action)
        requires
            transition(old(self)@, signal).is_some(),
        ensures
            transition(old(self)@, signal) == Some((final(self)@, action)),
    {
        match (self.state, signal) {
            (State::Startup, Signal::QueueEmpty) => Action::AdvanceConfig,
            (State::Startup, Signal::QueueEmptyAtMaxConfig) => {
                self.state = State::Steady;
                Action::NoOp
            },
            (State::Startup, Signal::QueueCongest(_latency)) => {
                self.state = State::Degrade;
                Action::AdjustConfig
            },
            (State::Degrade, Signal::QueueCongest(_latency)) => {
                self.state = State::Degrade;
                Action::AdjustConfig
            },
            (State::Degrade, Signal::QueueEmpty) | (State::Degrade, Signal::QueueEmptyAtMaxConfig) => {
                self.state = State::Steady;
                Action::NoOp
            },
            (State::Steady, Signal::QueueCongest(_latency)) => {
                self.state = State::Degrade;
                Action::AdjustConfig
            },
            (State::Steady, Signal::QueueEmpty) => {
                self.state = State::Probe;
                Action::StartProbe
            },
            (State::Probe, Signal::QueueCongest(_latency)) => {
                self.state = State::Steady;
                Action::StopProbe
            },
            (State::Probe, Signal::ProbeDone) => {
                self.state = State::Steady;
                Action::AdvanceConfig
            },
            (State::Probe, Signal::QueueEmpty) => Action::IncreaseProbePace,
            _ => vstd::pervasive::unreached(),
        }
    }
}

/// The only way into `Probe` from another state is a drained queue seen in
/// `Steady`, and only in `Probe` does the table take `ProbeDone`.
pub proof fn law_probe_entry(state: State, signal: Signal)
    ensures
        (state != State::Probe && transition(state, signal).is_some() && transition(
            state,
            signal,
        ).unwrap().0 == State::Probe) ==> (state == State::Steady && signal == Signal::QueueEmpty),
        transition(state, Signal::ProbeDone).is_some() <==> state == State::Probe,
{
}

/// A drained queue seen in `Degrade` parks the controller in `Steady` and
/// asks for nothing.
pub proof fn law_drain_after_congest(signal: Signal)
    requires
        is_drain(signal),
    ensures
        transition(State::Degrade, signal) == Some((State::Steady, Action::NoOp)),
{
}

} // verus!
