//! The sending side: the controller, the probe and the frame source, kept in
//! step with one another.

use vstd::prelude::*;
use crate::adaptation::{is_drain, transition, Action, Adaptation, Signal, State};
use crate::executor::{execute, level_after, pace_fits, probe_after, Probe};
use crate::profile::Decrease;
use crate::video::{SourceView, VideoSource};

verus! {

/// What a sender is, seen from outside.
pub struct SenderView {
    /// The state of the controller.
    pub state: State,
    /// The probe.
    pub probe: Probe,
    /// The frame source, which holds the rung in use.
    pub source: SourceView,
    /// The factor of the multiplicative decrease.
    pub by: Decrease,
}

impl SenderView {
    /// The parts are well formed, and a probe is under way exactly while the
    /// controller is in `Probe`.
    pub open spec fn wf(self) -> bool {
        &&& self.source.wf()
        &&& self.by.wf()
        &&& self.state == State::Probe <==> self.probe is Armed
    }

    /// Whether the sender can take `signal`: the controller has a rule for
    /// it, and the pace of the probe can still be counted.
    pub open spec fn handles(self, signal: Signal) -> bool {
        transition(self.state, signal) matches Some(next) && pace_fits(self.probe, next.1)
    }

    /// The signal that a drained queue gives rise to: it tells whether the
    /// configuration in use is the highest of the ladder.
    pub open spec fn drain_signal(self) -> Signal {
        if self.source.config() == self.source.ladder.last() {
            Signal::QueueEmptyAtMaxConfig
        } else {
            Signal::QueueEmpty
        }
    }

    /// The sender after `signal`: the controller takes its transition, the
    /// executor carries out the action, and a probe that is done is over.
    pub open spec fn after(self, signal: Signal) -> SenderView {
        let (state, action) = transition(self.state, signal).unwrap();
        SenderView {
            state,
            probe: if signal == Signal::ProbeDone {
                Probe::Idle
            } else {
                probe_after(self.probe, action)
            },
            source: SourceView {
                level: level_after(
                    self.source.level as int,
                    self.source.ladder.len() as int,
                    self.by,
                    action,
                ) as usize,
                ..self.source
            },
            by: self.by,
        }
    }

    /// The sender after each of `signals` in turn, as long as it can take
    /// them; nothing once it cannot.
    pub open spec fn after_all(self, signals: Seq<Signal>) -> Option<SenderView>
        decreases signals.len(),
    {
        if signals.len() == 0 {
            Some(self)
        } else {
            match self.after_all(signals.drop_last()) {
                Some(sender) => if sender.handles(signals.last()) {
                    Some(sender.after(signals.last()))
                } else {
                    None
                },
                None => None,
            }
        }
    }
}

/// The sending side of a stream.
pub struct Sender {
    adaptation: Adaptation,
    probe: Probe,
    source: VideoSource,
    by: Decrease,
}

impl View for Sender {
    type V = SenderView;

    closed spec fn view(&self) -> SenderView {
        SenderView { state: self.adaptation@, probe: self.probe, source: self.source@, by: self.by }
    }
}

impl Sender {
    pub open spec fn wf(&self) -> bool {
        self@.wf()
    }

    /// A sender in `Startup` with no probe under way, over `source` as it
    /// stands.
    pub fn new(source: VideoSource, by: Decrease) -> (sender: Sender)
        requires
            source.wf(),
            by.wf(),
        ensures
            sender.wf(),
            sender@ == (SenderView {
                state: State::Startup,
                probe: Probe::Idle,
                source: source@,
                by,
            }),
    {
        Sender { adaptation: Adaptation::new(), probe: Probe::Idle, source, by }
    }

    /// The state of the controller.
    pub fn state(&self) -> (state: State)
        ensures
            state == self@.state,
    {
        self.adaptation.state()
    }

    /// The probe.
    pub fn probe(&self) -> (probe: Probe)
        ensures
            probe == self@.probe,
    {
        self.probe
    }

    /// The rung in use.
    pub fn level(&self) -> (level: usize)
        ensures
            level == self@.source.level,
    {
        self.source.level()
    }

    /// The frame source.
    pub fn source(&self) -> (source: &VideoSource)
        ensures
            source@ == self@.source,
    {
        &self.source
    }

    /// Whether the sender can take `signal`.
    pub fn handles(&self, signal: Signal) -> (b: bool)
        ensures
            b == self@.handles(signal),
    {
        if !self.adaptation.handles(signal) {
            return false;
        }
        match (self.adaptation.state(), signal, self.probe) {
            (State::Probe, Signal::QueueEmpty, Probe::Armed(pace)) => pace < usize::MAX,
            _ => true,
        }
    }

    /// The signal to give when the queue has drained.
    pub fn drain_signal(&self) -> (signal: Signal)
        requires
            self.wf(),
        ensures
            signal == self@.drain_signal(),
            is_drain(signal),
    {
        let top = self.source.profile().len() - 1;
        assert(self@.source.ladder.last() == self@.source.ladder[top as int]);
        if self.source.level() == top {
            Signal::QueueEmptyAtMaxConfig
        } else {
            Signal::QueueEmpty
        }
    }

    /// The signal to give when the probe has run its full window without
    /// congestion: `ProbeDone` while a probe is under way, which is while the
    /// controller is in `Probe`, and nothing otherwise.
    pub fn probe_done(&self) -> (signal: Option<Signal>)
        requires
            self.wf(),
        ensures
            signal == if self@.probe is Armed {
                Some(Signal::ProbeDone)
            } else {
                None
            },
            signal.is_some() <==> self@.state == State::Probe,
            signal.is_some() ==> self@.handles(Signal::ProbeDone),
    {
        match self.probe {
            Probe::Armed(_) => Some(Signal::ProbeDone),
            Probe::Idle => None,
        }
    }

    /// Takes `signal`: the controller makes its transition and the action it
    /// asks for is carried out. Returns that action.
    pub fn on_signal(&mut self, signal: Signal) -> (action: Action)
        requires
            old(self).wf(),
            old(self)@.handles(signal),
        ensures
            final(self).wf(),
            final(self)@ == old(self)@.after(signal),
            transition(old(self)@.state, signal) == Some((final(self)@.state, action)),
    {
        let action = self.adaptation.transit(signal);
        if signal == Signal::ProbeDone {
            self.probe = Probe::Idle;
        }
        let _ = execute(action, &mut self.source, &mut self.probe, self.by);
        action
    }

    /// The size of the next frame under the configuration in use.
    pub fn next_frame(&mut self) -> (size: usize)
        requires
            old(self).wf(),
            old(self)@.source.has_frame(),
        ensures
            final(self).wf(),
            size == old(self)@.source.table[(old(self)@.source.config(), old(self)@.source.cursor)],
            final(self)@ == (SenderView {
                source: SourceView {
                    cursor: crate::video::next_cursor(
                        old(self)@.source.cursor,
                        old(self)@.source.frames,
                    ),
                    ..old(self)@.source
                },
                ..old(self)@
            }),
    {
        self.source.next_frame()
    }
}

/// Whatever signal a well-formed sender takes, it stays well formed: the
/// rung stays on the ladder, and a probe is under way exactly while the
/// controller is in `Probe`.
pub proof fn law_sender_stays_wf(sender: SenderView, signal: Signal)
    requires
        sender.wf(),
        sender.handles(signal),
    ensures
        sender.after(signal).wf(),
        sender.after(signal).source.level < sender.source.ladder.len(),
{
    let action = transition(sender.state, signal).unwrap().1;
    crate::executor::law_level_stays_on_ladder(
        sender.source.level as int,
        sender.source.ladder.len() as int,
        sender.by,
        action,
    );
}

/// Through any run of signals that a well-formed sender can take it stays
/// well formed: the rung is on the ladder at every step, and a probe is under
/// way exactly while the controller is in `Probe`.
pub proof fn law_sender_invariant(sender: SenderView, signals: Seq<Signal>)
    requires
        sender.wf(),
        sender.after_all(signals).is_some(),
    ensures
        sender.after_all(signals).unwrap().wf(),
        sender.after_all(signals).unwrap().source.ladder == sender.source.ladder,
    decreases signals.len(),
{
    if signals.len() > 0 {
        law_sender_invariant(sender, signals.drop_last());
        law_sender_stays_wf(sender.after_all(signals.drop_last()).unwrap(), signals.last());
    }
}

/// A drained queue after congestion never moves the sender up the ladder: in
/// `Degrade` it leaves the rung as it is, and the controller goes to
/// `Steady`.
pub proof fn law_no_climb_on_drain(sender: SenderView, signal: Signal)
    requires
        sender.wf(),
        sender.state == State::Degrade,
        is_drain(signal),
    ensures
        sender.handles(signal),
        sender.after(signal).state == State::Steady,
        sender.after(signal).source == sender.source,
        sender.after(signal).probe == sender.probe,
{
}

} // verus!
