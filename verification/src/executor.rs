//! The executor: what each action of the controller does to the frame source
//! and to the probe.

use vstd::prelude::*;
use crate::adaptation::{Action, Signal};
use crate::profile::{adjusted, advanced, lemma_adjusted_bounds, Decrease};
use crate::video::{SourceView, VideoSource};

verus! {

/// The probe: a spell of sending faster than the configuration in use needs,
/// to find out whether the next one would fit.
#[derive(Debug, Clone, Copy, PartialEq, Eq, Structural)]
pub enum Probe {
    /// No probe is under way.
    Idle,
    /// A probe is under way; its pace has been raised this many times since
    /// it started.
    Armed(usize),
}

/// The rung after `action`, on a ladder of `len` rungs.
pub open spec fn level_after(level: int, len: int, by: Decrease, action: Action) -> int {
    match action {
        Action::AdvanceConfig => advanced(level, len),
        Action::AdjustConfig => adjusted(level, by),
        _ => level,
    }
}

/// The rung after each of `actions` in turn.
pub open spec fn level_after_all(level: int, len: int, by: Decrease, actions: Seq<Action>) -> int
    decreases actions.len(),
{
    if actions.len() == 0 {
        level
    } else {
        level_after(level_after_all(level, len, by, actions.drop_last()), len, by, actions.last())
    }
}

/// The probe after `action`. Raising the pace of a probe that is not under
/// way changes nothing.
pub open spec fn probe_after(probe: Probe, action: Action) -> Probe {
    match action {
        Action::StartProbe => Probe::Armed(0),
        Action::IncreaseProbePace => match probe {
            Probe::Armed(pace) => Probe::Armed((pace + 1) as usize),
            Probe::Idle => Probe::Idle,
        },
        Action::StopProbe => Probe::Idle,
        _ => probe,
    }
}

/// Whether the pace of `probe` can still be counted after `action`.
pub open spec fn pace_fits(probe: Probe, action: Action) -> bool {
    action == Action::IncreaseProbePace ==> (probe matches Probe::Armed(pace) ==> pace
        < usize::MAX)
}

/// What the executor raises after `action`: `ConfigMax` at the moment an
/// advance reaches the top rung from below, and nothing otherwise.
pub open spec fn raised(level: int, len: int, action: Action) -> Option<Signal> {
    if action == Action::AdvanceConfig && level < len - 1 && advanced(level, len) == len - 1 {
        Some(Signal::ConfigMax)
    } else {
        None
    }
}

/// Carries out `action`: moves the source along its ladder, or starts, paces
/// or stops the probe. The cursor of the source is left alone.
pub fn execute(action: Action, source: &mut VideoSource, probe: &mut Probe, by: Decrease) -> (signal:
    Option<Signal>)
    requires
        old(source).wf(),
        by.wf(),
        pace_fits(*old(probe), action),
    ensures
        final(source).wf(),
        final(source)@ == (SourceView {
            level: level_after(
                old(source)@.level as int,
                old(source)@.ladder.len() as int,
                by,
                action,
            ) as usize,
            ..old(source)@
        }),
        *final(probe) == probe_after(*old(probe), action),
        signal == raised(old(source)@.level as int, old(source)@.ladder.len() as int, action),
{
    let level = source.level();
    match action {
        Action::NoOp => None,
        Action::AdvanceConfig => {
            let next = source.profile().advance(level);
            source.adapt(next);
            if level < next && next == source.profile().len() - 1 {
                Some(Signal::ConfigMax)
            } else {
                None
            }
        },
        Action::AdjustConfig => {
            let next = source.profile().adjust(level, by);
            source.adapt(next);
            None
        },
        Action::StartProbe => {
            *probe = Probe::Armed(0);
            None
        },
        Action::IncreaseProbePace => {
            match *probe {
                Probe::Armed(pace) => {
                    *probe = Probe::Armed(pace + 1);
                },
                Probe::Idle => {},
            }
            None
        },
        Action::StopProbe => {
            *probe = Probe::Idle;
            None
        },
    }
}

/// No action takes the index off the ladder.
pub proof fn law_level_stays_on_ladder(level: int, len: int, by: Decrease, action: Action)
    requires
        0 <= level < len,
        by.wf(),
    ensures
        0 <= level_after(level, len, by, action) <= len - 1,
{
    lemma_adjusted_bounds(level, by);
}

/// After any sequence of actions the index is still on the ladder.
pub proof fn law_ladder_clamp(level: int, len: int, by: Decrease, actions: Seq<Action>)
    requires
        0 <= level < len,
        by.wf(),
    ensures
        0 <= level_after_all(level, len, by, actions) <= len - 1,
    decreases actions.len(),
{
    if actions.len() > 0 {
        law_ladder_clamp(level, len, by, actions.drop_last());
        law_level_stays_on_ladder(
            level_after_all(level, len, by, actions.drop_last()),
            len,
            by,
            actions.last(),
        );
    }
}

} // verus!
