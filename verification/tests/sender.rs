use runtime::{
    execute, Action, Adaptation, Decrease, FrameRecord, Probe, Profile, Sender, Signal, State,
    VideoConfig, VideoSource,
};

fn config(level: usize) -> VideoConfig {
    VideoConfig::new(320 * (level + 1), 0, 40 - level)
}

/// A source as it is after loading, on a ladder of `levels` rungs with two
/// frames.
fn fresh(levels: usize) -> VideoSource {
    let profile = Profile::new((0..levels).map(config).collect()).unwrap();
    let mut rows = Vec::new();
    for frame in 0..=2 {
        for l in 0..levels {
            rows.push(FrameRecord { config: config(l), frame, bytes: 100 * (l + 1) + frame });
        }
    }
    VideoSource::new(&rows, profile).unwrap()
}

/// Such a source moved to rung `level`.
fn source(levels: usize, level: usize) -> VideoSource {
    let mut s = fresh(levels);
    s.adapt(level);
    s
}

fn congest(latency: f64) -> Signal {
    Signal::QueueCongest(latency.to_bits())
}

fn step(sender: &mut Sender, signal: Signal) -> Action {
    assert!(sender.handles(signal), "{:?} in {:?}", signal, sender.state());
    sender.on_signal(signal)
}

#[test]
fn startup_climb_to_max() {
    let mut s = Sender::new(fresh(3), Decrease::half());
    assert_eq!((s.state(), s.level()), (State::Startup, 0));
    let mut signals = Vec::new();
    let mut trace = vec![(s.state(), s.level())];
    for _ in 0..3 {
        let signal = s.drain_signal();
        signals.push(signal);
        step(&mut s, signal);
        trace.push((s.state(), s.level()));
    }
    assert_eq!(
        signals,
        vec![Signal::QueueEmpty, Signal::QueueEmpty, Signal::QueueEmptyAtMaxConfig]
    );
    assert_eq!(
        trace,
        vec![(State::Startup, 0), (State::Startup, 1), (State::Startup, 2), (State::Steady, 2)]
    );
}

#[test]
fn fresh_sender_starts_in_startup_on_the_lowest_rung() {
    for levels in 1..5 {
        let s = Sender::new(fresh(levels), Decrease::half());
        assert_eq!(s.state(), State::Startup);
        assert_eq!(s.level(), 0);
        assert_eq!(s.probe(), Probe::Idle);
        let expected =
            if levels == 1 { Signal::QueueEmptyAtMaxConfig } else { Signal::QueueEmpty };
        assert_eq!(s.drain_signal(), expected);
    }
}

#[test]
fn congestion_during_startup() {
    let mut s = Sender::new(source(4, 2), Decrease::half());
    assert_eq!(step(&mut s, congest(120.0)), Action::AdjustConfig);
    assert_eq!(s.state(), State::Degrade);
    assert_eq!(s.level(), 1);
}

#[test]
fn repeated_degrade() {
    let mut s = Sender::new(source(8, 6), Decrease::half());
    step(&mut s, congest(100.0));
    assert_eq!((s.state(), s.level()), (State::Degrade, 3));
    step(&mut s, congest(100.0));
    assert_eq!((s.state(), s.level()), (State::Degrade, 1));
    step(&mut s, congest(100.0));
    assert_eq!((s.state(), s.level()), (State::Degrade, 0));
    step(&mut s, congest(100.0));
    assert_eq!((s.state(), s.level()), (State::Degrade, 0));
}

#[test]
fn recovery() {
    let mut s = Sender::new(source(4, 2), Decrease::half());
    step(&mut s, congest(100.0));
    assert_eq!((s.state(), s.level()), (State::Degrade, 1));
    assert_eq!(step(&mut s, Signal::QueueEmpty), Action::NoOp);
    assert_eq!((s.state(), s.level()), (State::Steady, 1));
}

#[test]
fn drain_after_congestion_never_climbs() {
    for levels in 1..6 {
        for level in 0..levels {
            for signal in [Signal::QueueEmpty, Signal::QueueEmptyAtMaxConfig] {
                let mut s = Sender::new(source(levels, level), Decrease::half());
                step(&mut s, congest(100.0));
                assert_eq!(s.state(), State::Degrade);
                let before = s.level();
                assert_eq!(step(&mut s, signal), Action::NoOp);
                assert_eq!(s.state(), State::Steady);
                assert_eq!(s.level(), before);
            }
        }
    }
}

#[test]
fn successful_probe() {
    let mut s = Sender::new(source(4, 2), Decrease::half());
    step(&mut s, congest(100.0));
    step(&mut s, Signal::QueueEmpty);
    assert_eq!((s.state(), s.level()), (State::Steady, 1));
    assert_eq!(s.probe(), Probe::Idle);
    assert_eq!(s.probe_done(), None);

    assert_eq!(step(&mut s, Signal::QueueEmpty), Action::StartProbe);
    assert_eq!((s.state(), s.level()), (State::Probe, 1));
    assert_eq!(s.probe(), Probe::Armed(0));

    assert_eq!(step(&mut s, Signal::QueueEmpty), Action::IncreaseProbePace);
    assert_eq!((s.state(), s.level()), (State::Probe, 1));
    assert_eq!(s.probe(), Probe::Armed(1));

    let done = s.probe_done();
    assert_eq!(done, Some(Signal::ProbeDone));
    assert_eq!(step(&mut s, Signal::ProbeDone), Action::AdvanceConfig);
    assert_eq!((s.state(), s.level()), (State::Steady, 2));
    assert_eq!(s.probe(), Probe::Idle);
    assert_eq!(s.probe_done(), None);
}

#[test]
fn aborted_probe() {
    let mut s = Sender::new(source(6, 4), Decrease::half());
    step(&mut s, congest(100.0));
    step(&mut s, Signal::QueueEmpty);
    assert_eq!((s.state(), s.level()), (State::Steady, 2));

    assert_eq!(step(&mut s, Signal::QueueEmpty), Action::StartProbe);
    assert_eq!(s.probe(), Probe::Armed(0));
    assert_eq!(step(&mut s, congest(80.0)), Action::StopProbe);
    assert_eq!((s.state(), s.level()), (State::Steady, 2));
    assert_eq!(s.probe(), Probe::Idle);
    assert_eq!(s.probe_done(), None);
}

#[test]
fn probe_done_is_given_only_in_probe() {
    let mut s = Sender::new(fresh(4), Decrease::half());
    let signals = [
        Signal::QueueEmpty,
        congest(90.0),
        Signal::QueueEmpty,
        Signal::QueueEmpty,
        Signal::QueueEmpty,
        congest(90.0),
        Signal::QueueEmpty,
        Signal::ProbeDone,
        congest(90.0),
        congest(90.0),
        Signal::QueueEmptyAtMaxConfig,
    ];
    for signal in signals {
        assert_eq!(s.probe_done().is_some(), s.state() == State::Probe);
        assert_eq!(s.probe() != Probe::Idle, s.state() == State::Probe);
        step(&mut s, signal);
    }
    assert_eq!(s.probe_done().is_some(), s.state() == State::Probe);
}

#[test]
fn level_stays_on_the_ladder_whatever_comes() {
    let signals = [
        Signal::QueueEmpty,
        Signal::QueueEmptyAtMaxConfig,
        congest(1.0),
        Signal::ProbeDone,
        Signal::MonitorTimer,
        Signal::ConfigMax,
    ];
    for levels in 1..5 {
        let mut s = Sender::new(source(levels, levels - 1), Decrease::new(2, 3).unwrap());
        let mut seed = 12345u32;
        for _ in 0..400 {
            seed = seed.wrapping_mul(1_103_515_245).wrapping_add(12345);
            let signal = signals[(seed >> 16) as usize % signals.len()];
            if s.handles(signal) {
                s.on_signal(signal);
            }
            assert!(s.level() < levels);
            assert_eq!(s.source().level(), s.level());
        }
    }
}

#[test]
fn drain_signal_tells_whether_the_top_rung_is_in_use() {
    let s = Sender::new(source(3, 2), Decrease::half());
    assert_eq!(s.drain_signal(), Signal::QueueEmptyAtMaxConfig);
    let s = Sender::new(source(3, 1), Decrease::half());
    assert_eq!(s.drain_signal(), Signal::QueueEmpty);
    let s = Sender::new(fresh(1), Decrease::half());
    assert_eq!(s.drain_signal(), Signal::QueueEmptyAtMaxConfig);
}

#[test]
fn sender_hands_out_frames_of_the_rung_in_use() {
    let mut s = Sender::new(fresh(3), Decrease::half());
    assert_eq!(s.next_frame(), 100);
    step(&mut s, Signal::QueueEmpty);
    assert_eq!(s.next_frame(), 201);
    step(&mut s, Signal::QueueEmpty);
    assert_eq!(s.next_frame(), 300);
    assert_eq!(s.source().cursor(), 1);
}

#[test]
fn pace_can_be_raised_up_to_the_limit() {
    let mut src = source(3, 1);
    let mut probe = Probe::Armed(usize::MAX - 1);
    execute(Action::IncreaseProbePace, &mut src, &mut probe, Decrease::half());
    assert_eq!(probe, Probe::Armed(usize::MAX));
}

#[test]
fn execute_advance_and_adjust_move_the_source() {
    let by = Decrease::half();
    let mut src = source(4, 1);
    let mut probe = Probe::Idle;
    assert_eq!(execute(Action::AdvanceConfig, &mut src, &mut probe, by), None);
    assert_eq!(src.level(), 2);
    assert_eq!(src.config(), config(2));
    assert_eq!(execute(Action::AdvanceConfig, &mut src, &mut probe, by), Some(Signal::ConfigMax));
    assert_eq!(src.level(), 3);
    assert_eq!(execute(Action::AdvanceConfig, &mut src, &mut probe, by), None);
    assert_eq!(src.level(), 3);
    assert_eq!(execute(Action::AdjustConfig, &mut src, &mut probe, by), None);
    assert_eq!(src.level(), 1);
    assert_eq!(execute(Action::NoOp, &mut src, &mut probe, by), None);
    assert_eq!(src.level(), 1);
    assert_eq!(probe, Probe::Idle);
}

#[test]
fn execute_on_a_ladder_of_one_rung_raises_nothing() {
    let mut src = fresh(1);
    let mut probe = Probe::Idle;
    assert_eq!(execute(Action::AdvanceConfig, &mut src, &mut probe, Decrease::half()), None);
    assert_eq!(src.level(), 0);
}

#[test]
fn execute_keeps_the_cursor() {
    let by = Decrease::half();
    let mut src = source(4, 3);
    let mut probe = Probe::Idle;
    src.next_frame();
    for action in [
        Action::AdjustConfig,
        Action::AdvanceConfig,
        Action::StartProbe,
        Action::IncreaseProbePace,
        Action::StopProbe,
        Action::NoOp,
    ] {
        execute(action, &mut src, &mut probe, by);
        assert_eq!(src.cursor(), 1);
    }
}

#[test]
fn execute_probe_actions() {
    let by = Decrease::half();
    let mut src = source(3, 1);
    let mut probe = Probe::Idle;
    execute(Action::IncreaseProbePace, &mut src, &mut probe, by);
    assert_eq!(probe, Probe::Idle);
    execute(Action::StartProbe, &mut src, &mut probe, by);
    assert_eq!(probe, Probe::Armed(0));
    execute(Action::IncreaseProbePace, &mut src, &mut probe, by);
    execute(Action::IncreaseProbePace, &mut src, &mut probe, by);
    assert_eq!(probe, Probe::Armed(2));
    execute(Action::StartProbe, &mut src, &mut probe, by);
    assert_eq!(probe, Probe::Armed(0));
    execute(Action::StopProbe, &mut src, &mut probe, by);
    assert_eq!(probe, Probe::Idle);
    assert_eq!(src.level(), 1);
}

#[test]
fn controller_and_executor_side_by_side() {
    let by = Decrease::half();
    let mut a = Adaptation::new();
    let mut src = source(4, 3);
    let mut probe = Probe::Idle;
    a.transit(congest(100.0));
    src.adapt(3);
    let mut trace = vec![src.level()];
    for _ in 0..2 {
        let action = a.transit(congest(100.0));
        execute(action, &mut src, &mut probe, by);
        assert_eq!(a.state(), State::Degrade);
        trace.push(src.level());
    }
    assert_eq!(trace, vec![3, 1, 0]);
}
