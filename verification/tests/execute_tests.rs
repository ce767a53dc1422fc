use donkey_make::execute::{
    failed_message, killed_message, outcome_exit_code, periodic_step, signal_name,
    success_message, watch_step, watch_stopped_message, Outcome, PeriodicAction, PeriodicEvent,
    PeriodicPhase, PeriodicState, SignalState, WatchAction, WatchEvent, WatchState,
};

#[test]
fn exit_code_passes_child_code_through() {
    assert_eq!(outcome_exit_code(&Outcome::Exited { code: 0 }), 0);
    assert_eq!(outcome_exit_code(&Outcome::Exited { code: 3 }), 3);
}

#[test]
fn exit_code_signal_sentinel() {
    assert_eq!(outcome_exit_code(&Outcome::Signaled), 99);
}

#[test]
fn signal_names() {
    assert_eq!(signal_name(&SignalState { interrupt: true, terminate: false }), Some("SIGINT"));
    assert_eq!(signal_name(&SignalState { interrupt: false, terminate: true }), Some("SIGTERM"));
    assert_eq!(signal_name(&SignalState { interrupt: true, terminate: true }), Some("SIGINT"));
    assert_eq!(signal_name(&SignalState { interrupt: false, terminate: false }), None);
}

#[test]
fn periodic_child_failure_surfaces_code() {
    let s = PeriodicState { interval_ms: 1000, phase: PeriodicPhase::Running };
    let (_, action) = periodic_step(
        &s,
        &PeriodicEvent::ChildExited { outcome: Outcome::Exited { code: 7 } },
    );
    assert!(matches!(action, PeriodicAction::Stop { code: 7 }));
}

#[test]
fn periodic_child_signal_stops_with_sentinel() {
    let s = PeriodicState { interval_ms: 1000, phase: PeriodicPhase::Running };
    let (_, action) = periodic_step(&s, &PeriodicEvent::ChildExited { outcome: Outcome::Signaled });
    assert!(matches!(action, PeriodicAction::Stop { code: 99 }));
}

#[test]
fn periodic_success_starts_sleeping_in_short_ticks() {
    let s = PeriodicState { interval_ms: 1000, phase: PeriodicPhase::Running };
    let (s1, action) = periodic_step(
        &s,
        &PeriodicEvent::ChildExited { outcome: Outcome::Exited { code: 0 } },
    );
    assert!(matches!(action, PeriodicAction::SleepTick { ms: 20 }));
    assert!(matches!(s1.phase, PeriodicPhase::Sleeping { slept_ms: 0 }));
    let (s2, action2) = periodic_step(&s1, &PeriodicEvent::TickElapsed { cancelled: false });
    assert!(matches!(action2, PeriodicAction::SleepTick { ms: 20 }));
    assert!(matches!(s2.phase, PeriodicPhase::Sleeping { slept_ms: 20 }));
}

#[test]
fn periodic_full_interval_spawns_again() {
    let s = PeriodicState { interval_ms: 30, phase: PeriodicPhase::Sleeping { slept_ms: 20 } };
    let (s1, action) = periodic_step(&s, &PeriodicEvent::TickElapsed { cancelled: false });
    assert!(matches!(action, PeriodicAction::Spawn));
    assert!(matches!(s1.phase, PeriodicPhase::Running));
}

#[test]
fn periodic_short_interval_single_tick() {
    let s = PeriodicState { interval_ms: 10, phase: PeriodicPhase::Running };
    let (s1, action) = periodic_step(
        &s,
        &PeriodicEvent::ChildExited { outcome: Outcome::Exited { code: 0 } },
    );
    assert!(matches!(action, PeriodicAction::SleepTick { ms: 10 }));
    let (_, action2) = periodic_step(&s1, &PeriodicEvent::TickElapsed { cancelled: false });
    assert!(matches!(action2, PeriodicAction::Spawn));
}

#[test]
fn periodic_cancel_stops_within_one_tick() {
    // deep inside a long interval, the first polled tick after the signal stops the loop
    let s = PeriodicState { interval_ms: 60_000, phase: PeriodicPhase::Sleeping { slept_ms: 40 } };
    let (_, action) = periodic_step(&s, &PeriodicEvent::TickElapsed { cancelled: true });
    assert!(matches!(action, PeriodicAction::Stop { code: 0 }));
}

#[test]
fn watch_burst_triggers_single_restart() {
    let s0 = WatchState::new(500);
    // a burst of five changes inside the debounce window: no restart yet
    let mut s = s0;
    for t in [100u64, 150, 200, 250, 300] {
        let (next, action) = watch_step(&s, &WatchEvent::Change { at_ms: t });
        assert!(matches!(action, WatchAction::Wait));
        s = next;
    }
    // still quiet ticks inside the window: keep waiting
    let (s1, a1) = watch_step(&s, &WatchEvent::Tick { now_ms: 700, cancelled: false });
    assert!(matches!(a1, WatchAction::Wait));
    // first tick past the quiet window: exactly one restart
    let (s2, a2) = watch_step(&s1, &WatchEvent::Tick { now_ms: 801, cancelled: false });
    assert!(matches!(a2, WatchAction::Restart));
    // and the burst is cleared: the next tick waits again
    let (_, a3) = watch_step(&s2, &WatchEvent::Tick { now_ms: 2000, cancelled: false });
    assert!(matches!(a3, WatchAction::Wait));
}

#[test]
fn watch_ceiling_forces_restart_under_continuous_events() {
    let s0 = WatchState::new(100);
    let (s1, _) = watch_step(&s0, &WatchEvent::Change { at_ms: 0 });
    let (s2, _) = watch_step(&s1, &WatchEvent::Change { at_ms: 390 });
    // the latest change is recent (11ms < 100ms quiet window), but the burst
    // is older than the 4x ceiling: restart anyway
    let (_, action) = watch_step(&s2, &WatchEvent::Tick { now_ms: 401, cancelled: false });
    assert!(matches!(action, WatchAction::Restart));
}

#[test]
fn watch_cancel_stops_cleanly() {
    let s0 = WatchState::new(500);
    let (s1, _) = watch_step(&s0, &WatchEvent::Change { at_ms: 10 });
    let (_, action) = watch_step(&s1, &WatchEvent::Tick { now_ms: 20, cancelled: true });
    assert!(matches!(action, WatchAction::StopClean));
}

#[test]
fn report_messages() {
    let name = "build".to_string();
    let dur = "5.000ms".to_string();
    assert_eq!(
        success_message(&name, &dur),
        "Command \"build\" successful in 5.000ms \u{1f44d}"
    );
    assert_eq!(
        failed_message(&name, &dur, 3),
        "Command \"build\" failed in 5.000ms, exit code 3 \u{1f44e}"
    );
    assert_eq!(
        failed_message(&name, &dur, -1),
        "Command \"build\" failed in 5.000ms, exit code -1 \u{1f44e}"
    );
    assert_eq!(
        killed_message(&name, "SIGINT", &dur),
        "Command \"build\" killed with signal SIGINT after 5.000ms \u{270b}"
    );
    assert_eq!(
        watch_stopped_message(&name, "SIGTERM", &dur),
        "Running \"build\" stopped with signal SIGTERM after 5.000ms"
    );
}
