//! The execution supervisor's decision logic: how one child outcome maps
//! to the process exit code, tiered duration formatting, the cooperative
//! cancellation monitor's naming, and the state machines that drive
//! periodic and watch execution.
//!
//! All blocking work (spawning, waiting, sleeping, receiving filesystem
//! events) happens outside the library; the caller feeds each observed
//! event into a step function here and performs the action it returns.

use vstd::prelude::*;
use vstd::string::*;

use crate::text::{dec_str, i64_to_string, int_str, pad3, u64_to_string, u64_to_string_pad3};

verus! {

/// The exit code this process reports when the child was killed by a
/// signal; chosen apart from plausible child exit codes.
pub const SIGNAL_EXIT_CODE: i32 = 99;

/// The exit code this process reports when the engine itself failed
/// (composition or I/O), distinct from any child failure.
pub const ENGINE_ERROR_CODE: i32 = 100;

/// How one child process ended.
#[derive(Debug)]
pub enum Outcome {
    Exited { code: i32 },
    Signaled,
}

/// The process exit code owed for a child outcome: the child's own code,
/// or the signal sentinel.
pub open spec fn outcome_exit_code_spec(o: Outcome) -> int {
    match o {
        Outcome::Exited { code } => code as int,
        Outcome::Signaled => SIGNAL_EXIT_CODE as int,
    }
}

/// Maps a child outcome to this process's exit code.
pub fn outcome_exit_code(o: &Outcome) -> (r: i32)
    ensures
        r as int == outcome_exit_code_spec(*o),
{
    match o {
        Outcome::Exited { code } => *code,
        Outcome::Signaled => SIGNAL_EXIT_CODE,
    }
}

/// The cancellation monitor's state: which of the two registered
/// process-wide flags have been set by a signal.
#[derive(Debug)]
pub struct SignalState {
    pub interrupt: bool,
    pub terminate: bool,
}

/// The name of the pending signal, interrupt first, or nothing.
pub open spec fn signal_name_spec(s: SignalState) -> Option<Seq<char>> {
    if s.interrupt {
        Some("SIGINT"@)
    } else if s.terminate {
        Some("SIGTERM"@)
    } else {
        None
    }
}

/// Whether a cancellation signal is pending.
pub open spec fn cancelled_spec(s: SignalState) -> bool {
    s.interrupt || s.terminate
}

/// The name of the pending cancellation signal, if one arrived.
pub fn signal_name(sig: &SignalState) -> (r: Option<&'static str>)
    ensures
        match r {
            Some(n) => signal_name_spec(*sig) == Some(n@),
            None => signal_name_spec(*sig) is None,
        },
        r is Some <==> cancelled_spec(*sig),
{
    if sig.interrupt {
        Some("SIGINT")
    } else if sig.terminate {
        Some("SIGTERM")
    } else {
        None
    }
}

/// Tiered rendering of an elapsed time given in microseconds: fractional
/// milliseconds below ten milliseconds, whole milliseconds below one
/// second, fractional seconds below one hundred seconds, whole seconds
/// beyond.  A zero duration renders as "0.000ms"; a caller holding a
/// negative duration clamps it to zero before converting.
pub open spec fn format_duration_spec(us: nat) -> Seq<char> {
    if us < 10_000 {
        dec_str(us / 1000) + "."@ + pad3(us % 1000) + "ms"@
    } else if us < 1_000_000 {
        dec_str(us / 1000) + "ms"@
    } else if us < 100_000_000 {
        dec_str(us / 1_000_000) + "."@ + pad3((us % 1_000_000) / 1000) + "s"@
    } else {
        dec_str(us / 1_000_000) + "s"@
    }
}

/// Renders an elapsed time, given in microseconds, with tiered precision.
pub fn format_duration(micros: u64) -> (r: String)
    ensures
        r@ == format_duration_spec(micros as nat),
{
    if micros < 10_000 {
        let mut s = u64_to_string(micros / 1000);
        s.append(".");
        let frac = u64_to_string_pad3(micros % 1000);
        s.append(frac.as_str());
        s.append("ms");
        proof {
            assert(s@ =~= format_duration_spec(micros as nat));
        }
        s
    } else if micros < 1_000_000 {
        let mut s = u64_to_string(micros / 1000);
        s.append("ms");
        proof {
            assert(s@ =~= format_duration_spec(micros as nat));
        }
        s
    } else if micros < 100_000_000 {
        let mut s = u64_to_string(micros / 1_000_000);
        s.append(".");
        let frac = u64_to_string_pad3((micros % 1_000_000) / 1000);
        s.append(frac.as_str());
        s.append("s");
        proof {
            assert(s@ =~= format_duration_spec(micros as nat));
        }
        s
    } else {
        let mut s = u64_to_string(micros / 1_000_000);
        s.append("s");
        proof {
            assert(s@ =~= format_duration_spec(micros as nat));
        }
        s
    }
}

/// One short cancellation-poll tick, in milliseconds: loops never sleep
/// or block longer than this at a stretch.
pub const TICK_MS: u64 = 20;

/// Where the periodic loop stands: a child is running, or the loop is
/// part-way through the sleep between runs.
#[derive(Debug)]
pub enum PeriodicPhase {
    Running,
    Sleeping { slept_ms: u64 },
}

/// The periodic supervisor's state.
#[derive(Debug)]
pub struct PeriodicState {
    pub interval_ms: u64,
    pub phase: PeriodicPhase,
}

/// What the periodic supervisor asks its driver to do next.
#[derive(Debug)]
pub enum PeriodicAction {
    Spawn,
    SleepTick { ms: u64 },
    Stop { code: i32 },
}

/// What the driver observed since the last decision.
#[derive(Debug)]
pub enum PeriodicEvent {
    ChildExited { outcome: Outcome },
    TickElapsed { cancelled: bool },
}

impl PeriodicState {
    /// The sleep already performed never exceeds the interval.
    pub open spec fn wf(&self) -> bool {
        match self.phase {
            PeriodicPhase::Running => true,
            PeriodicPhase::Sleeping { slept_ms } => slept_ms <= self.interval_ms,
        }
    }

    /// Whether the held event fits the current phase: a running child
    /// reports its exit, a sleeping loop reports an elapsed tick.
    pub open spec fn accepts(&self, e: PeriodicEvent) -> bool {
        match (self.phase, e) {
            (PeriodicPhase::Running, PeriodicEvent::ChildExited { .. }) => true,
            (PeriodicPhase::Sleeping { .. }, PeriodicEvent::TickElapsed { .. }) => true,
            _ => false,
        }
    }
}

/// The next sleep step: a full short tick, or the remainder of the
/// interval when less is left.
pub open spec fn tick_size_spec(interval_ms: int, slept_ms: int) -> int {
    if interval_ms - slept_ms < TICK_MS as int {
        interval_ms - slept_ms
    } else {
        TICK_MS as int
    }
}

/// One decision of the periodic supervisor.
///
/// After a child exits zero the loop starts sleeping; a non-zero exit
/// code stops the loop and surfaces that code; a killed child stops it
/// with the signal sentinel.  While sleeping, each elapsed tick first
/// checks cancellation — a pending signal stops the loop at once with a
/// clean zero — then either asks for the next short tick or, once the
/// whole interval has passed, spawns the child again.
pub open spec fn periodic_step_spec(s: PeriodicState, e: PeriodicEvent) -> (
    PeriodicState,
    PeriodicAction,
) {
    match (s.phase, e) {
        (PeriodicPhase::Running, PeriodicEvent::ChildExited { outcome }) => match outcome {
            Outcome::Exited { code } => if code != 0 {
                (s, PeriodicAction::Stop { code })
            } else {
                (
                    PeriodicState { interval_ms: s.interval_ms, phase: PeriodicPhase::Sleeping { slept_ms: 0 } },
                    PeriodicAction::SleepTick { ms: tick_size_spec(s.interval_ms as int, 0) as u64 },
                )
            },
            Outcome::Signaled => (s, PeriodicAction::Stop { code: SIGNAL_EXIT_CODE }),
        },
        (PeriodicPhase::Sleeping { slept_ms }, PeriodicEvent::TickElapsed { cancelled }) => {
            if cancelled {
                (s, PeriodicAction::Stop { code: 0 })
            } else {
                let slept_new = slept_ms + tick_size_spec(s.interval_ms as int, slept_ms as int);
                if slept_new >= s.interval_ms {
                    (
                        PeriodicState { interval_ms: s.interval_ms, phase: PeriodicPhase::Running },
                        PeriodicAction::Spawn,
                    )
                } else {
                    (
                        PeriodicState {
                            interval_ms: s.interval_ms,
                            phase: PeriodicPhase::Sleeping { slept_ms: slept_new as u64 },
                        },
                        PeriodicAction::SleepTick {
                            ms: tick_size_spec(s.interval_ms as int, slept_new) as u64,
                        },
                    )
                }
            }
        },
        _ => (s, PeriodicAction::Stop { code: 0 }),
    }
}

/// Performs one decision of the periodic supervisor.
pub fn periodic_step(s: &PeriodicState, e: &PeriodicEvent) -> (r: (PeriodicState, PeriodicAction))
    requires
        s.wf(),
        s.accepts(*e),
    ensures
        r == periodic_step_spec(*s, *e),
        r.0.wf(),
        r.0.interval_ms == s.interval_ms,
{
    match (&s.phase, e) {
        (PeriodicPhase::Running, PeriodicEvent::ChildExited { outcome }) => match outcome {
            Outcome::Exited { code } => {
                if *code != 0 {
                    (
                        PeriodicState { interval_ms: s.interval_ms, phase: PeriodicPhase::Running },
                        PeriodicAction::Stop { code: *code },
                    )
                } else {
                    let first_tick = if s.interval_ms < TICK_MS {
                        s.interval_ms
                    } else {
                        TICK_MS
                    };
                    (
                        PeriodicState {
                            interval_ms: s.interval_ms,
                            phase: PeriodicPhase::Sleeping { slept_ms: 0 },
                        },
                        PeriodicAction::SleepTick { ms: first_tick },
                    )
                }
            },
            Outcome::Signaled => (
                PeriodicState { interval_ms: s.interval_ms, phase: PeriodicPhase::Running },
                PeriodicAction::Stop { code: SIGNAL_EXIT_CODE },
            ),
        },
        (PeriodicPhase::Sleeping { slept_ms }, PeriodicEvent::TickElapsed { cancelled }) => {
            if *cancelled {
                (
                    PeriodicState {
                        interval_ms: s.interval_ms,
                        phase: PeriodicPhase::Sleeping { slept_ms: *slept_ms },
                    },
                    PeriodicAction::Stop { code: 0 },
                )
            } else {
                let remaining = s.interval_ms - *slept_ms;
                let step = if remaining < TICK_MS {
                    remaining
                } else {
                    TICK_MS
                };
                let slept_new = *slept_ms + step;
                if slept_new >= s.interval_ms {
                    (
                        PeriodicState { interval_ms: s.interval_ms, phase: PeriodicPhase::Running },
                        PeriodicAction::Spawn,
                    )
                } else {
                    let next_remaining = s.interval_ms - slept_new;
                    let next_step = if next_remaining < TICK_MS {
                        next_remaining
                    } else {
                        TICK_MS
                    };
                    (
                        PeriodicState {
                            interval_ms: s.interval_ms,
                            phase: PeriodicPhase::Sleeping { slept_ms: slept_new },
                        },
                        PeriodicAction::SleepTick { ms: next_step },
                    )
                }
            }
        },
        _ => {
            proof {
                assert(false);
            }
            (
                PeriodicState { interval_ms: s.interval_ms, phase: PeriodicPhase::Running },
                PeriodicAction::Stop { code: 0 },
            )
        },
    }
}

/// Law: a cancellation signal observed during the sleep phase stops the
/// periodic loop at that very tick, with a clean zero exit — never after
/// the rest of the interval.
pub proof fn lemma_cancel_stops_within_one_tick(s: PeriodicState)
    requires
        s.phase matches PeriodicPhase::Sleeping { .. },
    ensures
        periodic_step_spec(s, PeriodicEvent::TickElapsed { cancelled: true }).1
            == (PeriodicAction::Stop { code: 0 }),
{
}

/// The hard debounce ceiling, as a multiple of the quiet window: under a
/// continuous event stream a restart is forced after this many quiet
/// windows' worth of time, even without a gap.
pub const DEBOUNCE_CEILING_FACTOR: u64 = 4;

/// The watch supervisor's debounce bookkeeping.  Times are milliseconds
/// on one monotonic clock; `first_event_ms` and `last_event_ms` describe
/// the pending burst of filesystem changes, if any.
#[derive(Debug)]
pub struct WatchState {
    pub debounce_ms: u64,
    pub first_event_ms: Option<u64>,
    pub last_event_ms: Option<u64>,
}

/// What the driver observed: a filesystem change, or an elapsed receive
/// timeout (which doubles as the cancellation poll).
#[derive(Debug)]
pub enum WatchEvent {
    Change { at_ms: u64 },
    Tick { now_ms: u64, cancelled: bool },
}

/// What the watch supervisor asks its driver to do next.
#[derive(Debug)]
pub enum WatchAction {
    Wait,
    Restart,
    StopClean,
}

impl WatchState {
    /// The debounce window leaves room for the ceiling multiple, the two
    /// event marks travel together, and the first mark is never after
    /// the last.
    pub open spec fn wf(&self) -> bool {
        &&& self.debounce_ms as int <= u64::MAX as int / (DEBOUNCE_CEILING_FACTOR as int)
        &&& (self.first_event_ms is Some <==> self.last_event_ms is Some)
        &&& match (self.first_event_ms, self.last_event_ms) {
            (Some(f), Some(l)) => f <= l,
            _ => true,
        }
    }

    /// Whether the event's clock reading is not before the recorded
    /// marks (one monotonic clock).
    pub open spec fn accepts(&self, e: WatchEvent) -> bool {
        let at = match e {
            WatchEvent::Change { at_ms } => at_ms,
            WatchEvent::Tick { now_ms, .. } => now_ms,
        };
        match self.last_event_ms {
            Some(l) => l <= at,
            None => true,
        }
    }

    /// A fresh watch state with no pending events.
    pub fn new(debounce_ms: u64) -> (r: WatchState)
        requires
            debounce_ms as int <= u64::MAX as int / (DEBOUNCE_CEILING_FACTOR as int),
        ensures
            r.debounce_ms == debounce_ms,
            r.first_event_ms is None,
            r.last_event_ms is None,
            r.wf(),
    {
        WatchState { debounce_ms, first_event_ms: None, last_event_ms: None }
    }
}

/// One decision of the watch supervisor.
///
/// A filesystem change extends the pending burst (and opens one if none
/// is pending); the driver keeps waiting.  An elapsed tick first checks
/// cancellation — a pending signal stops the watch cleanly.  Otherwise a
/// restart is due when the burst has been quiet for more than the
/// debounce window, or when the burst has lasted longer than the hard
/// ceiling (the ceiling factor times the window) even without a quiet
/// gap; the burst marks are then cleared.  Otherwise the driver keeps
/// waiting.
pub open spec fn watch_step_spec(s: WatchState, e: WatchEvent) -> (WatchState, WatchAction) {
    match e {
        WatchEvent::Change { at_ms } => (
            WatchState {
                debounce_ms: s.debounce_ms,
                first_event_ms: if s.first_event_ms is Some {
                    s.first_event_ms
                } else {
                    Some(at_ms)
                },
                last_event_ms: Some(at_ms),
            },
            WatchAction::Wait,
        ),
        WatchEvent::Tick { now_ms, cancelled } => if cancelled {
            (s, WatchAction::StopClean)
        } else {
            let quiet_over = match s.last_event_ms {
                Some(l) => now_ms - l > s.debounce_ms,
                None => false,
            };
            let ceiling_over = match s.first_event_ms {
                Some(f) => now_ms - f > DEBOUNCE_CEILING_FACTOR * s.debounce_ms,
                None => false,
            };
            if quiet_over || ceiling_over {
                (
                    WatchState {
                        debounce_ms: s.debounce_ms,
                        first_event_ms: None,
                        last_event_ms: None,
                    },
                    WatchAction::Restart,
                )
            } else {
                (s, WatchAction::Wait)
            }
        },
    }
}

/// Performs one decision of the watch supervisor.
pub fn watch_step(s: &WatchState, e: &WatchEvent) -> (r: (WatchState, WatchAction))
    requires
        s.wf(),
        s.accepts(*e),
    ensures
        r == watch_step_spec(*s, *e),
        r.0.wf(),
        r.0.debounce_ms == s.debounce_ms,
{
    match e {
        WatchEvent::Change { at_ms } => {
            let first = match &s.first_event_ms {
                Some(f) => Some(*f),
                None => Some(*at_ms),
            };
            (
                WatchState {
                    debounce_ms: s.debounce_ms,
                    first_event_ms: first,
                    last_event_ms: Some(*at_ms),
                },
                WatchAction::Wait,
            )
        },
        WatchEvent::Tick { now_ms, cancelled } => {
            if *cancelled {
                let unchanged = WatchState {
                    debounce_ms: s.debounce_ms,
                    first_event_ms: s.first_event_ms,
                    last_event_ms: s.last_event_ms,
                };
                return (unchanged, WatchAction::StopClean);
            }
            let quiet_over = match &s.last_event_ms {
                Some(l) => *now_ms - *l > s.debounce_ms,
                None => false,
            };
            let ceiling_over = match &s.first_event_ms {
                Some(f) => *now_ms - *f > DEBOUNCE_CEILING_FACTOR * s.debounce_ms,
                None => false,
            };
            if quiet_over || ceiling_over {
                (
                    WatchState {
                        debounce_ms: s.debounce_ms,
                        first_event_ms: None,
                        last_event_ms: None,
                    },
                    WatchAction::Restart,
                )
            } else {
                (
                    WatchState {
                        debounce_ms: s.debounce_ms,
                        first_event_ms: s.first_event_ms,
                        last_event_ms: s.last_event_ms,
                    },
                    WatchAction::Wait,
                )
            }
        },
    }
}


/// The watch supervisor run over a whole sequence of events: the state
/// it ends in and the action taken at each event.
pub open spec fn watch_run(s: WatchState, events: Seq<WatchEvent>) -> (WatchState, Seq<WatchAction>)
    decreases events.len(),
{
    if events.len() == 0 {
        (s, Seq::empty())
    } else {
        let step = watch_step_spec(s, events[0]);
        let rest = watch_run(step.0, events.drop_first());
        (rest.0, seq![step.1] + rest.1)
    }
}

proof fn lemma_burst_run(s: WatchState, times: Seq<u64>)
    requires
        s.wf(),
        times.len() > 0,
        forall|i: int, j: int| 0 <= i <= j < times.len() ==> times[i] <= times[j],
        match s.last_event_ms {
            Some(l) => l <= times[0],
            None => true,
        },
    ensures
        ({
            let r = watch_run(s, times.map_values(|t: u64| WatchEvent::Change { at_ms: t }));
            &&& forall|i: int| 0 <= i < r.1.len() ==> r.1[i] == WatchAction::Wait
            &&& r.1.len() == times.len()
            &&& r.0.debounce_ms == s.debounce_ms
            &&& r.0.last_event_ms == Some(times.last())
            &&& r.0.first_event_ms == (if s.first_event_ms is Some {
                s.first_event_ms
            } else {
                Some(times[0])
            })
            &&& r.0.wf()
        }),
    decreases times.len(),
{
    let evs = times.map_values(|t: u64| WatchEvent::Change { at_ms: t });
    assert(evs[0] == (WatchEvent::Change { at_ms: times[0] }));
    let s1 = watch_step_spec(s, evs[0]).0;
    if times.len() == 1 {
        assert(evs.drop_first() =~= Seq::<WatchEvent>::empty());
        assert(watch_run(s1, evs.drop_first()).1 =~= Seq::<WatchAction>::empty());
        assert(watch_run(s, evs).1 =~= seq![WatchAction::Wait]);
    } else {
        let times2 = times.drop_first();
        assert(evs.drop_first() =~= times2.map_values(|t: u64| WatchEvent::Change { at_ms: t }));
        assert forall|i: int, j: int| 0 <= i <= j < times2.len() implies times2[i] <= times2[j] by {
            assert(times[i + 1] <= times[j + 1]);
        }
        assert(times2[0] == times[1]);
        assert(times[0] <= times[1]);
        lemma_burst_run(s1, times2);
        let r = watch_run(s, evs);
        let rest = watch_run(s1, evs.drop_first());
        assert(r.1 =~= seq![WatchAction::Wait] + rest.1);
        assert forall|i: int| 0 <= i < r.1.len() implies r.1[i] == WatchAction::Wait by {
            if i > 0 {
                assert(rest.1[i - 1] == WatchAction::Wait);
            }
        }
        assert(times2.last() == times.last());
    }
}

/// Law (burst coalescing): a burst of filesystem changes inside the
/// debounce window triggers no restart by itself — every change is
/// answered with a wait — and the first tick that finds the burst quiet
/// for longer than the window triggers exactly one restart: the burst
/// marks are cleared, so a later tick without new events waits again.
pub proof fn lemma_burst_single_restart(
    s0: WatchState,
    times: Seq<u64>,
    quiet_ms: u64,
    later_ms: u64,
)
    requires
        s0.wf(),
        s0.first_event_ms is None,
        s0.last_event_ms is None,
        times.len() > 0,
        forall|i: int, j: int| 0 <= i <= j < times.len() ==> times[i] <= times[j],
        times.last() <= quiet_ms,
        quiet_ms - times.last() > s0.debounce_ms,
        quiet_ms <= later_ms,
    ensures
        ({
            let burst = watch_run(s0, times.map_values(|t: u64| WatchEvent::Change { at_ms: t }));
            let tick = watch_step_spec(
                burst.0,
                WatchEvent::Tick { now_ms: quiet_ms, cancelled: false },
            );
            &&& forall|i: int| 0 <= i < burst.1.len() ==> burst.1[i] == WatchAction::Wait
            &&& tick.1 == WatchAction::Restart
            &&& watch_step_spec(tick.0, WatchEvent::Tick { now_ms: later_ms, cancelled: false }).1
                == WatchAction::Wait
        }),
{
    lemma_burst_run(s0, times);
}

/// Law (hard ceiling): a tick that finds the burst older than the
/// ceiling — the ceiling factor times the debounce window — forces a
/// restart even when the latest change is arbitrarily recent, so a
/// continuous event stream cannot delay the restart without bound.
pub proof fn lemma_ceiling_forces_restart(s: WatchState, now_ms: u64)
    requires
        s.wf(),
        s.first_event_ms is Some,
        now_ms - s.first_event_ms->0 > DEBOUNCE_CEILING_FACTOR * s.debounce_ms,
    ensures
        watch_step_spec(s, WatchEvent::Tick { now_ms, cancelled: false }).1
            == WatchAction::Restart,
{
}

/// The one-line summary for a child that exited zero.
pub open spec fn success_message_spec(name: Seq<char>, dur: Seq<char>) -> Seq<char> {
    "Command \""@ + name + "\" successful in "@ + dur + " \u{1f44d}"@
}

/// Builds the one-line summary for a child that exited zero.
pub fn success_message(name: &String, dur: &String) -> (r: String)
    ensures
        r@ == success_message_spec(name@, dur@),
{
    let mut s = "Command \"".to_owned();
    s.append(name.as_str());
    s.append("\" successful in ");
    s.append(dur.as_str());
    s.append(" \u{1f44d}");
    proof {
        assert(s@ =~= success_message_spec(name@, dur@));
    }
    s
}

/// The one-line summary for a child that exited non-zero.
pub open spec fn failed_message_spec(name: Seq<char>, dur: Seq<char>, code: int) -> Seq<char> {
    "Command \""@ + name + "\" failed in "@ + dur + ", exit code "@ + int_str(code)
        + " \u{1f44e}"@
}

/// Builds the one-line summary for a child that exited non-zero.
pub fn failed_message(name: &String, dur: &String, code: i32) -> (r: String)
    ensures
        r@ == failed_message_spec(name@, dur@, code as int),
{
    let mut s = "Command \"".to_owned();
    s.append(name.as_str());
    s.append("\" failed in ");
    s.append(dur.as_str());
    s.append(", exit code ");
    let c = i64_to_string(code as i64);
    s.append(c.as_str());
    s.append(" \u{1f44e}");
    proof {
        assert(s@ =~= failed_message_spec(name@, dur@, code as int));
    }
    s
}

/// The one-line summary for a child killed by a signal.
pub open spec fn killed_message_spec(name: Seq<char>, signal: Seq<char>, dur: Seq<char>) -> Seq<
    char,
> {
    "Command \""@ + name + "\" killed with signal "@ + signal + " after "@ + dur + " \u{270b}"@
}

/// Builds the one-line summary for a child killed by a signal.
pub fn killed_message(name: &String, signal: &str, dur: &String) -> (r: String)
    ensures
        r@ == killed_message_spec(name@, signal@, dur@),
{
    let mut s = "Command \"".to_owned();
    s.append(name.as_str());
    s.append("\" killed with signal ");
    s.append(signal);
    s.append(" after ");
    s.append(dur.as_str());
    s.append(" \u{270b}");
    proof {
        assert(s@ =~= killed_message_spec(name@, signal@, dur@));
    }
    s
}

/// The one-line summary for a watch loop stopped by a signal.
pub open spec fn watch_stopped_message_spec(
    name: Seq<char>,
    signal: Seq<char>,
    dur: Seq<char>,
) -> Seq<char> {
    "Running \""@ + name + "\" stopped with signal "@ + signal + " after "@ + dur
}

/// Builds the one-line summary for a watch loop stopped by a signal.
pub fn watch_stopped_message(name: &String, signal: &str, dur: &String) -> (r: String)
    ensures
        r@ == watch_stopped_message_spec(name@, signal@, dur@),
{
    let mut s = "Running \"".to_owned();
    s.append(name.as_str());
    s.append("\" stopped with signal ");
    s.append(signal);
    s.append(" after ");
    s.append(dur.as_str());
    proof {
        assert(s@ =~= watch_stopped_message_spec(name@, signal@, dur@));
    }
    s
}

} // verus!
