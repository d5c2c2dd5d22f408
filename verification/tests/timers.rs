use text_diff::batch_text_edits::{diff_needed_now, Event};
use text_diff::happy_little_timer::{
    after_tick, apply_instruction, InstructionOutcome, InstructionRead, NextStep as TickNext,
    TickState, TimerInstruction,
};
use text_diff::native_timer::{step, TimerEvent, TimerPhase, TimerStep};
use text_diff::when_to_diff_timer::{
    apply_signal, check_expiry, CountdownState, NextStep, Signal, SignalOutcome, SignalRead,
};

#[test]
fn signals_decide_state_fire_and_forward() {
    assert_eq!(
        apply_signal(SignalRead::Got(Signal::Reset), CountdownState::Idle),
        SignalOutcome {
            next: NextStep::Continue(CountdownState::CountingDown),
            fire: false,
            forward: Some(TimerInstruction::Reset)
        }
    );
    assert_eq!(
        apply_signal(SignalRead::Got(Signal::FireAndClear), CountdownState::CountingDown),
        SignalOutcome {
            next: NextStep::Continue(CountdownState::Idle),
            fire: true,
            forward: Some(TimerInstruction::Cancel)
        }
    );
    assert_eq!(
        apply_signal(SignalRead::Got(Signal::FireAndReset), CountdownState::Idle).fire,
        true
    );
    assert_eq!(
        apply_signal(SignalRead::Got(Signal::Cancel), CountdownState::CountingDown).next,
        NextStep::Continue(CountdownState::Idle)
    );
    assert_eq!(
        apply_signal(SignalRead::Got(Signal::Shutdown), CountdownState::Idle).next,
        NextStep::Terminate
    );
    assert_eq!(apply_signal(SignalRead::Disconnected, CountdownState::Idle).next, NextStep::Terminate);
    assert_eq!(
        apply_signal(SignalRead::Empty, CountdownState::CountingDown),
        SignalOutcome {
            next: NextStep::Continue(CountdownState::CountingDown),
            fire: false,
            forward: None
        }
    );
}

#[test]
fn expiry_fires_once_then_idles() {
    assert_eq!(check_expiry(CountdownState::CountingDown, true), (CountdownState::Idle, true));
    assert_eq!(check_expiry(CountdownState::CountingDown, false), (CountdownState::CountingDown, false));
    assert_eq!(check_expiry(CountdownState::Idle, true), (CountdownState::Idle, false));
}

#[test]
fn inner_timer_instructions() {
    assert_eq!(
        apply_instruction(InstructionRead::Got(TimerInstruction::Reset), TickState::Idle),
        InstructionOutcome { next: TickNext::Continue(TickState::CountingDown), restart_countdown: true }
    );
    assert_eq!(
        apply_instruction(InstructionRead::Got(TimerInstruction::Cancel), TickState::CountingDown).next,
        TickNext::Continue(TickState::Idle)
    );
    assert_eq!(apply_instruction(InstructionRead::Closed, TickState::Idle).next, TickNext::Terminate);
    assert_eq!(
        apply_instruction(InstructionRead::Nothing, TickState::CountingDown).next,
        TickNext::Continue(TickState::CountingDown)
    );
    assert_eq!(after_tick(TickState::CountingDown, true), (TickState::Idle, true));
    assert_eq!(after_tick(TickState::Idle, true), (TickState::Idle, false));
}

#[test]
fn native_timer_steps() {
    assert_eq!(step(TimerPhase::Idle, TimerEvent::Reset), (TimerStep::Continue(TimerPhase::CountingDown), false));
    assert_eq!(step(TimerPhase::Idle, TimerEvent::Cancel), (TimerStep::Continue(TimerPhase::Idle), false));
    assert_eq!(step(TimerPhase::CountingDown, TimerEvent::TimedOut), (TimerStep::Continue(TimerPhase::Idle), true));
    assert_eq!(step(TimerPhase::CountingDown, TimerEvent::Shutdown), (TimerStep::Stop, false));
    assert_eq!(step(TimerPhase::Idle, TimerEvent::Disconnected), (TimerStep::Stop, false));
}

#[test]
fn native_timer_never_fires_more_often_than_reset() {
    // reset, time out, time out again (idle: no fire), reset, cancel, time out
    let events = [
        TimerEvent::Reset,
        TimerEvent::TimedOut,
        TimerEvent::TimedOut,
        TimerEvent::Reset,
        TimerEvent::Cancel,
        TimerEvent::TimedOut,
    ];
    let mut phase = TimerPhase::Idle;
    let mut fires = 0;
    for e in events {
        match step(phase, e) {
            (TimerStep::Continue(p), fired) => {
                phase = p;
                if fired {
                    fires += 1;
                }
            }
            (TimerStep::Stop, _) => break,
        }
    }
    assert_eq!(fires, 1);
}

#[test]
fn batching_decides_immediate_diffs() {
    assert!(diff_needed_now(&Event::SingleInsert { character_inserted_was_space_or_newline: true }));
    assert!(!diff_needed_now(&Event::SingleInsert { character_inserted_was_space_or_newline: false }));
    assert!(!diff_needed_now(&Event::SingleDelete));
    assert!(diff_needed_now(&Event::BigInsert));
    assert!(diff_needed_now(&Event::BigDelete));
    assert!(diff_needed_now(&Event::Replace));
}

#[test]
fn countdown_expires_once_per_start() {
    // (signal read, inner timer expired) per pass of the loop
    let passes = [
        (SignalRead::Got(Signal::Reset), false),
        (SignalRead::Empty, true),
        (SignalRead::Empty, true),
        (SignalRead::Empty, true),
        (SignalRead::Got(Signal::FireAndReset), true),
        (SignalRead::Got(Signal::Cancel), true),
    ];
    let mut state = CountdownState::Idle;
    let mut expiry_fires = 0;
    let mut signal_fires = 0;
    for (read, expired) in passes {
        let outcome = apply_signal(read, state);
        if outcome.fire {
            signal_fires += 1;
        }
        state = match outcome.next {
            NextStep::Continue(s) => s,
            NextStep::Terminate => break,
        };
        let (next, fired) = check_expiry(state, expired);
        if fired {
            expiry_fires += 1;
        }
        state = next;
    }
    assert_eq!(expiry_fires, 2);
    assert_eq!(signal_fires, 1);
    assert_eq!(state, CountdownState::Idle);
}

fn native_fires(start: TimerPhase, events: &[TimerEvent]) -> usize {
    let mut phase = start;
    let mut fires = 0;
    for &e in events {
        match step(phase, e) {
            (TimerStep::Continue(p), fired) => {
                phase = p;
                if fired {
                    fires += 1;
                }
            }
            (TimerStep::Stop, _) => break,
        }
    }
    fires
}

#[test]
fn native_cancel_stops_firing() {
    let events = [TimerEvent::Cancel, TimerEvent::TimedOut, TimerEvent::TimedOut];
    assert_eq!(native_fires(TimerPhase::CountingDown, &events), 0);
}

#[test]
fn native_second_reset_restarts_without_firing() {
    let events = [TimerEvent::Reset, TimerEvent::Reset, TimerEvent::TimedOut, TimerEvent::TimedOut];
    assert_eq!(native_fires(TimerPhase::Idle, &events), 1);
}

#[test]
fn native_reset_then_timeout_fires_once() {
    let events = [TimerEvent::Reset, TimerEvent::TimedOut, TimerEvent::Cancel, TimerEvent::TimedOut];
    assert_eq!(native_fires(TimerPhase::CountingDown, &events), 1);
}

/// Runs the countdown loop's decisions over (read, expired) passes and counts
/// the expiry fires.
fn countdown_fires(start: CountdownState, passes: &[(SignalRead, bool)]) -> (usize, Option<CountdownState>) {
    let mut state = start;
    let mut fires = 0;
    for &(read, expired) in passes {
        let outcome = apply_signal(read, state);
        state = match outcome.next {
            NextStep::Continue(s) => s,
            NextStep::Terminate => return (fires, None),
        };
        let (next, fired) = check_expiry(state, expired);
        if fired {
            fires += 1;
        }
        state = next;
    }
    (fires, Some(state))
}

#[test]
fn quiet_interval_fires_at_most_once_then_idles() {
    let quiet = [(SignalRead::Empty, true), (SignalRead::Empty, true), (SignalRead::Empty, true)];
    assert_eq!(countdown_fires(CountdownState::CountingDown, &quiet), (1, Some(CountdownState::Idle)));
    assert_eq!(countdown_fires(CountdownState::Idle, &quiet), (0, Some(CountdownState::Idle)));
}

#[test]
fn after_cancel_or_fire_and_clear_no_expiry() {
    for s in [Signal::Cancel, Signal::FireAndClear] {
        let passes = [(SignalRead::Got(s), true), (SignalRead::Empty, true), (SignalRead::Empty, true)];
        assert_eq!(countdown_fires(CountdownState::CountingDown, &passes), (0, Some(CountdownState::Idle)));
    }
    let passes = [(SignalRead::Got(Signal::Shutdown), true), (SignalRead::Empty, true)];
    assert_eq!(countdown_fires(CountdownState::CountingDown, &passes), (0, None));
}
