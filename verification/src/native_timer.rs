//! A resettable, one-shot-per-fire countdown timer, as seen by the loop that
//! drives it: idle until the first reset; each reset (re)starts the
//! countdown; cancel aborts a pending countdown and goes back to idle; on
//! expiry the callback fires once and the timer is idle again until the next
//! reset.

use vstd::prelude::*;

verus! {

/// Whether the timer is counting down.
#[derive(Clone, Copy, Debug, PartialEq, Eq, Structural)]
pub enum TimerPhase {
    Idle,
    CountingDown,
}

/// What waiting on the timer's channel gave: a signal from the handle, the
/// handle gone, or (while counting down) the timeout elapsing first.
#[derive(Clone, Copy, Debug, PartialEq, Eq, Structural)]
pub enum TimerEvent {
    Reset,
    Cancel,
    Shutdown,
    Disconnected,
    TimedOut,
}

/// How the driving loop goes on.
#[derive(Clone, Copy, Debug, PartialEq, Eq, Structural)]
pub enum TimerStep {
    Continue(TimerPhase),
    Stop,
}

/// The step the loop takes on `event` in `phase`, and whether the callback
/// fires. An idle timer waits without a timeout, so it never sees one.
pub open spec fn timer_step(phase: TimerPhase, event: TimerEvent) -> (TimerStep, bool) {
    match event {
        TimerEvent::Reset => (TimerStep::Continue(TimerPhase::CountingDown), false),
        TimerEvent::Cancel => (TimerStep::Continue(TimerPhase::Idle), false),
        TimerEvent::Shutdown => (TimerStep::Stop, false),
        TimerEvent::Disconnected => (TimerStep::Stop, false),
        TimerEvent::TimedOut => match phase {
            TimerPhase::CountingDown => (TimerStep::Continue(TimerPhase::Idle), true),
            TimerPhase::Idle => (TimerStep::Continue(TimerPhase::Idle), false),
        },
    }
}

/// Decides what the timer loop does with `event` while in `phase`.
pub fn step(phase: TimerPhase, event: TimerEvent) -> (r: (TimerStep, bool))
    ensures
        r == timer_step(phase, event),
{
    match event {
        TimerEvent::Reset => (TimerStep::Continue(TimerPhase::CountingDown), false),
        TimerEvent::Cancel => (TimerStep::Continue(TimerPhase::Idle), false),
        TimerEvent::Shutdown => (TimerStep::Stop, false),
        TimerEvent::Disconnected => (TimerStep::Stop, false),
        TimerEvent::TimedOut => match phase {
            TimerPhase::CountingDown => (TimerStep::Continue(TimerPhase::Idle), true),
            TimerPhase::Idle => (TimerStep::Continue(TimerPhase::Idle), false),
        },
    }
}

/// Runs the loop over `events` from `phase`: the number of times the callback
/// fires, and the phase at the end (`None` once the loop has stopped).
pub open spec fn run_timer(phase: TimerPhase, events: Seq<TimerEvent>) -> (nat, Option<TimerPhase>)
    decreases events.len(),
{
    if events.len() == 0 {
        (0, Some(phase))
    } else {
        let (next, fired) = timer_step(phase, events[0]);
        let now: nat = if fired {
            1
        } else {
            0
        };
        match next {
            TimerStep::Stop => (now, None),
            TimerStep::Continue(p) => {
                let rest = run_timer(p, events.drop_first());
                (now + rest.0, rest.1)
            },
        }
    }
}

/// The number of resets among `events`.
pub open spec fn resets(events: Seq<TimerEvent>) -> nat
    decreases events.len(),
{
    if events.len() == 0 {
        0
    } else {
        (if events[0] == TimerEvent::Reset {
            1nat
        } else {
            0nat
        }) + resets(events.drop_first())
    }
}

pub open spec fn counting(p: Option<TimerPhase>) -> nat {
    if p == Some(TimerPhase::CountingDown) {
        1
    } else {
        0
    }
}

/// From any phase: the fires, plus one if the timer ends up counting down,
/// number at most the resets on the way, plus one if it was counting down
/// at the outset.
pub proof fn lemma_fires_bounded_from(phase: TimerPhase, events: Seq<TimerEvent>)
    ensures
        run_timer(phase, events).0 + counting(run_timer(phase, events).1) <= resets(events)
            + counting(Some(phase)),
    decreases events.len(),
{
    if events.len() > 0 {
        lemma_fires_bounded_from(timer_step(phase, events[0]).0->Continue_0, events.drop_first());
    }
}

/// Every expiry is preceded by its own reset: over any sequence of events, a
/// timer that starts idle fires at most as often as it was reset; in
/// particular it never fires before the first reset.
pub proof fn lemma_fires_at_most_resets(events: Seq<TimerEvent>)
    ensures
        run_timer(TimerPhase::Idle, events).0 <= resets(events),
        resets(events) == 0 ==> run_timer(TimerPhase::Idle, events).0 == 0,
{
    lemma_fires_bounded_from(TimerPhase::Idle, events);
}

/// After a cancel, the timer does not fire again until a later reset.
pub proof fn lemma_cancel_stops_firing(phase: TimerPhase, rest: Seq<TimerEvent>)
    requires
        resets(rest) == 0,
    ensures
        run_timer(phase, seq![TimerEvent::Cancel] + rest).0 == 0,
{
    let all = seq![TimerEvent::Cancel] + rest;
    assert(all.drop_first() =~= rest);
    lemma_fires_bounded_from(TimerPhase::Idle, rest);
}

/// A reset that arrives while counting down restarts the countdown without
/// firing: two resets with no timeout between them, and no reset after,
/// give at most one fire.
pub proof fn lemma_reset_restarts(phase: TimerPhase, rest: Seq<TimerEvent>)
    requires
        resets(rest) == 0,
    ensures
        run_timer(phase, seq![TimerEvent::Reset, TimerEvent::Reset] + rest).0 <= 1,
{
    let all = seq![TimerEvent::Reset, TimerEvent::Reset] + rest;
    let mid = seq![TimerEvent::Reset] + rest;
    assert(all.drop_first() =~= mid);
    assert(mid.drop_first() =~= rest);
    assert(all[0] == TimerEvent::Reset && mid[0] == TimerEvent::Reset);
    lemma_fires_bounded_from(TimerPhase::CountingDown, rest);
    assert(run_timer(TimerPhase::CountingDown, mid).0 == run_timer(TimerPhase::CountingDown, rest).0);
    assert(run_timer(phase, all).0 == run_timer(TimerPhase::CountingDown, mid).0);
}

/// A reset whose countdown runs out fires exactly once, and with no further
/// reset the timer does not fire again.
pub proof fn lemma_reset_then_timeout_fires_once(phase: TimerPhase, rest: Seq<TimerEvent>)
    requires
        resets(rest) == 0,
    ensures
        run_timer(phase, seq![TimerEvent::Reset, TimerEvent::TimedOut] + rest).0 == 1,
{
    let all = seq![TimerEvent::Reset, TimerEvent::TimedOut] + rest;
    let mid = seq![TimerEvent::TimedOut] + rest;
    assert(all.drop_first() =~= mid);
    assert(mid.drop_first() =~= rest);
    assert(all[0] == TimerEvent::Reset && mid[0] == TimerEvent::TimedOut);
    lemma_fires_bounded_from(TimerPhase::Idle, rest);
    assert(run_timer(TimerPhase::CountingDown, mid).0 == 1 + run_timer(TimerPhase::Idle, rest).0);
    assert(run_timer(phase, all).0 == run_timer(TimerPhase::CountingDown, mid).0);
}

} // verus!
