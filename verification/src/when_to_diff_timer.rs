//! The diff timer: its handle sends signals to a countdown loop, and the loop
//! decides, signal by signal and tick by tick, when the diff callback fires.

use vstd::prelude::*;

use std::sync::mpsc::Sender;

use crate::happy_little_timer::TimerInstruction;
use crate::signal_channel::SignalSender;

verus! {

/// What the handle tells the countdown loop.
#[derive(Clone, Copy, Debug, PartialEq, Eq, Structural)]
pub enum Signal {
    Reset,
    Cancel,
    FireAndReset,
    FireAndClear,
    Shutdown,
}

/// Whether the countdown loop is counting down.
#[derive(Clone, Copy, Debug, PartialEq, Eq, Structural)]
pub enum CountdownState {
    Idle,
    CountingDown,
}

/// How the countdown loop goes on.
#[derive(Clone, Copy, Debug, PartialEq, Eq, Structural)]
pub enum NextStep {
    Continue(CountdownState),
    Terminate,
}

/// What a non-blocking read of the signal channel gave.
#[derive(Clone, Copy, Debug, PartialEq, Eq, Structural)]
pub enum SignalRead {
    Got(Signal),
    /// Nothing was waiting.
    Empty,
    /// The handle is gone.
    Disconnected,
}

/// The decision for one read: how the loop goes on, whether the callback
/// fires now, and which instruction goes on to the inner timer.
#[derive(Clone, Copy, Debug, PartialEq, Eq, Structural)]
pub struct SignalOutcome {
    pub next: NextStep,
    pub fire: bool,
    pub forward: Option<TimerInstruction>,
}

/// Reset and Cancel are passed on to the inner timer; the Fire variants fire
/// the callback first and then pass on a Reset or a Cancel; Shutdown and a
/// vanished handle end the loop; nothing waiting keeps the current state.
pub open spec fn signal_outcome(read: SignalRead, current_state: CountdownState) -> SignalOutcome {
    match read {
        SignalRead::Got(Signal::Reset) => SignalOutcome {
            next: NextStep::Continue(CountdownState::CountingDown),
            fire: false,
            forward: Some(TimerInstruction::Reset),
        },
        SignalRead::Got(Signal::Cancel) => SignalOutcome {
            next: NextStep::Continue(CountdownState::Idle),
            fire: false,
            forward: Some(TimerInstruction::Cancel),
        },
        SignalRead::Got(Signal::FireAndReset) => SignalOutcome {
            next: NextStep::Continue(CountdownState::CountingDown),
            fire: true,
            forward: Some(TimerInstruction::Reset),
        },
        SignalRead::Got(Signal::FireAndClear) => SignalOutcome {
            next: NextStep::Continue(CountdownState::Idle),
            fire: true,
            forward: Some(TimerInstruction::Cancel),
        },
        SignalRead::Got(Signal::Shutdown) => SignalOutcome {
            next: NextStep::Terminate,
            fire: false,
            forward: None,
        },
        SignalRead::Disconnected => SignalOutcome {
            next: NextStep::Terminate,
            fire: false,
            forward: None,
        },
        SignalRead::Empty => SignalOutcome {
            next: NextStep::Continue(current_state),
            fire: false,
            forward: None,
        },
    }
}

/// Applies at most one pending signal: decides the next state, whether the
/// callback fires, and what the inner timer is told.
pub fn apply_signal(read: SignalRead, current_state: CountdownState) -> (r: SignalOutcome)
    ensures
        r == signal_outcome(read, current_state),
{
    match read {
        SignalRead::Got(Signal::Reset) => SignalOutcome {
            next: NextStep::Continue(CountdownState::CountingDown),
            fire: false,
            forward: Some(TimerInstruction::Reset),
        },
        SignalRead::Got(Signal::Cancel) => SignalOutcome {
            next: NextStep::Continue(CountdownState::Idle),
            fire: false,
            forward: Some(TimerInstruction::Cancel),
        },
        SignalRead::Got(Signal::FireAndReset) => SignalOutcome {
            next: NextStep::Continue(CountdownState::CountingDown),
            fire: true,
            forward: Some(TimerInstruction::Reset),
        },
        SignalRead::Got(Signal::FireAndClear) => SignalOutcome {
            next: NextStep::Continue(CountdownState::Idle),
            fire: true,
            forward: Some(TimerInstruction::Cancel),
        },
        SignalRead::Got(Signal::Shutdown) => SignalOutcome {
            next: NextStep::Terminate,
            fire: false,
            forward: None,
        },
        SignalRead::Disconnected => SignalOutcome {
            next: NextStep::Terminate,
            fire: false,
            forward: None,
        },
        SignalRead::Empty => SignalOutcome {
            next: NextStep::Continue(current_state),
            fire: false,
            forward: None,
        },
    }
}

/// What one read does to the loop, stated signal by signal: the callback
/// fires exactly for the Fire signals; an instruction goes on to the inner
/// timer exactly for the four timer signals, and it agrees with the state
/// the loop moves to (Reset when it goes on counting down, Cancel when it
/// goes idle); Shutdown and a vanished handle end the loop; and nothing
/// waiting leaves the state as it was, fires nothing and forwards nothing.
pub proof fn lemma_signal_outcome_agrees(read: SignalRead, current_state: CountdownState)
    ensures
        ({
            let r = signal_outcome(read, current_state);
            &&& r.fire <==> (read == SignalRead::Got(Signal::FireAndReset) || read
                == SignalRead::Got(Signal::FireAndClear))
            &&& r.forward is Some <==> (read == SignalRead::Got(Signal::Reset) || read
                == SignalRead::Got(Signal::Cancel) || read == SignalRead::Got(Signal::FireAndReset)
                || read == SignalRead::Got(Signal::FireAndClear))
            &&& r.forward == Some(TimerInstruction::Reset) ==> r.next == NextStep::Continue(
                CountdownState::CountingDown,
            )
            &&& r.forward == Some(TimerInstruction::Cancel) ==> r.next == NextStep::Continue(
                CountdownState::Idle,
            )
            &&& (r.forward is Some && r.next == NextStep::Continue(CountdownState::CountingDown))
                ==> r.forward == Some(TimerInstruction::Reset)
            &&& (r.forward is Some && r.next == NextStep::Continue(CountdownState::Idle))
                ==> r.forward == Some(TimerInstruction::Cancel)
            &&& r.next == NextStep::Terminate <==> (read == SignalRead::Got(Signal::Shutdown)
                || read == SignalRead::Disconnected)
            &&& read == SignalRead::Empty ==> r == SignalOutcome {
                next: NextStep::Continue(current_state),
                fire: false,
                forward: None,
            }
        }),
{
}

/// The expiry check after a signal was applied: a countdown whose inner timer
/// has run out fires once and goes idle. Gives the new state and whether the
/// callback fires.
pub fn check_expiry(state: CountdownState, expired: bool) -> (r: (CountdownState, bool))
    ensures
        r.1 == (state == CountdownState::CountingDown && expired),
        r.0 == (if r.1 {
            CountdownState::Idle
        } else {
            state
        }),
{
    match state {
        CountdownState::CountingDown => {
            if expired {
                (CountdownState::Idle, true)
            } else {
                (state, false)
            }
        },
        CountdownState::Idle => (state, false),
    }
}

/// One pass of the countdown loop: the read signal is applied, then expiry is
/// checked. Gives the state afterwards (`None` once the loop ends) and
/// whether the expiry check fired the callback.
pub open spec fn countdown_tick(state: CountdownState, read: SignalRead, expired: bool) -> (
    Option<CountdownState>,
    bool,
) {
    match signal_outcome(read, state).next {
        NextStep::Terminate => (None, false),
        NextStep::Continue(s) => if s == CountdownState::CountingDown && expired {
            (Some(CountdownState::Idle), true)
        } else {
            (Some(s), false)
        },
    }
}

/// Runs the countdown loop over a sequence of (read, expired) passes: the
/// number of expiry fires and the state at the end.
pub open spec fn run_countdown(state: CountdownState, passes: Seq<(SignalRead, bool)>) -> (
    nat,
    Option<CountdownState>,
)
    decreases passes.len(),
{
    if passes.len() == 0 {
        (0, Some(state))
    } else {
        let (next, fired) = countdown_tick(state, passes[0].0, passes[0].1);
        let now: nat = if fired {
            1
        } else {
            0
        };
        match next {
            None => (now, None),
            Some(s) => {
                let rest = run_countdown(s, passes.drop_first());
                (now + rest.0, rest.1)
            },
        }
    }
}

/// The number of passes that read a signal starting a countdown (Reset or
/// FireAndReset).
pub open spec fn countdown_starts(passes: Seq<(SignalRead, bool)>) -> nat
    decreases passes.len(),
{
    if passes.len() == 0 {
        0
    } else {
        (if passes[0].0 == SignalRead::Got(Signal::Reset) || passes[0].0 == SignalRead::Got(
            Signal::FireAndReset,
        ) {
            1nat
        } else {
            0nat
        }) + countdown_starts(passes.drop_first())
    }
}

pub open spec fn counting_down(s: Option<CountdownState>) -> nat {
    if s == Some(CountdownState::CountingDown) {
        1
    } else {
        0
    }
}

/// From any state: the expiry fires, plus one if the loop ends up counting
/// down, number at most the countdowns started on the way, plus one if it
/// was counting down at the outset.
pub proof fn lemma_expiry_bounded_from(state: CountdownState, passes: Seq<(SignalRead, bool)>)
    ensures
        run_countdown(state, passes).0 + counting_down(run_countdown(state, passes).1)
            <= countdown_starts(passes) + counting_down(Some(state)),
    decreases passes.len(),
{
    if passes.len() > 0 {
        let next = countdown_tick(state, passes[0].0, passes[0].1).0;
        if next is Some {
            lemma_expiry_bounded_from(next->Some_0, passes.drop_first());
        }
    }
}

/// Expiry fires once per countdown: starting idle, the callback fires on
/// expiry at most as many times as a countdown was started by Reset or
/// FireAndReset, and never before the first one.
pub proof fn lemma_expiry_fires_at_most_starts(passes: Seq<(SignalRead, bool)>)
    ensures
        run_countdown(CountdownState::Idle, passes).0 <= countdown_starts(passes),
        countdown_starts(passes) == 0 ==> run_countdown(CountdownState::Idle, passes).0 == 0,
{
    lemma_expiry_bounded_from(CountdownState::Idle, passes);
}

/// No signal is read in any of the passes.
pub open spec fn quiet(passes: Seq<(SignalRead, bool)>) -> bool {
    forall|k: int| 0 <= k < passes.len() ==> (#[trigger] passes[k]).0 == SignalRead::Empty
}

/// Between two handled signals the loop keeps running; the expiry fires at
/// most once, only if it was counting down, and after it fires the loop is
/// idle.
pub proof fn lemma_quiet_interval(state: CountdownState, passes: Seq<(SignalRead, bool)>)
    requires
        quiet(passes),
    ensures
        run_countdown(state, passes).1 is Some,
        run_countdown(state, passes).0 <= counting_down(Some(state)),
        run_countdown(state, passes).0 == 1 ==> run_countdown(state, passes).1 == Some(
            CountdownState::Idle,
        ),
        state == CountdownState::Idle ==> run_countdown(state, passes) == (
            0nat,
            Some(CountdownState::Idle),
        ),
    decreases passes.len(),
{
    if passes.len() > 0 {
        assert(passes[0].0 == SignalRead::Empty);
        let next = countdown_tick(state, passes[0].0, passes[0].1).0->Some_0;
        let rest = passes.drop_first();
        assert forall|k: int| 0 <= k < rest.len() implies (#[trigger] rest[k]).0
            == SignalRead::Empty by {
            assert(rest[k] == passes[k + 1]);
        }
        lemma_quiet_interval(next, rest);
    }
}

/// What one handled signal leads to until the next one: after Cancel or
/// FireAndClear the expiry never fires and the loop stays idle; after Reset
/// or FireAndReset it fires at most once, and then the loop is idle; after
/// Shutdown the loop has ended. (The Fire signals fire the callback once
/// when handled, as `signal_outcome` states; this counts expiry fires.)
pub proof fn lemma_after_signal(
    state: CountdownState,
    signal: Signal,
    expired: bool,
    passes: Seq<(SignalRead, bool)>,
)
    requires
        quiet(passes),
    ensures
        ({
            let run = run_countdown(state, seq![(SignalRead::Got(signal), expired)] + passes);
            &&& (signal == Signal::Cancel || signal == Signal::FireAndClear) ==> run == (
                0nat,
                Some(CountdownState::Idle),
            )
            &&& (signal == Signal::Reset || signal == Signal::FireAndReset) ==> run.0 <= 1 && (
            run.0 == 1 ==> run.1 == Some(CountdownState::Idle))
            &&& signal == Signal::Shutdown ==> run == (0nat, None::<CountdownState>)
        }),
{
    let all = seq![(SignalRead::Got(signal), expired)] + passes;
    assert(all.drop_first() =~= passes);
    assert(all[0] == (SignalRead::Got(signal), expired));
    let next = countdown_tick(state, SignalRead::Got(signal), expired).0;
    if next is Some {
        lemma_quiet_interval(next->Some_0, passes);
    }
}

/// Handle of a running countdown loop.
pub struct DiffTimer {
    channel: SignalSender,
}

impl DiffTimer {
    /// The signals handed to the countdown loop so far, oldest first: those
    /// passed to `Sender::send` on the channel to the loop.
    pub closed spec fn sent(&self) -> Seq<Signal> {
        self.channel.log()
    }

    /// A handle that talks to the countdown loop reading from the other end
    /// of `tx`.
    pub fn from_sender(tx: Sender<Signal>) -> (r: DiffTimer)
        ensures
            r.sent() == Seq::<Signal>::empty(),
    {
        DiffTimer { channel: SignalSender::new(tx) }
    }

    fn signal(&mut self, signal: Signal)
        ensures
            final(self).sent() == old(self).sent().push(signal),
    {
        self.channel.send(signal);
    }

    /// (Re)starts the countdown.
    pub fn reset(&mut self)
        ensures
            final(self).sent() == old(self).sent().push(Signal::Reset),
    {
        self.signal(Signal::Reset);
    }

    /// Aborts a pending countdown.
    pub fn cancel(&mut self)
        ensures
            final(self).sent() == old(self).sent().push(Signal::Cancel),
    {
        self.signal(Signal::Cancel);
    }

    /// Fires the callback now and keeps counting down.
    pub fn fire_and_reset(&mut self)
        ensures
            final(self).sent() == old(self).sent().push(Signal::FireAndReset),
    {
        self.signal(Signal::FireAndReset);
    }

    /// Fires the callback now and goes idle.
    pub fn fire_and_clear(&mut self)
        ensures
            final(self).sent() == old(self).sent().push(Signal::FireAndClear),
    {
        self.signal(Signal::FireAndClear);
    }

    /// Stops the countdown loop.
    pub fn shutdown(&mut self)
        ensures
            final(self).sent() == old(self).sent().push(Signal::Shutdown),
    {
        self.signal(Signal::Shutdown);
    }
}

} // verus!
