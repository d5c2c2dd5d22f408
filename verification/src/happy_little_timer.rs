//! The inner countdown timer: what it does with the instruction it reads on
//! each tick.

use vstd::prelude::*;

verus! {

/// What the timer can be told.
#[derive(Clone, Copy, Debug, PartialEq, Eq, Structural)]
pub enum TimerInstruction {
    Reset,
    Cancel,
}

/// Whether the timer is counting down.
#[derive(Clone, Copy, Debug, PartialEq, Eq, Structural)]
pub enum TickState {
    Idle,
    CountingDown,
}

/// What a non-blocking read of the instruction channel gave.
#[derive(Clone, Copy, Debug, PartialEq, Eq, Structural)]
pub enum InstructionRead {
    /// An instruction was waiting.
    Got(TimerInstruction),
    /// Nothing was waiting.
    Nothing,
    /// Every sender is gone.
    Closed,
}

/// How the tick loop goes on.
#[derive(Clone, Copy, Debug, PartialEq, Eq, Structural)]
pub enum NextStep {
    Continue(TickState),
    Terminate,
}

/// The decision for one read: the next step, and whether the remaining time
/// goes back to the full timeout.
#[derive(Clone, Copy, Debug, PartialEq, Eq, Structural)]
pub struct InstructionOutcome {
    pub next: NextStep,
    pub restart_countdown: bool,
}

/// Reset restarts the countdown, Cancel idles, a closed channel ends the loop,
/// and nothing waiting keeps the current state.
pub open spec fn instruction_outcome(read: InstructionRead, current_state: TickState) -> InstructionOutcome {
    match read {
        InstructionRead::Got(TimerInstruction::Reset) => InstructionOutcome {
            next: NextStep::Continue(TickState::CountingDown),
            restart_countdown: true,
        },
        InstructionRead::Got(TimerInstruction::Cancel) => InstructionOutcome {
            next: NextStep::Continue(TickState::Idle),
            restart_countdown: false,
        },
        InstructionRead::Closed => InstructionOutcome {
            next: NextStep::Terminate,
            restart_countdown: false,
        },
        InstructionRead::Nothing => InstructionOutcome {
            next: NextStep::Continue(current_state),
            restart_countdown: false,
        },
    }
}

/// Applies at most one pending instruction to the tick state.
pub fn apply_instruction(read: InstructionRead, current_state: TickState) -> (r: InstructionOutcome)
    ensures
        r == instruction_outcome(read, current_state),
{
    match read {
        InstructionRead::Got(TimerInstruction::Reset) => InstructionOutcome {
            next: NextStep::Continue(TickState::CountingDown),
            restart_countdown: true,
        },
        InstructionRead::Got(TimerInstruction::Cancel) => InstructionOutcome {
            next: NextStep::Continue(TickState::Idle),
            restart_countdown: false,
        },
        InstructionRead::Closed => InstructionOutcome {
            next: NextStep::Terminate,
            restart_countdown: false,
        },
        InstructionRead::Nothing => InstructionOutcome {
            next: NextStep::Continue(current_state),
            restart_countdown: false,
        },
    }
}

/// What one read does to the inner timer: the countdown restarts exactly
/// when a Reset was read, and then it is counting down; Cancel idles it; a
/// closed channel ends the loop; with nothing read the state stays as it was
/// and the remaining time is left alone.
pub proof fn lemma_instruction_outcome_agrees(read: InstructionRead, current_state: TickState)
    ensures
        ({
            let r = instruction_outcome(read, current_state);
            &&& r.restart_countdown == (read == InstructionRead::Got(TimerInstruction::Reset))
            &&& r.restart_countdown ==> r.next == NextStep::Continue(TickState::CountingDown)
            &&& read == InstructionRead::Got(TimerInstruction::Cancel) ==> r.next
                == NextStep::Continue(TickState::Idle)
            &&& r.next == NextStep::Terminate <==> read == InstructionRead::Closed
            &&& read == InstructionRead::Nothing ==> r.next == NextStep::Continue(current_state)
                && !r.restart_countdown
        }),
{
}

/// The inner timer over a run of ticks, with the remaining time counted in
/// whole ticks: a restart sets it to `full`; each tick spent counting down
/// takes one off, and when it reaches zero the timer notifies once and goes
/// idle. Gives the number of notifications.
pub open spec fn tick_run(state: TickState, left: nat, full: nat, reads: Seq<InstructionRead>) -> nat
    decreases reads.len(),
{
    if reads.len() == 0 {
        0
    } else {
        let o = instruction_outcome(reads[0], state);
        match o.next {
            NextStep::Terminate => 0,
            NextStep::Continue(s) => {
                let left1: nat = if o.restart_countdown {
                    full
                } else {
                    left
                };
                if s == TickState::CountingDown {
                    let left2: nat = if left1 > 0 {
                        (left1 - 1) as nat
                    } else {
                        0
                    };
                    if left2 == 0 {
                        1 + tick_run(TickState::Idle, left2, full, reads.drop_first())
                    } else {
                        tick_run(s, left2, full, reads.drop_first())
                    }
                } else {
                    tick_run(s, left1, full, reads.drop_first())
                }
            },
        }
    }
}

/// `n` ticks on which nothing is read.
pub open spec fn quiet_ticks(n: nat) -> Seq<InstructionRead> {
    Seq::new(n, |i: int| InstructionRead::Nothing)
}

/// Left alone, an idle timer never notifies; a countdown with `left` ticks
/// to go notifies exactly once if at least `left` ticks pass, and not at all
/// before.
pub proof fn lemma_quiet_ticks(state: TickState, left: nat, full: nat, n: nat)
    requires
        state == TickState::CountingDown ==> left >= 1,
    ensures
        state == TickState::Idle ==> tick_run(state, left, full, quiet_ticks(n)) == 0,
        state == TickState::CountingDown ==> tick_run(state, left, full, quiet_ticks(n)) == (if n
            >= left {
            1nat
        } else {
            0nat
        }),
    decreases n,
{
    if n > 0 {
        let reads = quiet_ticks(n);
        assert(reads.drop_first() =~= quiet_ticks((n - 1) as nat));
        assert(reads[0] == InstructionRead::Nothing);
        if state == TickState::CountingDown {
            if left == 1 {
                lemma_quiet_ticks(TickState::Idle, 0, full, (n - 1) as nat);
            } else {
                lemma_quiet_ticks(state, (left - 1) as nat, full, (n - 1) as nat);
            }
        } else {
            lemma_quiet_ticks(state, left, full, (n - 1) as nat);
        }
    }
}

/// A Reset that is left alone expires: after a Reset read from any state,
/// `full - 1` or more quiet ticks give exactly one notification (and fewer
/// give none).
pub proof fn lemma_reset_left_alone_expires(state: TickState, left: nat, full: nat, n: nat)
    requires
        full >= 1,
    ensures
        tick_run(
            state,
            left,
            full,
            seq![InstructionRead::Got(TimerInstruction::Reset)] + quiet_ticks(n),
        ) == (if n + 1 >= full {
            1nat
        } else {
            0nat
        }),
{
    let reads = seq![InstructionRead::Got(TimerInstruction::Reset)] + quiet_ticks(n);
    assert(reads.drop_first() =~= quiet_ticks(n));
    assert(reads[0] == InstructionRead::Got(TimerInstruction::Reset));
    if full == 1 {
        lemma_quiet_ticks(TickState::Idle, 0, full, n);
    } else {
        lemma_quiet_ticks(TickState::CountingDown, (full - 1) as nat, full, n);
    }
}

/// After the tick: a countdown whose time has run out notifies once and goes
/// idle; anything else stays as it is. Gives the new state and whether to
/// notify.
pub fn after_tick(state: TickState, time_is_up: bool) -> (r: (TickState, bool))
    ensures
        r.1 == (state == TickState::CountingDown && time_is_up),
        r.0 == (if r.1 {
            TickState::Idle
        } else {
            state
        }),
{
    match state {
        TickState::CountingDown => {
            if time_is_up {
                (TickState::Idle, true)
            } else {
                (state, false)
            }
        },
        TickState::Idle => (state, false),
    }
}

} // verus!
