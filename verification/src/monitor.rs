//! The trace monitor: the decisions of the loop that forwards the target's
//! output while the program runs, and that ends when the target has stayed
//! halted or the operator interrupts.
//!
//! The monitor reads nothing itself. Whoever holds the probe asks it what to
//! do, does it, and tells it what the target said.

use vstd::prelude::*;

verus! {

/// The number of bytes that one read of the tracing channel takes at most.
pub const READ_CHUNK: usize = 1024;

/// What the loop is to do next.
#[derive(Clone, Copy, Debug, PartialEq, Eq, Structural)]
pub enum Action {
    /// Read the tracing channel, forward what came, ask the target whether
    /// it is halted, and tell the monitor.
    Poll,
    /// The operator interrupted: halt the target, then leave the loop.
    Halt,
    /// Leave the loop.
    Done,
}

/// The state of the monitor.
#[derive(Clone, Copy, Debug, PartialEq, Eq, Structural)]
pub enum Monitor {
    /// The loop runs; `was_halted` is what the last poll saw.
    Polling { was_halted: bool },
    /// Two polls in a row saw the target halted: the program has ended.
    Ended,
    /// The loop is left.
    Finished,
}

/// The decision at the top of a round. `keep_going` is false once the
/// operator has interrupted.
pub open spec fn decide_of(state: Monitor, keep_going: bool) -> (Monitor, Action) {
    match state {
        Monitor::Polling { .. } => if keep_going {
            (state, Action::Poll)
        } else {
            (Monitor::Finished, Action::Halt)
        },
        Monitor::Ended => if keep_going {
            (Monitor::Finished, Action::Done)
        } else {
            (Monitor::Finished, Action::Halt)
        },
        Monitor::Finished => (Monitor::Finished, Action::Done),
    }
}

/// The state after a poll that saw the target halted or not.
pub open spec fn observe_of(state: Monitor, is_halted: bool) -> Monitor {
    match state {
        Monitor::Polling { was_halted } => if is_halted && was_halted {
            Monitor::Ended
        } else {
            Monitor::Polling { was_halted: is_halted }
        },
        _ => state,
    }
}

impl Monitor {
    /// The monitor before the first round.
    pub fn new() -> (monitor: Monitor)
        ensures
            monitor == (Monitor::Polling { was_halted: false }),
    {
        Monitor::Polling { was_halted: false }
    }

    /// Decides what the loop does next.
    pub fn decide(&mut self, keep_going: bool) -> (action: Action)
        ensures
            (*final(self), action) == decide_of(*old(self), keep_going),
    {
        match *self {
            Monitor::Polling { .. } => if keep_going {
                Action::Poll
            } else {
                *self = Monitor::Finished;
                Action::Halt
            },
            Monitor::Ended => {
                *self = Monitor::Finished;
                if keep_going {
                    Action::Done
                } else {
                    Action::Halt
                }
            },
            Monitor::Finished => Action::Done,
        }
    }

    /// Takes note of what a poll saw.
    pub fn observe(&mut self, is_halted: bool)
        ensures
            *final(self) == observe_of(*old(self), is_halted),
    {
        match *self {
            Monitor::Polling { was_halted } => {
                if is_halted && was_halted {
                    *self = Monitor::Ended;
                } else {
                    *self = Monitor::Polling { was_halted: is_halted };
                }
            },
            _ => {},
        }
    }
}

/// Whether a read that gave `count` bytes is forwarded: an empty read is not.
pub fn forwards(count: usize) -> (forward: bool)
    ensures
        forward == (count != 0),
{
    count != 0
}

/// What a round meets: whether the operator has left the run alone up to
/// its start, and whether the target is halted when the round polls it.
pub struct Round {
    pub keep_going: bool,
    pub is_halted: bool,
}

/// A run of the loop up to some round.
pub struct Trace {
    /// The monitor's state.
    pub state: Monitor,
    /// The actions taken, one a round.
    pub actions: Seq<Action>,
    /// What the polls saw, in order.
    pub seen: Seq<bool>,
    /// What `keep_going` was in the round that left the loop.
    pub left_with: Option<bool>,
}

/// The run through `rounds`, from the start.
pub open spec fn run(rounds: Seq<Round>) -> Trace
    decreases rounds.len(),
{
    if rounds.len() == 0 {
        Trace {
            state: Monitor::Polling { was_halted: false },
            actions: Seq::empty(),
            seen: Seq::empty(),
            left_with: None,
        }
    } else {
        let before = run(rounds.drop_last());
        let round = rounds.last();
        let (state, action) = decide_of(before.state, round.keep_going);
        if action == Action::Poll {
            Trace {
                state: observe_of(state, round.is_halted),
                actions: before.actions.push(action),
                seen: before.seen.push(round.is_halted),
                left_with: before.left_with,
            }
        } else {
            Trace {
                state,
                actions: before.actions.push(action),
                seen: before.seen,
                left_with: if before.left_with is None {
                    Some(round.keep_going)
                } else {
                    before.left_with
                },
            }
        }
    }
}

/// How often the target is halted by the actions.
pub open spec fn halts(actions: Seq<Action>) -> nat
    decreases actions.len(),
{
    if actions.len() == 0 {
        0
    } else {
        halts(actions.drop_last()) + if actions.last() == Action::Halt {
            1nat
        } else {
            0nat
        }
    }
}

/// Whether the last two polls both saw the target halted.
pub open spec fn halted_twice(seen: Seq<bool>) -> bool {
    seen.len() >= 2 && seen[seen.len() - 1] && seen[seen.len() - 2]
}

/// Once the loop is left: if the operator had not interrupted, the target
/// is halted, for the last two polls saw it so, and no halt was issued; if
/// the operator had interrupted, the halt was issued exactly once. While the
/// loop runs no halt is issued.
pub proof fn law_loop_leaves_target_halted(rounds: Seq<Round>)
    ensures
        run(rounds).left_with is Some <==> run(rounds).state is Finished,
        run(rounds).left_with == Some(true) ==> halted_twice(run(rounds).seen) && halts(
            run(rounds).actions,
        ) == 0,
        run(rounds).left_with == Some(false) ==> halts(run(rounds).actions) == 1,
        run(rounds).left_with is None ==> halts(run(rounds).actions) == 0,
        run(rounds).state is Ended ==> halted_twice(run(rounds).seen),
        run(rounds).state matches Monitor::Polling { was_halted } ==> (was_halted ==> run(
            rounds,
        ).seen.len() >= 1 && run(rounds).seen.last()),
    decreases rounds.len(),
{
    if rounds.len() > 0 {
        law_loop_leaves_target_halted(rounds.drop_last());
        let before = run(rounds.drop_last());
        let after = run(rounds);
        assert(after.actions.drop_last() =~= before.actions);
    }
}

} // verus!
