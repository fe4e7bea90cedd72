//! The decisions of the periodic leaderboard refresh. The caller owns the
//! timer and the chat surface: it reports each event and performs the action
//! it gets back.

use vstd::prelude::*;

verus! {

/// How often the leaderboards are refreshed, in seconds.
pub const REFRESH_INTERVAL_SECS: u64 = 300;

/// Where the refresh stands.
#[derive(Debug, Clone, Copy, PartialEq, Eq, Structural)]
pub enum RefreshState {
    /// Between ticks.
    Waiting,
    /// The leaderboard at this index of the table is being refreshed.
    Refreshing(usize),
}

/// What happened since the last step.
#[derive(Debug, Clone, Copy, PartialEq, Eq, Structural)]
pub enum RefreshEvent {
    /// The interval elapsed.
    Tick,
    /// The current leaderboard was refreshed (`true`) or its refresh failed.
    Done(bool),
}

/// What the caller does next.
#[derive(Debug, Clone, Copy, PartialEq, Eq, Structural)]
pub enum RefreshAction {
    /// Refresh the leaderboard at this index of the table.
    Refresh(usize),
    /// Wait for the next tick.
    Wait,
}

/// The next leaderboard after `index` in a table of `total`, if any.
pub open spec fn after(index: int, total: int) -> (RefreshState, RefreshAction) {
    if index + 1 < total {
        (RefreshState::Refreshing((index + 1) as usize), RefreshAction::Refresh((index + 1) as usize))
    } else {
        (RefreshState::Waiting, RefreshAction::Wait)
    }
}

/// A tick starts a pass over the whole table, in order; a tick during a pass
/// is ignored; a finished refresh, failed or not, moves on to the next one.
pub open spec fn refresh_step_spec(state: RefreshState, event: RefreshEvent, total: int) -> (
    RefreshState,
    RefreshAction,
) {
    match (state, event) {
        (RefreshState::Waiting, RefreshEvent::Tick) => after(-1, total),
        (RefreshState::Waiting, RefreshEvent::Done(_)) => (RefreshState::Waiting, RefreshAction::Wait),
        (RefreshState::Refreshing(i), RefreshEvent::Tick) => (
            RefreshState::Refreshing(i),
            RefreshAction::Refresh(i),
        ),
        (RefreshState::Refreshing(i), RefreshEvent::Done(_)) => after(i as int, total),
    }
}

pub fn refresh_step(state: RefreshState, event: RefreshEvent, total: usize) -> (r: (
    RefreshState,
    RefreshAction,
))
    ensures
        r == refresh_step_spec(state, event, total as int),
{
    match state {
        RefreshState::Waiting => match event {
            RefreshEvent::Tick => if total > 0 {
                (RefreshState::Refreshing(0), RefreshAction::Refresh(0))
            } else {
                (RefreshState::Waiting, RefreshAction::Wait)
            },
            RefreshEvent::Done(_) => (RefreshState::Waiting, RefreshAction::Wait),
        },
        RefreshState::Refreshing(i) => match event {
            RefreshEvent::Tick => (RefreshState::Refreshing(i), RefreshAction::Refresh(i)),
            RefreshEvent::Done(_) => if total > 0 && i < total - 1 {
                (RefreshState::Refreshing(i + 1), RefreshAction::Refresh(i + 1))
            } else {
                (RefreshState::Waiting, RefreshAction::Wait)
            },
        },
    }
}

/// A failed refresh changes nothing in what follows: the next leaderboard is
/// refreshed just as after a successful one.
pub proof fn lemma_failure_does_not_stop_the_pass(state: RefreshState, total: int)
    ensures
        refresh_step_spec(state, RefreshEvent::Done(false), total) == refresh_step_spec(
            state,
            RefreshEvent::Done(true),
            total,
        ),
{
}

/// The state reached from `Waiting` after a tick and `n` finished refreshes.
pub open spec fn after_events(total: int, n: nat) -> (RefreshState, RefreshAction)
    decreases n,
{
    if n == 0 {
        refresh_step_spec(RefreshState::Waiting, RefreshEvent::Tick, total)
    } else {
        refresh_step_spec(after_events(total, (n - 1) as nat).0, RefreshEvent::Done(false), total)
    }
}

/// A pass refreshes every leaderboard of the table once, in table order, and
/// then waits for the next tick, whatever the outcomes.
pub proof fn lemma_pass_visits_each_in_order(total: nat, n: nat)
    requires
        total <= usize::MAX,
    ensures
        n < total ==> after_events(total as int, n) == (
            RefreshState::Refreshing(n as usize),
            RefreshAction::Refresh(n as usize),
        ),
        n >= total ==> after_events(total as int, n) == (RefreshState::Waiting, RefreshAction::Wait),
    decreases n,
{
    if n > 0 {
        lemma_pass_visits_each_in_order(total, (n - 1) as nat);
    }
}

} // verus!
