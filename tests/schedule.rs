use estilla_stats::schedule::{refresh_step, RefreshAction, RefreshEvent, RefreshState};

#[test]
fn a_tick_refreshes_every_leaderboard_in_order() {
    let (state, action) = refresh_step(RefreshState::Waiting, RefreshEvent::Tick, 3);
    assert_eq!(action, RefreshAction::Refresh(0));
    let (state, action) = refresh_step(state, RefreshEvent::Done(false), 3);
    assert_eq!(action, RefreshAction::Refresh(1));
    let (state, action) = refresh_step(state, RefreshEvent::Done(true), 3);
    assert_eq!(action, RefreshAction::Refresh(2));
    let (state, action) = refresh_step(state, RefreshEvent::Done(true), 3);
    assert_eq!(state, RefreshState::Waiting);
    assert_eq!(action, RefreshAction::Wait);
}

#[test]
fn an_empty_table_only_waits() {
    assert_eq!(
        refresh_step(RefreshState::Waiting, RefreshEvent::Tick, 0),
        (RefreshState::Waiting, RefreshAction::Wait)
    );
}

#[test]
fn ticks_do_not_overlap_a_pass() {
    assert_eq!(
        refresh_step(RefreshState::Refreshing(1), RefreshEvent::Tick, 3),
        (RefreshState::Refreshing(1), RefreshAction::Refresh(1))
    );
}
