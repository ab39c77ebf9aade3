use ferrite::vcs::auto_refresh::{
    GitAutoRefresh, GIT_DEBOUNCE_NANOS, GIT_REFRESH_INTERVAL_NANOS,
};
use std::time::{Duration, Instant};

#[test]
fn test_git_auto_refresh_new() {
    let refresh = GitAutoRefresh::new();
    assert!(refresh.last_refresh.is_some());
    assert!(refresh.last_request.is_none());
    assert!(!refresh.pending_refresh);
    assert!(refresh.was_focused); // Assumes focused at start
}

#[test]
fn test_git_auto_refresh_default() {
    let refresh = GitAutoRefresh::default();
    assert!(refresh.last_refresh.is_some());
    assert!(!refresh.pending_refresh);
}

#[test]
fn test_git_auto_refresh_request_refresh() {
    let mut refresh = GitAutoRefresh::new();
    assert!(!refresh.pending_refresh);

    refresh.request_refresh();

    assert!(refresh.pending_refresh);
    assert!(refresh.last_request.is_some());
}

#[test]
fn test_git_auto_refresh_focus_gained() {
    let mut refresh = GitAutoRefresh::new();
    // Start as focused
    refresh.was_focused = true;

    // Still focused - no change
    let gained = refresh.update_focus(true);
    assert!(!gained);
    assert!(!refresh.pending_refresh);

    // Lost focus
    let gained = refresh.update_focus(false);
    assert!(!gained);
    assert!(!refresh.pending_refresh);

    // Gained focus again
    let gained = refresh.update_focus(true);
    assert!(gained);
    assert!(refresh.pending_refresh);
}

#[test]
fn test_git_auto_refresh_periodic_refresh_initially_delayed() {
    let refresh = GitAutoRefresh::new();
    assert!(!refresh.should_periodic_refresh());
}

#[test]
fn test_git_auto_refresh_periodic_refresh_after_interval() {
    let mut refresh = GitAutoRefresh::new();
    let interval = Duration::from_nanos(GIT_REFRESH_INTERVAL_NANOS as u64);
    refresh.last_refresh = Some(Instant::now() - interval - Duration::from_secs(1));

    assert!(refresh.should_periodic_refresh());
}

#[test]
fn test_git_auto_refresh_periodic_refresh_recent() {
    let mut refresh = GitAutoRefresh::new();
    refresh.mark_refreshed();

    // Should not refresh immediately after a refresh
    assert!(!refresh.should_periodic_refresh());
}

#[test]
fn test_git_auto_refresh_mark_refreshed() {
    let mut refresh = GitAutoRefresh::new();
    refresh.request_refresh();
    assert!(refresh.pending_refresh);

    refresh.mark_refreshed();

    assert!(!refresh.pending_refresh);
    assert!(refresh.last_refresh.is_some());
}

#[test]
fn test_git_auto_refresh_tick_no_workspace() {
    let mut refresh = GitAutoRefresh::new();

    // Should not trigger refresh if no workspace open
    let should_refresh = refresh.tick(false);
    assert!(!should_refresh);
}

#[test]
fn test_git_auto_refresh_tick_with_workspace_first_time() {
    let mut refresh = GitAutoRefresh::new();

    // Initial periodic refresh is delayed so first paint is not blocked by git status.
    let should_refresh = refresh.tick(true);
    assert!(!should_refresh);
}

#[test]
fn test_git_auto_refresh_debounce_not_ready() {
    let mut refresh = GitAutoRefresh::new();
    refresh.request_refresh();

    // Immediately after request, debounce hasn't elapsed
    assert!(
        !refresh.should_execute_refresh()
            || refresh.last_request.unwrap().elapsed().as_nanos() >= GIT_DEBOUNCE_NANOS
    );
}

#[test]
fn test_git_auto_refresh_debounce_no_pending() {
    let refresh = GitAutoRefresh::new();

    // No pending request, should not execute
    assert!(!refresh.should_execute_refresh());
}

#[test]
fn periods_are_ten_seconds_and_half_a_second() {
    assert_eq!(GIT_REFRESH_INTERVAL_NANOS, Duration::from_secs(10).as_nanos());
    assert_eq!(GIT_DEBOUNCE_NANOS, Duration::from_millis(500).as_nanos());
}

#[test]
fn debounce_ends_at_exactly_the_period() {
    let mut refresh = GitAutoRefresh::new();
    refresh.request_refresh();
    assert!(!refresh.debounced_refresh_due(Some(499_999_999)));
    assert!(refresh.debounced_refresh_due(Some(500_000_000)));
    assert!(!refresh.debounced_refresh_due(None));
}

#[test]
fn interval_ends_at_exactly_ten_seconds() {
    assert!(!GitAutoRefresh::periodic_refresh_due(Some(9_999_999_999)));
    assert!(GitAutoRefresh::periodic_refresh_due(Some(10_000_000_000)));
    assert!(GitAutoRefresh::periodic_refresh_due(None));
}

#[test]
fn request_in_the_past_is_carried_out() {
    let mut refresh = GitAutoRefresh::new();
    refresh.request_refresh_at(Instant::now() - Duration::from_secs(1));
    assert!(refresh.should_execute_refresh());
    assert!(refresh.tick(true));
    assert!(refresh.pending_refresh);
    refresh.mark_refreshed();
    assert!(!refresh.tick(true));
}

#[test]
fn requests_in_a_row_are_one_request() {
    let start = Instant::now();
    let mut refresh = GitAutoRefresh::new_at(start);
    refresh.request_refresh_at(start);
    refresh.request_refresh_at(start + Duration::from_millis(100));
    refresh.request_refresh_at(start + Duration::from_millis(200));
    assert_eq!(refresh.last_request, Some(start + Duration::from_millis(200)));
    assert!(refresh.tick_after(true, Some(500_000_000), Some(700_000_000)));
    refresh.mark_refreshed_at(start + Duration::from_millis(700));
    assert!(!refresh.pending_refresh);
    assert_eq!(refresh.last_refresh, Some(start + Duration::from_millis(700)));
    assert!(!refresh.tick_after(true, Some(600_000_000), Some(1_000_000)));
}

#[test]
fn periodic_tick_leaves_the_refresh_pending() {
    let mut refresh = GitAutoRefresh::new();
    assert!(!refresh.tick_after(false, None, Some(20_000_000_000)));
    assert!(!refresh.pending_refresh);
    assert!(refresh.tick_after(true, None, Some(20_000_000_000)));
    assert!(refresh.pending_refresh);
}

#[test]
fn never_refreshed_is_due_at_once() {
    let mut refresh = GitAutoRefresh::new();
    refresh.last_refresh = None;
    assert!(refresh.should_periodic_refresh());
    assert!(refresh.tick(true));
}

#[test]
fn focus_gained_is_told_once() {
    let start = Instant::now();
    let mut refresh = GitAutoRefresh::new_at(start);
    assert!(!refresh.update_focus_at(false, start));
    assert!(refresh.update_focus_at(true, start));
    assert_eq!(refresh.last_request, Some(start));
    assert!(!refresh.update_focus_at(true, start + Duration::from_secs(1)));
    assert_eq!(refresh.last_request, Some(start));
}
