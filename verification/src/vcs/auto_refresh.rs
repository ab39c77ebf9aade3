//! When the Git status is refreshed.
use crate::clock::{is_reading, nanos_since, read_clock, since};
use std::time::Instant;
use vstd::prelude::*;

verus! {

/// The time between two periodic refreshes: 10 seconds, in nanoseconds.
pub const GIT_REFRESH_INTERVAL_NANOS: u128 = 10_000_000_000;

/// The time that has to pass after a request before it is carried out: 500 milliseconds,
/// in nanoseconds.
pub const GIT_DEBOUNCE_NANOS: u128 = 500_000_000;

/// Manages automatic Git status refreshing with debouncing.
///
/// This struct handles:
/// - Periodic refresh every 10 seconds when a workspace is open
/// - Refresh on window focus gained
/// - Refresh on file save
/// - Debouncing to prevent excessive refresh calls
#[derive(Debug)]
pub struct GitAutoRefresh {
    /// Last time git status was refreshed
    pub last_refresh: Option<Instant>,
    /// Time of last refresh request (for debouncing)
    pub last_request: Option<Instant>,
    /// Whether a refresh is pending (after debounce)
    pub pending_refresh: bool,
    /// Previous window focus state (to detect focus gained)
    pub was_focused: bool,
}

/// Whether a pending request has waited long enough. `since_request` is the time since the
/// last request, if there was one.
pub open spec fn debounce_is_over(pending: bool, since_request: Option<u128>) -> bool {
    pending && since_request is Some && since_request->0 >= GIT_DEBOUNCE_NANOS
}

/// Whether a periodic refresh is due. `since_refresh` is the time since the last refresh, if
/// there was one.
pub open spec fn interval_is_over(since_refresh: Option<u128>) -> bool {
    since_refresh is None || since_refresh->0 >= GIT_REFRESH_INTERVAL_NANOS
}

impl GitAutoRefresh {
    /// A manager that starts at `start`.
    pub open spec fn started(start: Instant) -> GitAutoRefresh {
        GitAutoRefresh {
            last_refresh: Some(start),
            last_request: None,
            pending_refresh: false,
            was_focused: true,
        }
    }

    /// The manager after a request at `at`.
    pub open spec fn requested(self, at: Instant) -> GitAutoRefresh {
        GitAutoRefresh { last_request: Some(at), pending_refresh: true, ..self }
    }

    /// The manager after requests at these times, one after the other.
    pub open spec fn requested_at_all(self, times: Seq<Instant>) -> GitAutoRefresh
        decreases times.len(),
    {
        if times.len() == 0 {
            self
        } else {
            self.requested_at_all(times.drop_last()).requested(times.last())
        }
    }

    /// The manager after a refresh at `at`.
    pub open spec fn refreshed(self, at: Instant) -> GitAutoRefresh {
        GitAutoRefresh { last_refresh: Some(at), pending_refresh: false, ..self }
    }

    /// Whether the focus is gained with this state of it.
    pub open spec fn gains_focus(self, is_focused: bool) -> bool {
        is_focused && !self.was_focused
    }

    /// The manager after it has been told the state of the focus at `at`.
    pub open spec fn focus_told(self, is_focused: bool, at: Instant) -> GitAutoRefresh {
        let told = GitAutoRefresh { was_focused: is_focused, ..self };
        if self.gains_focus(is_focused) {
            told.requested(at)
        } else {
            told
        }
    }

    /// Whether a refresh is due after these times.
    pub open spec fn is_due(
        self,
        workspace_open: bool,
        since_request: Option<u128>,
        since_refresh: Option<u128>,
    ) -> bool {
        workspace_open && (debounce_is_over(self.pending_refresh, since_request)
            || interval_is_over(since_refresh))
    }

    /// The manager after it has been asked whether a refresh is due.
    pub open spec fn ticked(self, due: bool) -> GitAutoRefresh {
        if due {
            GitAutoRefresh { pending_refresh: true, ..self }
        } else {
            self
        }
    }
}

impl Default for GitAutoRefresh {
    fn default() -> (refresh: Self)
        ensures
            refresh.last_refresh is Some,
            refresh == GitAutoRefresh::started(refresh.last_refresh->0),
            is_reading(refresh.last_refresh->0),
    {
        GitAutoRefresh::new()
    }
}

impl GitAutoRefresh {
    /// Create a new GitAutoRefresh manager.
    pub fn new() -> (refresh: GitAutoRefresh)
        ensures
            refresh.last_refresh is Some,
            refresh == GitAutoRefresh::started(refresh.last_refresh->0),
            is_reading(refresh.last_refresh->0),
    {
        GitAutoRefresh::new_at(read_clock())
    }

    /// Create a manager that counts from `start`.
    pub fn new_at(start: Instant) -> (refresh: GitAutoRefresh)
        ensures
            refresh == GitAutoRefresh::started(start),
    {
        GitAutoRefresh {
            last_refresh: Some(start),
            last_request: None,
            pending_refresh: false,
            was_focused: true,  // Assume focused at start
        }
    }

    /// Request a git refresh with debouncing.
    ///
    /// Multiple rapid calls will be batched into a single refresh
    /// after the debounce period (500ms).
    pub fn request_refresh(&mut self)
        ensures
            final(self).last_request is Some,
            *final(self) == old(self).requested(final(self).last_request->0),
            is_reading(final(self).last_request->0),
    {
        self.request_refresh_at(read_clock());
    }

    /// Request a git refresh at the time `at`.
    pub fn request_refresh_at(&mut self, at: Instant)
        ensures
            *final(self) == old(self).requested(at),
    {
        self.last_request = Some(at);
        self.pending_refresh = true;
    }

    /// Check and update focus state, returning true if focus was just gained.
    ///
    /// Call this each frame with the current focus state.
    pub fn update_focus(&mut self, is_focused: bool) -> (focus_gained: bool)
        ensures
            focus_gained == old(self).gains_focus(is_focused),
            focus_gained ==> final(self).last_request is Some,
            focus_gained ==> *final(self) == old(self).focus_told(
                is_focused,
                final(self).last_request->0,
            ),
            focus_gained ==> is_reading(final(self).last_request->0),
            !focus_gained ==> *final(self) == (GitAutoRefresh {
                was_focused: is_focused,
                ..*old(self)
            }),
    {
        self.update_focus_at(is_focused, read_clock())
    }

    /// Check and update focus state at the time `at`.
    pub fn update_focus_at(&mut self, is_focused: bool, at: Instant) -> (focus_gained: bool)
        ensures
            focus_gained == old(self).gains_focus(is_focused),
            *final(self) == old(self).focus_told(is_focused, at),
    {
        let focus_gained = is_focused && !self.was_focused;
        self.was_focused = is_focused;
        if focus_gained {
            self.request_refresh_at(at);
        }
        focus_gained
    }

    /// Check if enough time has passed for periodic refresh.
    ///
    /// Returns true if it's time for a periodic refresh (every 10 seconds).
    pub fn should_periodic_refresh(&self) -> (due: bool)
        ensures
            self.last_refresh is None ==> due,
            exists|at: Instant|
                is_reading(at) && due == interval_is_over(#[trigger] since(at, self.last_refresh)),
    {
        let since_refresh = nanos_since(read_clock(), &self.last_refresh);
        GitAutoRefresh::periodic_refresh_due(since_refresh)
    }

    /// Check if a periodic refresh is due that long after the last one.
    pub fn periodic_refresh_due(since_refresh: Option<u128>) -> (due: bool)
        ensures
            due == interval_is_over(since_refresh),
    {
        match since_refresh {
            Some(elapsed) => elapsed >= GIT_REFRESH_INTERVAL_NANOS,
            None => true,  // Never refreshed, do it now
        }
    }

    /// Check if debounce period has passed and a refresh should execute.
    ///
    /// Returns true if there's a pending refresh and the debounce period has elapsed.
    pub fn should_execute_refresh(&self) -> (due: bool)
        ensures
            due ==> self.pending_refresh && self.last_request is Some,
            exists|at: Instant|
                is_reading(at) && due == debounce_is_over(
                    self.pending_refresh,
                    #[trigger] since(at, self.last_request),
                ),
    {
        let since_request = nanos_since(read_clock(), &self.last_request);
        self.debounced_refresh_due(since_request)
    }

    /// Check if a pending refresh should execute that long after the last request.
    pub fn debounced_refresh_due(&self, since_request: Option<u128>) -> (due: bool)
        ensures
            due == debounce_is_over(self.pending_refresh, since_request),
    {
        if !self.pending_refresh {
            return false;
        }
        match since_request {
            Some(elapsed) => elapsed >= GIT_DEBOUNCE_NANOS,
            None => false,
        }
    }

    /// Mark that a refresh was executed.
    ///
    /// Call this after actually performing the git refresh.
    pub fn mark_refreshed(&mut self)
        ensures
            final(self).last_refresh is Some,
            *final(self) == old(self).refreshed(final(self).last_refresh->0),
            is_reading(final(self).last_refresh->0),
    {
        self.mark_refreshed_at(read_clock());
    }

    /// Mark that a refresh was executed at the time `at`.
    pub fn mark_refreshed_at(&mut self, at: Instant)
        ensures
            *final(self) == old(self).refreshed(at),
    {
        self.last_refresh = Some(at);
        self.pending_refresh = false;
    }

    /// Process auto-refresh logic and return true if a refresh should be performed.
    ///
    /// This is the main entry point called each frame. It checks:
    /// 1. Debounced refresh requests
    /// 2. Periodic refresh timer
    ///
    /// Returns true if git status should be refreshed.
    pub fn tick(&mut self, workspace_open: bool) -> (due: bool)
        ensures
            *final(self) == old(self).ticked(due),
            !workspace_open ==> !due,
            workspace_open && old(self).last_refresh is None ==> due,
            exists|at: Instant|
                is_reading(at) && due == old(self).is_due(
                    workspace_open,
                    #[trigger] since(at, old(self).last_request),
                    since(at, old(self).last_refresh),
                ),
    {
        let at = read_clock();
        let since_request = nanos_since(at, &self.last_request);
        let since_refresh = nanos_since(at, &self.last_refresh);
        self.tick_after(workspace_open, since_request, since_refresh)
    }

    /// Process auto-refresh logic with these times since the last request and the last refresh.
    pub fn tick_after(
        &mut self,
        workspace_open: bool,
        since_request: Option<u128>,
        since_refresh: Option<u128>,
    ) -> (due: bool)
        ensures
            due == old(self).is_due(workspace_open, since_request, since_refresh),
            *final(self) == old(self).ticked(due),
    {
        // Only refresh if a workspace is open (git repo likely present)
        if !workspace_open {
            return false;
        }
        // Check for debounced refresh
        if self.debounced_refresh_due(since_request) {
            return true;
        }
        // Check for periodic refresh
        if GitAutoRefresh::periodic_refresh_due(since_refresh) {
            self.pending_refresh = true;  // Will be cleared in mark_refreshed
            return true;
        }
        false
    }
}

/// Any number of requests in a row amounts to the last of them, and one refresh serves them
/// all.
pub proof fn requests_are_batched(refresh: GitAutoRefresh, times: Seq<Instant>, at: Instant)
    requires
        times.len() > 0,
    ensures
        refresh.requested_at_all(times) == refresh.requested(times.last()),
        !refresh.requested_at_all(times).refreshed(at).pending_refresh,
    decreases times.len(),
{
    if times.len() > 1 {
        requests_are_batched(refresh, times.drop_last(), at);
    } else {
        assert(refresh.requested_at_all(times.drop_last()) == refresh);
    }
}

/// Within the debounce period after a request, and within the interval after a refresh, no
/// refresh is due.
pub proof fn requests_wait_for_the_debounce_period(
    refresh: GitAutoRefresh,
    workspace_open: bool,
    at: Instant,
    since_request: u128,
    since_refresh: u128,
)
    requires
        since_request < GIT_DEBOUNCE_NANOS,
        since_refresh < GIT_REFRESH_INTERVAL_NANOS,
    ensures
        !refresh.requested(at).is_due(workspace_open, Some(since_request), Some(since_refresh)),
{
}

/// A request is carried out once the debounce period has passed, wherever a workspace is open.
pub proof fn requests_are_carried_out(
    refresh: GitAutoRefresh,
    at: Instant,
    since_request: u128,
    since_refresh: Option<u128>,
)
    requires
        since_request >= GIT_DEBOUNCE_NANOS,
    ensures
        refresh.requested(at).is_due(true, Some(since_request), since_refresh),
{
}

/// After a refresh, and without a new request, none is due until the interval is over; then
/// one is.
pub proof fn refreshes_are_periodic(
    refresh: GitAutoRefresh,
    at: Instant,
    since_request: Option<u128>,
    since_refresh: u128,
)
    ensures
        refresh.refreshed(at).is_due(true, since_request, Some(since_refresh)) <==> since_refresh
            >= GIT_REFRESH_INTERVAL_NANOS,
{
}

/// Without a workspace no refresh is ever due, and being asked changes nothing.
pub proof fn nothing_is_due_without_a_workspace(
    refresh: GitAutoRefresh,
    since_request: Option<u128>,
    since_refresh: Option<u128>,
)
    ensures
        !refresh.is_due(false, since_request, since_refresh),
        refresh.ticked(refresh.is_due(false, since_request, since_refresh)) == refresh,
{
}

/// A refresh that is due stays pending until it is marked as done.
pub proof fn due_refreshes_stay_pending(
    refresh: GitAutoRefresh,
    since_request: Option<u128>,
    since_refresh: Option<u128>,
    at: Instant,
)
    requires
        refresh.is_due(true, since_request, since_refresh),
    ensures
        refresh.ticked(true).pending_refresh,
        !refresh.ticked(true).refreshed(at).pending_refresh,
{
}

/// Gaining the focus requests a refresh; keeping or losing it does not.
pub proof fn gaining_focus_requests_a_refresh(
    refresh: GitAutoRefresh,
    is_focused: bool,
    at: Instant,
)
    ensures
        refresh.gains_focus(is_focused) ==> refresh.focus_told(is_focused, at).pending_refresh
            && refresh.focus_told(is_focused, at).last_request == Some(at),
        !refresh.gains_focus(is_focused) ==> refresh.focus_told(is_focused, at).pending_refresh
            == refresh.pending_refresh && refresh.focus_told(is_focused, at).last_request
            == refresh.last_request,
        !refresh.focus_told(is_focused, at).gains_focus(is_focused),
{
}

/// Something that happens to the manager.
pub enum RefreshEvent {
    /// A refresh is requested at this time.
    Requested(Instant),
    /// A refresh has been carried out at this time.
    Refreshed(Instant),
    /// It is asked whether a refresh is due.
    Ticked { workspace_open: bool, since_request: Option<u128>, since_refresh: Option<u128> },
    /// The state of the focus is told at this time.
    FocusTold { is_focused: bool, at: Instant },
}

impl GitAutoRefresh {
    /// The manager after an event.
    pub open spec fn after(self, event: RefreshEvent) -> GitAutoRefresh {
        match event {
            RefreshEvent::Requested(at) => self.requested(at),
            RefreshEvent::Refreshed(at) => self.refreshed(at),
            RefreshEvent::Ticked { workspace_open, since_request, since_refresh } => self.ticked(
                self.is_due(workspace_open, since_request, since_refresh),
            ),
            RefreshEvent::FocusTold { is_focused, at } => self.focus_told(is_focused, at),
        }
    }

    /// The manager after these events, one after the other.
    pub open spec fn after_all(self, events: Seq<RefreshEvent>) -> GitAutoRefresh
        decreases events.len(),
    {
        if events.len() == 0 {
            self
        } else {
            self.after_all(events.drop_last()).after(events.last())
        }
    }
}

/// What each event changes, and what it leaves as it was. The last refresh and the last request
/// are known by the events that are these; the focus by what was told of it; and a refresh is
/// pending from a request, a gain of the focus or a tick that found one due, until it has been
/// carried out.
pub proof fn events_change_what_they_are_about(refresh: GitAutoRefresh, event: RefreshEvent)
    ensures
        refresh.after(event).last_refresh == (match event {
            RefreshEvent::Refreshed(at) => Some(at),
            _ => refresh.last_refresh,
        }),
        refresh.after(event).last_request == (match event {
            RefreshEvent::Requested(at) => Some(at),
            RefreshEvent::FocusTold { is_focused: true, at } => if refresh.was_focused {
                refresh.last_request
            } else {
                Some(at)
            },
            _ => refresh.last_request,
        }),
        refresh.after(event).was_focused == (match event {
            RefreshEvent::FocusTold { is_focused, at } => is_focused,
            _ => refresh.was_focused,
        }),
        event is Refreshed ==> !refresh.after(event).pending_refresh,
        event is Requested ==> refresh.after(event).pending_refresh,
        event matches RefreshEvent::FocusTold { is_focused, at } ==> refresh.after(
            event,
        ).pending_refresh == (refresh.pending_refresh || (is_focused && !refresh.was_focused)),
        event matches RefreshEvent::Ticked { workspace_open, since_request, since_refresh }
            ==> refresh.after(event).pending_refresh == (refresh.pending_refresh || refresh.is_due(
            workspace_open,
            since_request,
            since_refresh,
        )),
{
}

/// The focus is gained exactly where it was not there before.
pub proof fn focus_is_gained_where_it_was_missing(refresh: GitAutoRefresh, is_focused: bool)
    ensures
        refresh.gains_focus(is_focused) <==> is_focused && !refresh.was_focused,
{
}

/// Only being told of the focus changes what is remembered of it. Whatever requests, ticks and
/// refreshes come after, the focus is gained as before; so being told a second time that the
/// window is focused gains no focus, and being told that it is focused after it was not does.
pub proof fn focus_is_remembered(
    refresh: GitAutoRefresh,
    told: bool,
    at: Instant,
    events: Seq<RefreshEvent>,
    is_focused: bool,
)
    requires
        forall|i: int| 0 <= i < events.len() ==> !((#[trigger] events[i]) is FocusTold),
    ensures
        refresh.after_all(events).was_focused == refresh.was_focused,
        refresh.after_all(events).gains_focus(is_focused) == refresh.gains_focus(is_focused),
        refresh.focus_told(told, at).after_all(events).was_focused == told,
        refresh.focus_told(told, at).after_all(events).gains_focus(is_focused) <==> is_focused
            && !told,
    decreases events.len(),
{
    if events.len() > 0 {
        assert forall|i: int| 0 <= i < events.drop_last().len() implies !((
        #[trigger] events.drop_last()[i]) is FocusTold) by {
            assert(!(events[i] is FocusTold));
        }
        assert(!(events[events.len() - 1] is FocusTold));
        focus_is_remembered(refresh, told, at, events.drop_last(), is_focused);
    }
}

/// While the window keeps the focus and nobody asks for a refresh, none is pending: refreshes
/// that are carried out, and being told of the focus over and over, bring no new one.
pub proof fn a_focused_window_requests_nothing(refresh: GitAutoRefresh, events: Seq<RefreshEvent>)
    requires
        refresh.was_focused,
        !refresh.pending_refresh,
        forall|i: int|
            0 <= i < events.len() ==> ((#[trigger] events[i]) is Refreshed || events[i] matches
                RefreshEvent::FocusTold { is_focused: true, at }),
    ensures
        !refresh.after_all(events).pending_refresh,
        refresh.after_all(events).was_focused,
        refresh.after_all(events).last_request == refresh.last_request,
    decreases events.len(),
{
    if events.len() > 0 {
        assert forall|i: int| 0 <= i < events.drop_last().len() implies ((
        #[trigger] events.drop_last()[i]) is Refreshed || events.drop_last()[i] matches
            RefreshEvent::FocusTold { is_focused: true, at }) by {
            assert(events[i] == events.drop_last()[i]);
        }
        let last = events[events.len() - 1];
        assert(last is Refreshed || last matches RefreshEvent::FocusTold { is_focused: true, at });
        a_focused_window_requests_nothing(refresh, events.drop_last());
    }
}

/// With a workspace, a refresh is due half a second after the last request while one is
/// pending, ten seconds after the last refresh in any case, and at once where there was none;
/// not a nanosecond sooner, and not without a workspace.
pub proof fn refreshes_are_due_after_these_times(
    refresh: GitAutoRefresh,
    workspace_open: bool,
    since_request: Option<u128>,
    since_refresh: Option<u128>,
)
    ensures
        !workspace_open ==> !refresh.is_due(workspace_open, since_request, since_refresh),
        since_refresh is None ==> refresh.is_due(true, since_request, since_refresh),
        since_refresh matches Some(nanos) ==> nanos >= 10_000_000_000 ==> refresh.is_due(
            true,
            since_request,
            since_refresh,
        ),
        since_refresh matches Some(nanos) ==> nanos < 10_000_000_000 ==> (refresh.is_due(
            true,
            since_request,
            since_refresh,
        ) <==> refresh.pending_refresh && since_request is Some && since_request->0
            >= 500_000_000),
{
}

/// A refresh that is due does not become undue by waiting.
pub proof fn due_refreshes_stay_due(
    refresh: GitAutoRefresh,
    workspace_open: bool,
    since_request: u128,
    since_refresh: u128,
    waited: u128,
)
    requires
        refresh.is_due(workspace_open, Some(since_request), Some(since_refresh)),
        since_request + waited <= u128::MAX,
        since_refresh + waited <= u128::MAX,
    ensures
        refresh.is_due(
            workspace_open,
            Some((since_request + waited) as u128),
            Some((since_refresh + waited) as u128),
        ),
        refresh.ticked(true).is_due(
            workspace_open,
            Some((since_request + waited) as u128),
            Some((since_refresh + waited) as u128),
        ),
{
}

/// A manager that has just started has nothing to do for ten seconds, and takes the window for
/// focused.
pub proof fn nothing_happens_at_the_start(start: Instant, since_start: u128)
    ensures
        GitAutoRefresh::started(start).is_due(true, None, Some(since_start)) <==> since_start
            >= 10_000_000_000,
        GitAutoRefresh::started(start).last_refresh == Some(start),
        GitAutoRefresh::started(start).last_request is None,
        !GitAutoRefresh::started(start).pending_refresh,
        !GitAutoRefresh::started(start).gains_focus(true),
        !GitAutoRefresh::started(start).gains_focus(false),
{
}

/// The debounce period is half a second and waits for a pending request; the interval is ten
/// seconds, and over where there was no refresh.
pub proof fn the_two_periods(pending: bool, nanos: u128)
    ensures
        debounce_is_over(pending, Some(nanos)) <==> pending && nanos >= 500_000_000,
        !debounce_is_over(pending, None),
        interval_is_over(Some(nanos)) <==> nanos >= 10_000_000_000,
        interval_is_over(None),
{
}

} // verus!
