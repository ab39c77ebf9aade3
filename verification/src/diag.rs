//! Optional startup / hot-path diagnostics.
//!
//! Enabled with the environment variable `FERRITE_DIAG=1` (also `true`, `yes` and `on`).
//! What is decided here is which lines go to the trace file and what they say; writing
//! them is the caller's part, and so is turning times into text.
use crate::clock::{
    is_reading, millis, millis_to_nanos, nanos_between, nanos_from, nanos_since, read_clock,
};
use crate::frames::{
    record_frame_metrics, summary_is_due, FrameMetrics, FrameSummary, MetricsView,
};
use crate::paths::PathParts;
use crate::text::{decimal, push_decimal, push_right_aligned, right_aligned, same_text};
use std::time::Instant;
use vstd::prelude::*;
use vstd::slice::*;
use vstd::string::*;
use vstd::utf8::encode_utf8;

verus! {

// ---------------------------------------------------------------------------
// The trace
// ---------------------------------------------------------------------------

/// The values of `FERRITE_DIAG` that switch the diagnostics on.
pub open spec fn switches_on(value: Seq<char>) -> bool {
    value == "1"@ || value == "true"@ || value == "yes"@ || value == "on"@
}

/// Whether diagnostics are enabled by this value of `FERRITE_DIAG`, none where it is not set.
pub fn enabled(value: Option<&str>) -> (on: bool)
    ensures
        on == (value is Some && switches_on(value->0@)),
{
    match value {
        Some(text) => same_text(text, "1") || same_text(text, "true") || same_text(text, "yes")
            || same_text(text, "on"),
        None => false,
    }
}

/// The answer for the whole process, once there is one.
#[derive(Debug)]
pub struct Switch {
    /// What was answered the first time.
    pub answer: Option<bool>,
}

impl Switch {
    /// The switch after it has been asked with this value of `FERRITE_DIAG`.
    pub open spec fn asked(self, value: Option<Seq<char>>) -> Switch {
        match self.answer {
            Some(_) => self,
            None => Switch { answer: Some(value is Some && switches_on(value->0)) },
        }
    }

    /// The switch after it has been asked with these values, one after the other.
    pub open spec fn asked_all(self, values: Seq<Option<Seq<char>>>) -> Switch
        decreases values.len(),
    {
        if values.len() == 0 {
            self
        } else {
            self.asked_all(values.drop_last()).asked(values.last())
        }
    }

    /// Nothing has been asked.
    pub fn new() -> (switch: Switch)
        ensures
            switch.answer is None,
    {
        Switch { answer: None }
    }

    /// Whether diagnostics are enabled for this process. The first value decides; later ones
    /// are not looked at.
    pub fn ask(&mut self, value: Option<&str>) -> (on: bool)
        ensures
            old(self).answer matches Some(kept) ==> on == kept,
            old(self).answer is None ==> on == (value is Some && switches_on(value->0@)),
            final(self).answer == Some(on),
            *final(self) == old(self).asked(
                match value {
                    Some(text) => Some(text@),
                    None => None,
                },
            ),
    {
        match self.answer {
            Some(kept) => kept,
            None => {
                let on = enabled(value);
                self.answer = Some(on);
                on
            },
        }
    }
}

/// Whether diagnostics are enabled is settled by the first value that is seen: no later one
/// changes the answer.
pub proof fn the_first_answer_stays(
    switch: Switch,
    first: Option<Seq<char>>,
    later: Seq<Option<Seq<char>>>,
)
    requires
        switch.answer is None,
    ensures
        switch.asked(first).asked_all(later) == switch.asked(first),
        switch.asked(first).asked_all(later).answer == Some(
            first is Some && switches_on(first->0),
        ),
    decreases later.len(),
{
    if later.len() > 0 {
        the_first_answer_stays(switch, first, later.drop_last());
    }
}

/// Path to the startup trace log, in the directory for temporary files.
pub fn trace_path(temp_dir: &PathParts) -> (path: PathParts)
    ensures
        path@ == temp_dir@.push(encode_utf8("ferrite_startup_trace.log"@)),
{
    let mut path = temp_dir.duplicate();
    path.push(slice_to_vec("ferrite_startup_trace.log".as_bytes()));
    path
}

/// Path to the file that says where the trace log is, in the directory for temporary files.
pub fn pointer_path(temp_dir: &PathParts) -> (path: PathParts)
    ensures
        path@ == temp_dir@.push(encode_utf8("ferrite_DIAG_LOG_HERE.txt"@)),
{
    let mut path = temp_dir.duplicate();
    path.push(slice_to_vec("ferrite_DIAG_LOG_HERE.txt".as_bytes()));
    path
}

/// A line of the trace: the seconds since the start, right-aligned, and what happened.
pub open spec fn trace_line(seconds: Seq<char>, step: Seq<char>) -> Seq<char> {
    right_aligned(seconds, 7) + "s  "@ + step
}

/// The line to append to the trace file, if diagnostics are enabled. `seconds` is the time
/// since the start with three decimals.
pub fn trace(enabled: bool, seconds: &str, step: &str) -> (line: Option<String>)
    ensures
        line is Some <==> enabled,
        line matches Some(text) ==> text@ == trace_line(seconds@, step@),
{
    if !enabled {
        return None;
    }
    let mut line = String::new();
    push_right_aligned(&mut line, seconds, 7);
    line.append("s  ");
    line.append(step);
    assert(line@ =~= trace_line(seconds@, step@));
    Some(line)
}

/// What is written when the trace starts.
#[derive(Debug)]
pub struct TraceReset {
    /// The first line of the trace file, in place of what it held.
    pub header: String,
    /// The text of the pointer file.
    pub pointer: String,
}

/// What to write at process start, if diagnostics are enabled. `timestamp` is the time of
/// day, `path` the text of the trace file's path.
pub fn trace_reset(enabled: bool, timestamp: &str, path: &str) -> (reset: Option<TraceReset>)
    ensures
        reset is Some <==> enabled,
        reset matches Some(files) ==> files.header@ == "Ferrite startup trace — "@ + timestamp@
            + "\n"@ && files.pointer@ == "Open this log while diagnosing Ferrite:\n"@ + path@
            + "\n"@,
{
    if !enabled {
        return None;
    }
    let mut header = "Ferrite startup trace — ".to_owned();
    header.append(timestamp);
    header.append("\n");
    let mut pointer = "Open this log while diagnosing Ferrite:\n".to_owned();
    pointer.append(path);
    pointer.append("\n");
    Some(TraceReset { header, pointer })
}

// ---------------------------------------------------------------------------
// Frames
// ---------------------------------------------------------------------------

/// The frames of one thread.
#[derive(Debug)]
pub struct Frames {
    /// How many frames have started.
    pub frame: u64,
    /// When the last of them started.
    pub started: Option<Instant>,
    /// What has been measured since the last summary.
    pub metrics: FrameMetrics,
}

/// What a [`Frames`] holds.
pub struct FramesView {
    pub frame: u64,
    pub started: Option<Instant>,
    pub metrics: MetricsView,
}

impl View for Frames {
    type V = FramesView;

    open spec fn view(&self) -> FramesView {
        FramesView { frame: self.frame, started: self.started, metrics: self.metrics@ }
    }
}

impl FramesView {
    /// The frames after one more has started at `at`.
    pub open spec fn advanced(self, at: Instant) -> FramesView {
        FramesView { frame: (self.frame + 1) as u64, started: Some(at), metrics: self.metrics }
    }

    /// The frames after the one that started last has ended, having taken `elapsed`.
    pub open spec fn ended(self, elapsed: u128, threshold_ms: u64) -> FramesView {
        FramesView {
            frame: self.frame,
            started: self.started,
            metrics: self.metrics.after_frame(self.frame, elapsed, threshold_ms),
        }
    }
}

impl Frames {
    /// No frame has started.
    pub fn new() -> (frames: Frames)
        ensures
            frames@ == (FramesView { frame: 0, started: None, metrics: MetricsView::nothing() }),
            frames@.metrics.well_formed(),
    {
        Frames { frame: 0, started: None, metrics: FrameMetrics::new() }
    }
}

/// What the trace says when frame `n` starts: the first ten frames are told one by one, and
/// after that every 60th.
pub open spec fn frame_text(n: nat) -> Option<Seq<char>> {
    if n == 1 {
        Some("first UI frame started"@)
    } else if n <= 10 {
        Some("UI frame "@ + decimal(n) + " started"@)
    } else if n % 60 == 0 {
        Some("UI frame "@ + decimal(n))
    } else {
        None
    }
}

/// The first ten frames and every 60th leave a line in the trace, and no others do.
pub proof fn frames_that_are_told(n: nat)
    requires
        n > 0,
    ensures
        frame_text(n) is Some <==> n <= 10 || n % 60 == 0,
{
}

/// The line that starts with the number of a frame.
fn numbered_frame(n: u64) -> (line: String)
    ensures
        line@ == "UI frame "@ + decimal(n as nat),
{
    let mut line = "UI frame ".to_owned();
    push_decimal(&mut line, n);
    line
}

/// Advance the per-frame counter (call once per `App::update`). Gives the number of the
/// frame, and the step to trace if there is one.
pub fn next_frame(frames: &mut Frames, enabled: bool) -> (next: (u64, Option<String>))
    requires
        old(frames).frame < u64::MAX,
    ensures
        final(frames).started is Some,
        final(frames)@ == (FramesView {
            frame: (old(frames).frame + 1) as u64,
            started: final(frames).started,
            metrics: old(frames)@.metrics,
        }),
        final(frames)@ == old(frames)@.advanced(final(frames).started->0),
        is_reading(final(frames).started->0),
        next.0 == old(frames).frame + 1,
        match frame_text(next.0 as nat) {
            Some(text) => if enabled {
                next.1 is Some && next.1->0@ == text
            } else {
                next.1 is None
            },
            None => next.1 is None,
        },
{
    next_frame_at(frames, enabled, read_clock())
}

/// Advance the per-frame counter at the time `at`.
pub fn next_frame_at(frames: &mut Frames, enabled: bool, at: Instant) -> (next: (
    u64,
    Option<String>,
))
    requires
        old(frames).frame < u64::MAX,
    ensures
        final(frames)@ == (FramesView {
            frame: (old(frames).frame + 1) as u64,
            started: Some(at),
            metrics: old(frames)@.metrics,
        }),
        final(frames)@ == old(frames)@.advanced(at),
        next.0 == old(frames).frame + 1,
        match frame_text(next.0 as nat) {
            Some(text) => if enabled {
                next.1 is Some && next.1->0@ == text
            } else {
                next.1 is None
            },
            None => next.1 is None,
        },
{
    frames.started = Some(at);
    frames.frame = frames.frame + 1;
    let n: u64 = frames.frame;
    let mut line: Option<String> = None;
    if enabled {
        if n == 1 {
            line = Some("first UI frame started".to_owned());
        } else if n <= 10 {
            line = Some(numbered_frame(n).concat(" started"));
        } else if n % 60 == 0 {
            line = Some(numbered_frame(n));
        }
    }
    (n, line)
}

/// A frame that took longer than the threshold.
#[derive(Debug, Clone, Copy)]
pub struct SlowFrame {
    /// Its number.
    pub frame: u64,
    /// How long it took, in nanoseconds.
    pub elapsed: u128,
}

/// What there is to trace at the end of a frame, in this order.
#[derive(Debug, Clone, Copy)]
pub struct FrameEnd {
    /// The summary, where one is due.
    pub summary: Option<FrameSummary>,
    /// The frame, where it was slow.
    pub slow: Option<SlowFrame>,
}

/// Log when the previous frame's `update()` exceeded `threshold_ms`.
pub fn frame_end(frames: &mut Frames, enabled: bool, threshold_ms: u64) -> (end: FrameEnd)
    requires
        old(frames)@.metrics.well_formed(),
    ensures
        final(frames)@.metrics.well_formed(),
        final(frames).frame == old(frames).frame,
        final(frames).started == old(frames).started,
        !enabled || old(frames).started is None ==> end.summary is None && end.slow is None,
        !enabled || old(frames).started is None ==> final(frames)@ == old(frames)@,
        enabled && old(frames).started is Some ==> exists|at: Instant|
            is_reading(at) && frame_ended(
                old(frames)@,
                #[trigger] nanos_between(at, old(frames).started->0),
                threshold_ms,
                final(frames)@,
                end,
            ),
{
    let elapsed = nanos_since(read_clock(), &frames.started);
    frame_end_after(frames, enabled, elapsed, threshold_ms)
}

/// Whether a frame of `before` that took `elapsed` leaves `after` and `end`.
pub open spec fn frame_ended(
    before: FramesView,
    elapsed: u128,
    threshold_ms: u64,
    after: FramesView,
    end: FrameEnd,
) -> bool {
    let measured = before.metrics.with(elapsed, threshold_ms);
    &&& after.frame == before.frame
    &&& after.started == before.started
    &&& end.summary is Some <==> summary_is_due(before.frame)
    &&& end.summary matches Some(summary) ==> measured.summed_up(
        before.frame,
        threshold_ms,
        summary,
    )
    &&& after.metrics == (if summary_is_due(before.frame) {
        MetricsView::nothing()
    } else {
        measured
    })
    &&& end.slow == (if elapsed > millis(threshold_ms) {
        Some(SlowFrame { frame: before.frame, elapsed })
    } else {
        None
    })
}

/// The end of a frame that took `elapsed` nanoseconds; none where no frame has started.
pub fn frame_end_after(
    frames: &mut Frames,
    enabled: bool,
    elapsed: Option<u128>,
    threshold_ms: u64,
) -> (end: FrameEnd)
    requires
        old(frames)@.metrics.well_formed(),
    ensures
        final(frames)@.metrics.well_formed(),
        match elapsed {
            Some(nanos) => if enabled {
                frame_ended(old(frames)@, nanos, threshold_ms, final(frames)@, end)
                    && final(frames)@ == old(frames)@.ended(nanos, threshold_ms)
            } else {
                end.summary is None && end.slow is None && final(frames)@ == old(frames)@
            },
            None => end.summary is None && end.slow is None && final(frames)@ == old(frames)@,
        },
{
    if !enabled {
        return FrameEnd { summary: None, slow: None };
    }
    match elapsed {
        Some(nanos) => {
            let frame: u64 = frames.frame;
            let summary = record_frame_metrics(&mut frames.metrics, frame, nanos, threshold_ms);
            let slow = if nanos > millis_to_nanos(threshold_ms) {
                Some(SlowFrame { frame, elapsed: nanos })
            } else {
                None
            };
            FrameEnd { summary, slow }
        },
        None => FrameEnd { summary: None, slow: None },
    }
}

impl SlowFrame {
    /// What the trace says of a slow frame.
    pub open spec fn step_text(self, ms: Seq<char>) -> Seq<char> {
        "UI frame "@ + decimal(self.frame as nat) + " took "@ + ms + "ms (SLOW)"@
    }

    /// The step to trace for a slow frame. `ms` is its time in whole milliseconds.
    pub fn step(&self, ms: &str) -> (step: String)
        ensures
            step@ == "UI frame "@ + decimal(self.frame as nat) + " took "@ + ms@ + "ms (SLOW)"@,
            step@ == self.step_text(ms@),
    {
        let mut step = numbered_frame(self.frame);
        step.append(" took ");
        step.append(ms);
        step.append("ms (SLOW)");
        step
    }
}

impl FrameSummary {
    /// What the trace says of a summary. The labels are fixed words of the trace: each stands
    /// before the number of frames that took longer than the time it names.
    pub open spec fn step_text(
        self,
        p50: Seq<char>,
        p95: Seq<char>,
        p99: Seq<char>,
        max: Seq<char>,
    ) -> Seq<char> {
        "frame summary through frame "@ + decimal(self.frame as nat) + ": samples="@ + decimal(
            self.samples as nat,
        ) + ", p50="@ + p50 + "ms, p95="@ + p95 + "ms, p99="@ + p99 + "ms, max="@ + max
            + "ms, >=16ms="@ + decimal(self.over_16ms as nat) + ", >=32ms="@ + decimal(
            self.over_32ms as nat,
        ) + ", >=threshold("@ + decimal(self.threshold_ms as nat) + "ms)="@ + decimal(
            self.over_threshold as nat,
        )
    }

    /// The step to trace for a summary. The texts are its times in milliseconds with one
    /// decimal.
    pub fn step(&self, p50: &str, p95: &str, p99: &str, max: &str) -> (step: String)
        ensures
            step@ == self.step_text(p50@, p95@, p99@, max@),
    {
        let mut step = "frame summary through frame ".to_owned();
        push_decimal(&mut step, self.frame);
        step.append(": samples=");
        push_decimal(&mut step, self.samples);
        step.append(", p50=");
        step.append(p50);
        step.append("ms, p95=");
        step.append(p95);
        step.append("ms, p99=");
        step.append(p99);
        step.append("ms, max=");
        step.append(max);
        step.append("ms, >=16ms=");
        push_decimal(&mut step, self.over_16ms);
        step.append(", >=32ms=");
        push_decimal(&mut step, self.over_32ms);
        step.append(", >=threshold(");
        push_decimal(&mut step, self.threshold_ms);
        step.append("ms)=");
        push_decimal(&mut step, self.over_threshold);
        step
    }
}

// ---------------------------------------------------------------------------
// Slow operations
// ---------------------------------------------------------------------------

/// Log when a scoped operation exceeds `threshold`.
#[derive(Debug)]
pub struct SlowScope {
    /// What the operation is called.
    pub label: &'static str,
    /// When it started.
    pub start: Instant,
    /// How long it may take without being slow, in nanoseconds.
    pub threshold: u128,
}

/// An operation that took longer than its threshold.
#[derive(Debug, Clone, Copy)]
pub struct SlowOperation {
    /// What it is called.
    pub label: &'static str,
    /// How long it took, in nanoseconds.
    pub elapsed: u128,
    /// In which frame it ended.
    pub frame: u64,
}

impl SlowScope {
    /// An operation that starts now.
    pub fn new(label: &'static str, threshold_ms: u64) -> (scope: SlowScope)
        ensures
            scope.label == label,
            scope.threshold == millis(threshold_ms),
            scope.threshold == threshold_ms * 1_000_000,
            is_reading(scope.start),
    {
        SlowScope::new_at(label, threshold_ms, read_clock())
    }

    /// An operation that started at `start`.
    pub fn new_at(label: &'static str, threshold_ms: u64, start: Instant) -> (scope: SlowScope)
        ensures
            scope == (SlowScope { label, start, threshold: millis(threshold_ms) }),
            scope.threshold == threshold_ms * 1_000_000,
    {
        SlowScope { label, start, threshold: millis_to_nanos(threshold_ms) }
    }

    /// What there is to trace of the operation if it ends after `elapsed` nanoseconds: it was
    /// slow if that exceeds the threshold.
    pub open spec fn finished(self, enabled: bool, frame: u64, elapsed: u128) -> Option<
        SlowOperation,
    > {
        if enabled && elapsed > self.threshold {
            Some(SlowOperation { label: self.label, elapsed, frame })
        } else {
            None
        }
    }

    /// The end of the operation, in frame `frame`: what to trace, if it was slow.
    pub fn finish(&self, enabled: bool, frame: u64) -> (slow: Option<SlowOperation>)
        ensures
            !enabled ==> slow is None,
            exists|at: Instant|
                is_reading(at) && slow == self.finished(enabled, frame, #[trigger] nanos_between(at, self.start)),
    {
        let elapsed: u128 = nanos_from(self.start, read_clock());
        self.finish_after(enabled, frame, elapsed)
    }

    /// The end of the operation after `elapsed` nanoseconds.
    pub fn finish_after(&self, enabled: bool, frame: u64, elapsed: u128) -> (slow: Option<
        SlowOperation,
    >)
        ensures
            slow == self.finished(enabled, frame, elapsed),
    {
        if enabled && elapsed > self.threshold {
            Some(SlowOperation { label: self.label, elapsed, frame })
        } else {
            None
        }
    }
}

impl SlowOperation {
    /// What the trace says of a slow operation.
    pub open spec fn step_text(self, ms: Seq<char>) -> Seq<char> {
        "slow "@ + self.label@ + " "@ + ms + "ms (frame "@ + decimal(self.frame as nat) + ")"@
    }

    /// The step to trace for a slow operation. `ms` is its time in whole milliseconds.
    pub fn step(&self, ms: &str) -> (step: String)
        ensures
            step@ == "slow "@ + self.label@ + " "@ + ms@ + "ms (frame "@ + decimal(
                self.frame as nat,
            ) + ")"@,
            step@ == self.step_text(ms@),
    {
        let mut step = "slow ".to_owned();
        step.append(self.label);
        step.append(" ");
        step.append(ms);
        step.append("ms (frame ");
        push_decimal(&mut step, self.frame);
        step.append(")");
        step
    }
}

// ---------------------------------------------------------------------------
// Events
// ---------------------------------------------------------------------------

/// What the trace says of an event.
pub open spec fn event_text(key: Seq<char>, message: Seq<char>) -> Seq<char> {
    key + ": "@ + message
}

/// The step to trace for an event.
fn event_step(key: &str, message: &str) -> (step: String)
    ensures
        step@ == event_text(key@, message@),
{
    let mut step = key.to_owned();
    step.append(": ");
    step.append(message);
    step
}

/// The keys of the events that were written once and are not to be written again.
#[derive(Debug)]
pub struct SeenEvents {
    keys: Vec<String>,
}

impl View for SeenEvents {
    type V = Set<Seq<char>>;

    closed spec fn view(&self) -> Set<Seq<char>> {
        Set::new(|key: Seq<char>| exists|i: int| 0 <= i < self.keys@.len() && self.keys@[i]@ == key)
    }
}

impl SeenEvents {
    /// Nothing has been written.
    pub fn new() -> (seen: SeenEvents)
        ensures
            seen@ == Set::<Seq<char>>::empty(),
    {
        let seen = SeenEvents { keys: Vec::new() };
        assert(seen@ =~= Set::<Seq<char>>::empty());
        seen
    }

    /// Whether the event has been written.
    pub fn contains(&self, key: &str) -> (found: bool)
        ensures
            found == self@.contains(key@),
    {
        let mut i: usize = 0;
        while i < self.keys.len()
            invariant
                i <= self.keys@.len(),
                forall|j: int| 0 <= j < i ==> self.keys@[j]@ != key@,
            decreases self.keys@.len() - i,
        {
            if same_text(self.keys[i].as_str(), key) {
                return true;
            }
            i = i + 1;
        }
        false
    }

    /// Remembers an event. Says whether it is new.
    pub fn insert(&mut self, key: &str) -> (fresh: bool)
        ensures
            fresh == !old(self)@.contains(key@),
            final(self)@ == old(self)@.insert(key@),
    {
        if self.contains(key) {
            assert(self@.insert(key@) =~= self@);
            return false;
        }
        self.keys.push(key.to_owned());
        proof {
            let before = old(self).keys@;
            let after = self.keys@;
            assert(after[before.len() as int]@ == key@);
            assert forall|k: Seq<char>| self@.contains(k) <==> old(self)@.insert(
                key@,
            ).contains(k) by {
                if old(self)@.contains(k) {
                    let i = choose|i: int| 0 <= i < before.len() && before[i]@ == k;
                    assert(after[i]@ == k);
                }
                if self@.contains(k) && k != key@ {
                    let i = choose|i: int| 0 <= i < after.len() && after[i]@ == k;
                    assert(before[i]@ == k);
                }
            }
            assert(self@ =~= old(self)@.insert(key@));
        }
        true
    }
}

/// Whether a one-shot event is written.
pub open spec fn is_written_once(seen: Set<Seq<char>>, enabled: bool, key: Seq<char>) -> bool {
    enabled && !seen.contains(key)
}

/// The keys that have been seen after a one-shot event.
pub open spec fn seen_with(seen: Set<Seq<char>>, enabled: bool, key: Seq<char>) -> Set<Seq<char>> {
    if enabled {
        seen.insert(key)
    } else {
        seen
    }
}

/// One-shot event (deduped by `key` per process).
pub fn event_once(seen: &mut SeenEvents, enabled: bool, key: &str, message: &str) -> (step: Option<
    String,
>)
    ensures
        step is Some <==> enabled && !old(seen)@.contains(key@),
        step matches Some(text) ==> text@ == event_text(key@, message@),
        final(seen)@ == (if enabled {
            old(seen)@.insert(key@)
        } else {
            old(seen)@
        }),
        step is Some <==> is_written_once(old(seen)@, enabled, key@),
        final(seen)@ == seen_with(old(seen)@, enabled, key@),
{
    if !enabled {
        return None;
    }
    if seen.insert(key) {
        Some(event_step(key, message))
    } else {
        None
    }
}

/// The time that has to pass before an event with the same key is written again: one second,
/// in nanoseconds.
pub const EVENT_INTERVAL_NANOS: u128 = 1_000_000_000;

/// When an event was written.
#[derive(Debug)]
struct EventTime {
    key: String,
    at: Instant,
}

/// When the events with each key were last written.
#[derive(Debug)]
pub struct EventTimes {
    entries: Vec<EventTime>,
}

/// When the last of the entries with this key says that it was written.
spec fn last_time(entries: Seq<EventTime>, key: Seq<char>) -> Option<Instant>
    decreases entries.len(),
{
    if entries.len() == 0 {
        None
    } else if entries.last().key@ == key {
        Some(entries.last().at)
    } else {
        last_time(entries.drop_last(), key)
    }
}

/// Replacing the last entry with a key by one with that key changes its time alone.
proof fn lemma_entry_replaced(entries: Seq<EventTime>, i: int, entry: EventTime, key: Seq<char>)
    requires
        0 <= i < entries.len(),
        entries[i].key@ == entry.key@,
        forall|j: int| i < j < entries.len() ==> (#[trigger] entries[j]).key@ != entry.key@,
    ensures
        last_time(entries.update(i, entry), key) == (if key == entry.key@ {
            Some(entry.at)
        } else {
            last_time(entries, key)
        }),
    decreases entries.len(),
{
    let after = entries.update(i, entry);
    if i < entries.len() - 1 {
        lemma_entry_replaced(entries.drop_last(), i, entry, key);
        assert(after.drop_last() =~= entries.drop_last().update(i, entry));
    } else {
        assert(after.drop_last() =~= entries.drop_last());
    }
}

impl View for EventTimes {
    type V = Map<Seq<char>, Instant>;

    closed spec fn view(&self) -> Map<Seq<char>, Instant> {
        Map::new(
            |key: Seq<char>| last_time(self.entries@, key) is Some,
            |key: Seq<char>| last_time(self.entries@, key)->0,
        )
    }
}

/// The time at `at` since the event with this key was last written, if it ever was.
pub open spec fn since_event(
    times: Map<Seq<char>, Instant>,
    key: Seq<char>,
    at: Instant,
) -> Option<u128> {
    if times.dom().contains(key) {
        Some(nanos_between(at, times[key]))
    } else {
        None
    }
}

/// Whether an event is written that long after the last one with its key.
pub open spec fn event_is_due(enabled: bool, since_last: Option<u128>) -> bool {
    enabled && (since_last is None || since_last->0 >= EVENT_INTERVAL_NANOS)
}

/// The times after an event at `at`.
pub open spec fn times_after(
    times: Map<Seq<char>, Instant>,
    enabled: bool,
    key: Seq<char>,
    at: Instant,
) -> Map<Seq<char>, Instant> {
    if event_is_due(enabled, since_event(times, key, at)) {
        times.insert(key, at)
    } else {
        times
    }
}

impl EventTimes {
    /// Nothing has been written.
    pub fn new() -> (times: EventTimes)
        ensures
            times@ == Map::<Seq<char>, Instant>::empty(),
    {
        let times = EventTimes { entries: Vec::new() };
        assert(times@ =~= Map::<Seq<char>, Instant>::empty());
        times
    }

    /// Where the last entry with this key stands.
    fn position(&self, key: &str) -> (found: Option<usize>)
        ensures
            match found {
                Some(i) => {
                    &&& i < self.entries@.len()
                    &&& self.entries@[i as int].key@ == key@
                    &&& last_time(self.entries@, key@) == Some(self.entries@[i as int].at)
                    &&& forall|j: int|
                        i < j < self.entries@.len() ==> (#[trigger] self.entries@[j]).key@ != key@
                },
                None => last_time(self.entries@, key@) is None,
            },
    {
        let mut i: usize = self.entries.len();
        assert(self.entries@.take(i as int) =~= self.entries@);
        while i > 0
            invariant
                i <= self.entries@.len(),
                last_time(self.entries@.take(i as int), key@) == last_time(self.entries@, key@),
                forall|j: int|
                    i <= j < self.entries@.len() ==> (#[trigger] self.entries@[j]).key@ != key@,
            decreases i,
        {
            assert(self.entries@.take(i as int).drop_last() =~= self.entries@.take(i - 1));
            i = i - 1;
            if same_text(self.entries[i].key.as_str(), key) {
                return Some(i);
            }
        }
        None
    }

    /// When the event with this key was last written.
    pub fn get(&self, key: &str) -> (at: Option<Instant>)
        ensures
            at == (if self@.dom().contains(key@) {
                Some(self@[key@])
            } else {
                None
            }),
    {
        match self.position(key) {
            Some(i) => Some(self.entries[i].at),
            None => None,
        }
    }

    /// Remembers that an event was written at `at`.
    pub fn insert(&mut self, key: &str, at: Instant)
        ensures
            final(self)@ == old(self)@.insert(key@, at),
    {
        match self.position(key) {
            Some(i) => {
                let entry = EventTime { key: key.to_owned(), at };
                self.entries.set(i, entry);
                proof {
                    let before = old(self).entries@;
                    assert forall|k: Seq<char>|
                        last_time(self.entries@, k) == (if k == key@ {
                            Some(at)
                        } else {
                            last_time(before, k)
                        }) by {
                        lemma_entry_replaced(before, i as int, self.entries@[i as int], k);
                    }
                }
            },
            None => {
                self.entries.push(EventTime { key: key.to_owned(), at });
                assert(self.entries@.drop_last() =~= old(self).entries@);
            },
        }
        assert(self@ =~= old(self)@.insert(key@, at));
    }
}

/// Repeatable event (rate-limited to avoid log spam): an event is written if the last one with
/// its key was written a second ago or longer, or never.
pub fn event(times: &mut EventTimes, enabled: bool, key: &str, message: &str) -> (step: Option<
    String,
>)
    ensures
        !enabled ==> step is None,
        enabled && !old(times)@.dom().contains(key@) ==> step is Some,
        step matches Some(text) ==> text@ == event_text(key@, message@),
        exists|at: Instant|
            is_reading(at) && (step is Some <==> event_is_due(
                enabled,
                #[trigger] since_event(old(times)@, key@, at),
            )) && final(times)@ == times_after(old(times)@, enabled, key@, at),
{
    let at = read_clock();
    event_at(times, enabled, key, message, at)
}

/// Repeatable event at the time `at`.
pub fn event_at(
    times: &mut EventTimes,
    enabled: bool,
    key: &str,
    message: &str,
    at: Instant,
) -> (step: Option<String>)
    ensures
        step is Some <==> event_is_due(enabled, since_event(old(times)@, key@, at)),
        step matches Some(text) ==> text@ == event_text(key@, message@),
        final(times)@ == times_after(old(times)@, enabled, key@, at),
{
    let since_last = nanos_since(at, &times.get(key));
    let step = event_after(enabled, since_last, key, message);
    if step.is_some() {
        times.insert(key, at);
    }
    step
}

/// Repeatable event that long after the last one with its key.
pub fn event_after(enabled: bool, since_last: Option<u128>, key: &str, message: &str) -> (step:
    Option<String>)
    ensures
        step is Some <==> enabled && (since_last is None || since_last->0
            >= EVENT_INTERVAL_NANOS),
        step matches Some(text) ==> text@ == event_text(key@, message@),
{
    if !enabled {
        return None;
    }
    if let Some(elapsed) = since_last {
        if elapsed < EVENT_INTERVAL_NANOS {
            return None;
        }
    }
    Some(event_step(key, message))
}

/// The times after events with these keys at these times, one after the other.
pub open spec fn times_after_all(
    times: Map<Seq<char>, Instant>,
    events: Seq<(Seq<char>, Instant)>,
) -> Map<Seq<char>, Instant>
    decreases events.len(),
{
    if events.len() == 0 {
        times
    } else {
        times_after(
            times_after_all(times, events.drop_last()),
            true,
            events.last().0,
            events.last().1,
        )
    }
}

/// When those of these events that have this key are written.
pub open spec fn written_at(
    times: Map<Seq<char>, Instant>,
    events: Seq<(Seq<char>, Instant)>,
    key: Seq<char>,
) -> Seq<Instant>
    decreases events.len(),
{
    if events.len() == 0 {
        Seq::empty()
    } else {
        let before = written_at(times, events.drop_last(), key);
        let known = times_after_all(times, events.drop_last());
        if events.last().0 == key && event_is_due(true, since_event(known, key, events.last().1)) {
            before.push(events.last().1)
        } else {
            before
        }
    }
}

/// However often events with one key come, and whatever comes between them, two of them that
/// are written one after the other lie a second apart or more, and the last of them is the one
/// that is remembered.
pub proof fn events_are_rate_limited(
    times: Map<Seq<char>, Instant>,
    events: Seq<(Seq<char>, Instant)>,
    key: Seq<char>,
)
    ensures
        forall|i: int|
            0 < i < written_at(times, events, key).len() ==> nanos_between(
                #[trigger] written_at(times, events, key)[i],
                written_at(times, events, key)[i - 1],
            ) >= EVENT_INTERVAL_NANOS,
        written_at(times, events, key).len() > 0 && times.dom().contains(key) ==> nanos_between(
            written_at(times, events, key)[0],
            times[key],
        ) >= EVENT_INTERVAL_NANOS,
        times_after_all(times, events).dom().contains(key) <==> times.dom().contains(key)
            || written_at(times, events, key).len() > 0,
        written_at(times, events, key).len() > 0 ==> times_after_all(times, events)[key]
            == written_at(times, events, key).last(),
        written_at(times, events, key).len() == 0 && times.dom().contains(key)
            ==> times_after_all(times, events)[key] == times[key],
    decreases events.len(),
{
    if events.len() > 0 {
        events_are_rate_limited(times, events.drop_last(), key);
    }
}

/// The first event with a key is written, and so is one that comes a second or more after the
/// last one that was; what is remembered of other keys stays.
pub proof fn events_come_again(
    times: Map<Seq<char>, Instant>,
    key: Seq<char>,
    at: Instant,
    other: Seq<char>,
    later: Instant,
)
    ensures
        !times.dom().contains(key) ==> event_is_due(true, since_event(times, key, at)),
        times.dom().contains(key) && nanos_between(at, times[key]) >= EVENT_INTERVAL_NANOS
            ==> event_is_due(true, since_event(times, key, at)),
        other != key ==> since_event(times_after(times, true, key, at), other, later)
            == since_event(times, other, later),
{
}

/// The keys that have been seen after one-shot events with these keys.
pub open spec fn seen_after(seen: Set<Seq<char>>, keys: Seq<Seq<char>>) -> Set<Seq<char>>
    decreases keys.len(),
{
    if keys.len() == 0 {
        seen
    } else {
        seen_with(seen_after(seen, keys.drop_last()), true, keys.last())
    }
}

/// The keys of those one-shot events among these that are written.
pub open spec fn written_once(seen: Set<Seq<char>>, keys: Seq<Seq<char>>) -> Seq<Seq<char>>
    decreases keys.len(),
{
    if keys.len() == 0 {
        Seq::empty()
    } else {
        let before = written_once(seen, keys.drop_last());
        if is_written_once(seen_after(seen, keys.drop_last()), true, keys.last()) {
            before.push(keys.last())
        } else {
            before
        }
    }
}

/// However often a one-shot event comes, it is written once, and not at all where it had been
/// written before.
pub proof fn one_shot_events_are_written_once(seen: Set<Seq<char>>, keys: Seq<Seq<char>>)
    ensures
        written_once(seen, keys).no_duplicates(),
        forall|key: Seq<char>|
            #[trigger] written_once(seen, keys).contains(key) <==> keys.contains(key)
                && !seen.contains(key),
        forall|key: Seq<char>|
            #[trigger] seen_after(seen, keys).contains(key) <==> seen.contains(key)
                || keys.contains(key),
    decreases keys.len(),
{
    if keys.len() > 0 {
        let rest = keys.drop_last();
        let last = keys.last();
        let before = written_once(seen, rest);
        let after = written_once(seen, keys);
        one_shot_events_are_written_once(seen, rest);
        assert forall|key: Seq<char>| keys.contains(key) <==> rest.contains(key) || key == last by {
            if rest.contains(key) {
                let i = choose|i: int| 0 <= i < rest.len() && rest[i] == key;
                assert(keys[i] == key);
            }
            if key == last {
                assert(keys[keys.len() - 1] == key);
            }
            if keys.contains(key) && key != last {
                let i = choose|i: int| 0 <= i < keys.len() && keys[i] == key;
                assert(rest[i] == key);
            }
        }
        if !seen_after(seen, rest).contains(last) {
            assert forall|key: Seq<char>| after.contains(key) <==> before.contains(key) || key
                == last by {
                if before.contains(key) {
                    let i = choose|i: int| 0 <= i < before.len() && before[i] == key;
                    assert(after[i] == key);
                }
                if key == last {
                    assert(after[before.len() as int] == key);
                }
                if after.contains(key) && key != last {
                    let i = choose|i: int| 0 <= i < after.len() && after[i] == key;
                    assert(before[i] == key);
                }
            }
            assert forall|i: int, j: int|
                0 <= i < after.len() && 0 <= j < after.len() && i != j implies after[i]
                != after[j] by {
                if i == before.len() {
                    assert(before.contains(before[j]));
                } else if j == before.len() {
                    assert(before.contains(before[i]));
                }
            }
        }
    }
}

/// Without diagnostics no one-shot event is written or remembered; with them, the key of every
/// one is remembered from then on, and no other key is forgotten.
pub proof fn one_shot_events_are_remembered(
    seen: Set<Seq<char>>,
    enabled: bool,
    key: Seq<char>,
    other: Seq<char>,
)
    ensures
        !enabled ==> !is_written_once(seen, enabled, key) && seen_with(seen, enabled, key) == seen,
        is_written_once(seen, true, key) <==> !seen.contains(key),
        !is_written_once(seen_with(seen, true, key), true, key),
        other != key ==> (is_written_once(seen_with(seen, enabled, key), true, other)
            <==> is_written_once(seen, true, other)),
{
}

/// The values that switch the diagnostics on are these four texts and no others.
pub proof fn four_values_switch_on(value: Seq<char>)
    ensures
        switches_on(value) <==> value == seq!['1'] || value == seq!['t', 'r', 'u', 'e'] || value
            == seq!['y', 'e', 's'] || value == seq!['o', 'n'],
{
    reveal_strlit("1");
    reveal_strlit("true");
    reveal_strlit("yes");
    reveal_strlit("on");
    assert("1"@ =~= seq!['1']);
    assert("true"@ =~= seq!['t', 'r', 'u', 'e']);
    assert("yes"@ =~= seq!['y', 'e', 's']);
    assert("on"@ =~= seq!['o', 'n']);
}

/// A line of the trace holds the seconds in a field of seven characters at least, which they
/// end, then `s` and two blanks, then the step to its end.
pub proof fn trace_lines_have_fields(seconds: Seq<char>, step: Seq<char>, field: int)
    requires
        field == (if seconds.len() < 7 {
            7
        } else {
            seconds.len() as int
        }),
    ensures
        trace_line(seconds, step).len() == field + 3 + step.len(),
        trace_line(seconds, step).subrange(field - seconds.len(), field) == seconds,
        forall|i: int|
            0 <= i < field - seconds.len() ==> #[trigger] trace_line(seconds, step)[i] == ' ',
        trace_line(seconds, step).subrange(field, field + 3) == seq!['s', ' ', ' '],
        trace_line(seconds, step).skip(field + 3) == step,
{
    reveal_strlit("s  ");
    let line = trace_line(seconds, step);
    assert(line.subrange(field - seconds.len(), field) =~= seconds);
    assert(line.subrange(field, field + 3) =~= seq!['s', ' ', ' ']);
    assert(line.skip(field + 3) =~= step);
}

/// What is said of a frame: the first one is called so, the next nine are told to start, and
/// after that every 60th is told by its number.
pub proof fn frames_are_told_by_their_number(n: nat)
    requires
        n > 0,
    ensures
        n == 1 ==> frame_text(n) == Some("first UI frame started"@),
        2 <= n <= 10 ==> frame_text(n) == Some("UI frame "@ + decimal(n) + " started"@),
        n > 10 && n % 60 == 0 ==> frame_text(n) == Some("UI frame "@ + decimal(n)),
        n > 10 && n % 60 != 0 ==> frame_text(n) is None,
{
}

/// A frame that starts is the next one in number and starts at the time given; what has been
/// measured is not touched.
pub proof fn frames_start_one_after_the_other(frames: FramesView, at: Instant)
    requires
        frames.frame < u64::MAX,
    ensures
        frames.advanced(at).frame == frames.frame + 1,
        frames.advanced(at).started == Some(at),
        frames.advanced(at).metrics == frames.metrics,
{
}

/// The end of a frame leaves a line where the frame took longer than the threshold, and gives a
/// summary where its number is a positive multiple of 300. It keeps its time among the samples
/// unless it gives a summary, after which nothing is kept. It changes nothing else.
pub proof fn frame_ends_are_measured(
    before: FramesView,
    elapsed: u128,
    threshold_ms: u64,
    after: FramesView,
    end: FrameEnd,
)
    requires
        frame_ended(before, elapsed, threshold_ms, after, end),
    ensures
        end.slow is Some <==> elapsed > threshold_ms * 1_000_000,
        end.slow matches Some(slow) ==> slow.frame == before.frame && slow.elapsed == elapsed,
        end.summary is Some <==> before.frame > 0 && before.frame % 300 == 0,
        end.summary matches Some(summary) ==> summary.frame == before.frame && summary.samples
            == before.metrics.samples.len() + 1,
        end.summary is None ==> after.metrics.samples == before.metrics.samples.push(elapsed),
        end.summary is Some ==> after.metrics.samples.len() == 0,
        after.frame == before.frame,
        after.started == before.started,
        after == before.ended(elapsed, threshold_ms),
{
}

/// The frames after these have started and ended: the time at which each started, how long it
/// took, and its threshold.
pub open spec fn frames_after(times: Seq<(Instant, u128, u64)>) -> FramesView
    decreases times.len(),
{
    if times.len() == 0 {
        FramesView { frame: 0, started: None, metrics: MetricsView::nothing() }
    } else {
        frames_after(times.drop_last()).advanced(times.last().0).ended(
            times.last().1,
            times.last().2,
        )
    }
}

/// However many frames there have been, their number is known, and the times that are kept are
/// those of the frames since the last one that gave a summary, which was the last one whose
/// number is a multiple of 300.
pub proof fn frames_are_counted_and_kept(times: Seq<(Instant, u128, u64)>)
    requires
        times.len() <= u64::MAX,
    ensures
        frames_after(times).frame == times.len(),
        frames_after(times).metrics.samples == times.skip(
            times.len() - times.len() % 300,
        ).map_values(|time: (Instant, u128, u64)| time.1),
        times.len() > 0 ==> frames_after(times).started == Some(times.last().0),
    decreases times.len(),
{
    let second = |time: (Instant, u128, u64)| time.1;
    let n = times.len();
    let tail = times.skip(n - n % 300);
    if n > 0 {
        let rest = times.drop_last();
        frames_are_counted_and_kept(rest);
        let m = rest.len();
        let before = rest.skip(m - m % 300);
        if n % 300 != 0 {
            assert(m % 300 == n % 300 - 1);
            assert(tail =~= before.push(times.last()));
        }
    }
    assert(frames_after(times).metrics.samples =~= tail.map_values(second));
}

proof fn lemma_regrouped(a: Seq<char>, b: Seq<char>, c: Seq<char>)
    ensures
        (a + b) + c == a + (b + c),
{
    assert((a + b) + c =~= a + (b + c));
}

/// The text of a summary names the frame it goes up to and then, each after its label and in
/// this order, the number of samples, the times that were handed in, and the counts.
pub proof fn summaries_are_told_in_order(
    summary: FrameSummary,
    p50: Seq<char>,
    p95: Seq<char>,
    p99: Seq<char>,
    max: Seq<char>,
)
    ensures
        summary.step_text(p50, p95, p99, max) == "frame summary through frame "@ + (decimal(
            summary.frame as nat,
        ) + (": samples="@ + (decimal(summary.samples as nat) + (", p50="@ + (p50 + ("ms, p95="@ + (
        p95 + ("ms, p99="@ + (p99 + ("ms, max="@ + (max + ("ms, >=16ms="@ + (decimal(
            summary.over_16ms as nat,
        ) + (", >=32ms="@ + (decimal(summary.over_32ms as nat) + (", >=threshold("@ + (decimal(
            summary.threshold_ms as nat,
        ) + ("ms)="@ + decimal(summary.over_threshold as nat))))))))))))))))))),
{
    let l0 = "frame summary through frame "@;
    let l1 = l0 + decimal(summary.frame as nat);
    let l2 = l1 + ": samples="@;
    let l3 = l2 + decimal(summary.samples as nat);
    let l4 = l3 + ", p50="@;
    let l5 = l4 + p50;
    let l6 = l5 + "ms, p95="@;
    let l7 = l6 + p95;
    let l8 = l7 + "ms, p99="@;
    let l9 = l8 + p99;
    let l10 = l9 + "ms, max="@;
    let l11 = l10 + max;
    let l12 = l11 + "ms, >=16ms="@;
    let l13 = l12 + decimal(summary.over_16ms as nat);
    let l14 = l13 + ", >=32ms="@;
    let l15 = l14 + decimal(summary.over_32ms as nat);
    let l16 = l15 + ", >=threshold("@;
    let l17 = l16 + decimal(summary.threshold_ms as nat);
    let l18 = l17 + "ms)="@;
    let r19 = decimal(summary.over_threshold as nat);
    let r18 = "ms)="@ + r19;
    let r17 = decimal(summary.threshold_ms as nat) + r18;
    let r16 = ", >=threshold("@ + r17;
    let r15 = decimal(summary.over_32ms as nat) + r16;
    let r14 = ", >=32ms="@ + r15;
    let r13 = decimal(summary.over_16ms as nat) + r14;
    let r12 = "ms, >=16ms="@ + r13;
    let r11 = max + r12;
    let r10 = "ms, max="@ + r11;
    let r9 = p99 + r10;
    let r8 = "ms, p99="@ + r9;
    let r7 = p95 + r8;
    let r6 = "ms, p95="@ + r7;
    let r5 = p50 + r6;
    let r4 = ", p50="@ + r5;
    let r3 = decimal(summary.samples as nat) + r4;
    let r2 = ": samples="@ + r3;
    let r1 = decimal(summary.frame as nat) + r2;
    lemma_regrouped(l0, decimal(summary.frame as nat), r2);
    lemma_regrouped(l1, ": samples="@, r3);
    lemma_regrouped(l2, decimal(summary.samples as nat), r4);
    lemma_regrouped(l3, ", p50="@, r5);
    lemma_regrouped(l4, p50, r6);
    lemma_regrouped(l5, "ms, p95="@, r7);
    lemma_regrouped(l6, p95, r8);
    lemma_regrouped(l7, "ms, p99="@, r9);
    lemma_regrouped(l8, p99, r10);
    lemma_regrouped(l9, "ms, max="@, r11);
    lemma_regrouped(l10, max, r12);
    lemma_regrouped(l11, "ms, >=16ms="@, r13);
    lemma_regrouped(l12, decimal(summary.over_16ms as nat), r14);
    lemma_regrouped(l13, ", >=32ms="@, r15);
    lemma_regrouped(l14, decimal(summary.over_32ms as nat), r16);
    lemma_regrouped(l15, ", >=threshold("@, r17);
    lemma_regrouped(l16, decimal(summary.threshold_ms as nat), r18);
    lemma_regrouped(l17, "ms)="@, r19);
}

/// An operation leaves a line where it took longer than its threshold in milliseconds, and by a
/// nanosecond at least; the line is about this operation, its time and the frame it ended in.
pub proof fn operations_are_slow_over_their_threshold(
    scope: SlowScope,
    threshold_ms: u64,
    enabled: bool,
    frame: u64,
    elapsed: u128,
)
    requires
        scope.threshold == threshold_ms * 1_000_000,
    ensures
        scope.finished(enabled, frame, elapsed) is Some <==> enabled && elapsed > threshold_ms
            * 1_000_000,
        scope.finished(enabled, frame, elapsed) matches Some(slow) ==> slow.label == scope.label
            && slow.elapsed == elapsed && slow.frame == frame,
{
}

/// The text of an event is its key, a colon and a blank, and its message.
pub proof fn events_are_told_with_their_key(key: Seq<char>, message: Seq<char>)
    ensures
        event_text(key, message).len() == key.len() + 2 + message.len(),
        event_text(key, message).take(key.len() as int) == key,
        event_text(key, message).subrange(key.len() as int, key.len() as int + 2) == seq![':', ' '],
        event_text(key, message).skip(key.len() as int + 2) == message,
{
    reveal_strlit(": ");
    let text = event_text(key, message);
    assert(text.take(key.len() as int) =~= key);
    assert(text.subrange(key.len() as int, key.len() as int + 2) =~= seq![':', ' ']);
    assert(text.skip(key.len() as int + 2) =~= message);
}

/// A repeatable event is written where diagnostics are enabled and the last one with its key was
/// written a second ago or longer, or never. Its time is then remembered for its key, and
/// nothing is remembered of one that is left out.
pub proof fn events_are_written_once_a_second(
    times: Map<Seq<char>, Instant>,
    enabled: bool,
    key: Seq<char>,
    at: Instant,
    other: Seq<char>,
)
    ensures
        event_is_due(enabled, since_event(times, key, at)) <==> enabled && (!times.dom().contains(
            key,
        ) || nanos_between(at, times[key]) >= 1_000_000_000),
        !event_is_due(enabled, since_event(times, key, at)) ==> times_after(
            times,
            enabled,
            key,
            at,
        ) == times,
        event_is_due(enabled, since_event(times, key, at)) ==> times_after(
            times,
            enabled,
            key,
            at,
        ).dom().contains(key) && times_after(times, enabled, key, at)[key] == at,
        other != key ==> (times_after(times, enabled, key, at).dom().contains(other)
            <==> times.dom().contains(other)),
        other != key && times.dom().contains(other) ==> times_after(times, enabled, key, at)[other]
            == times[other],
{
}

/// The line of a slow frame gives its number and then its time; that of a slow operation gives
/// its label, then its time, then the frame.
pub proof fn slow_lines_are_told_in_order(
    frame: SlowFrame,
    operation: SlowOperation,
    ms: Seq<char>,
)
    ensures
        frame.step_text(ms) == "UI frame "@ + (decimal(frame.frame as nat) + (" took "@ + (ms
            + "ms (SLOW)"@))),
        operation.step_text(ms) == "slow "@ + (operation.label@ + (" "@ + (ms + ("ms (frame "@ + (
        decimal(operation.frame as nat) + ")"@))))),
{
    assert(frame.step_text(ms) =~= "UI frame "@ + (decimal(frame.frame as nat) + (" took "@ + (ms
        + "ms (SLOW)"@))));
    assert(operation.step_text(ms) =~= "slow "@ + (operation.label@ + (" "@ + (ms + ("ms (frame "@
        + (decimal(operation.frame as nat) + ")"@))))));
}

} // verus!
