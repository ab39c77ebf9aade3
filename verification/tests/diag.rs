use ferrite::diag::{
    enabled, event, event_after, event_at, event_once, frame_end, frame_end_after, next_frame,
    next_frame_at, pointer_path, trace, trace_path, trace_reset, EventTimes, Frames, SeenEvents,
    SlowFrame, SlowScope, Switch, EVENT_INTERVAL_NANOS,
};
use ferrite::frames::{percentile, record_frame_metrics, FrameMetrics, FrameSummary};
use ferrite::paths::PathParts;
use std::time::{Duration, Instant};

const MS: u128 = 1_000_000;

#[test]
fn percentile_clamps_and_selects_sorted_samples() {
    let samples = [1, 2, 4, 8, 16];

    assert_eq!(percentile(&samples, -100), 1);
    assert_eq!(percentile(&samples, 50), 4);
    assert_eq!(percentile(&samples, 95), 16);
    assert_eq!(percentile(&samples, 200), 16);
}

#[test]
fn percentile_empty_samples_returns_zero() {
    assert_eq!(percentile(&[], 95), 0);
}

#[test]
fn percentile_rounds_to_the_nearest_place() {
    // 50 % of the way between two places is rounded up.
    assert_eq!(percentile(&[10, 20], 50), 20);
    assert_eq!(percentile(&[10, 20], 49), 10);
    let samples: Vec<u128> = (0..300).collect();
    assert_eq!(percentile(&samples, 50), 150);
    assert_eq!(percentile(&samples, 95), 284);
    assert_eq!(percentile(&samples, 99), 296);
}

#[test]
fn percentile_places_agree_with_floating_point() {
    for len in 1..2000usize {
        let samples: Vec<u128> = (0..len as u128).collect();
        for (percent, quantile) in [(50i64, 0.50f64), (95, 0.95), (99, 0.99)] {
            let place = ((len - 1) as f64 * quantile).round() as u128;
            assert_eq!(percentile(&samples, percent), place, "{percent} of {len}");
        }
    }
}

#[test]
fn values_that_enable_diagnostics() {
    for value in ["1", "true", "yes", "on"] {
        assert!(enabled(Some(value)));
    }
    for value in ["", "0", "false", "TRUE", "1 ", "no"] {
        assert!(!enabled(Some(value)));
    }
    assert!(!enabled(None));
}

#[test]
fn the_first_answer_is_kept() {
    let mut on = Switch::new();
    assert!(on.ask(Some("yes")));
    assert!(on.ask(Some("0")));
    assert!(on.ask(None));
    let mut off = Switch::new();
    assert!(!off.ask(None));
    assert!(!off.ask(Some("1")));
    assert_eq!(off.answer, Some(false));
}

#[test]
fn trace_files_stand_in_the_temporary_directory() {
    let temp = PathParts::parse(b"/tmp");
    assert_eq!(trace_path(&temp).to_text(), b"/tmp/ferrite_startup_trace.log");
    assert_eq!(pointer_path(&temp).to_text(), b"/tmp/ferrite_DIAG_LOG_HERE.txt");
}

#[test]
fn trace_lines_are_aligned() {
    assert_eq!(trace(true, "0.123", "main() entered").unwrap(), "  0.123s  main() entered");
    assert_eq!(trace(true, "12345.678", "x").unwrap(), "12345.678s  x");
    assert_eq!(trace(true, "0.123", "x").unwrap(), format!("{:>7.3}s  {}", 0.123f64, "x"));
    assert!(trace(false, "0.123", "x").is_none());
}

#[test]
fn trace_starts_with_a_header() {
    let files = trace_reset(true, "now", "/tmp/trace.log").unwrap();
    assert_eq!(files.header, "Ferrite startup trace — now\n");
    assert_eq!(files.pointer, "Open this log while diagnosing Ferrite:\n/tmp/trace.log\n");
    assert!(trace_reset(false, "now", "/tmp/trace.log").is_none());
}

#[test]
fn frames_in_the_trace() {
    let mut frames = Frames::new();
    let at = Instant::now();
    for n in 1..=600u64 {
        let (frame, line) = next_frame_at(&mut frames, true, at);
        assert_eq!(frame, n);
        let expected = if n == 1 {
            Some("first UI frame started".to_string())
        } else if n <= 10 {
            Some(format!("UI frame {n} started"))
        } else if n % 60 == 0 {
            Some(format!("UI frame {n}"))
        } else {
            None
        };
        assert_eq!(line, expected);
    }
    assert_eq!(frames.started, Some(at));
}

#[test]
fn frames_are_counted_without_diagnostics() {
    let mut frames = Frames::new();
    assert_eq!(next_frame(&mut frames, false), (1, None));
    assert_eq!(next_frame(&mut frames, false), (2, None));
    assert!(frames.started.is_some());
    let end = frame_end(&mut frames, false, 0);
    assert!(end.summary.is_none() && end.slow.is_none());
    assert!(frames.metrics.samples.is_empty());
}

#[test]
fn end_without_a_start_measures_nothing() {
    let mut frames = Frames::new();
    let end = frame_end(&mut frames, true, 0);
    assert!(end.summary.is_none() && end.slow.is_none());
    assert!(frames.metrics.samples.is_empty());
}

#[test]
fn frames_are_measured_by_the_clock() {
    let mut frames = Frames::new();
    next_frame_at(&mut frames, true, Instant::now() - Duration::from_millis(40));
    let end = frame_end(&mut frames, true, 20);
    let slow = end.slow.unwrap();
    assert_eq!(slow.frame, 1);
    assert!(slow.elapsed >= 40 * MS);
    assert_eq!(frames.metrics.samples, vec![slow.elapsed]);
    assert_eq!(frames.metrics.max, slow.elapsed);
    assert_eq!(frames.metrics.over_threshold, 1);
}

#[test]
fn slow_frames_exceed_the_threshold() {
    let mut frames = Frames::new();
    next_frame(&mut frames, true);
    assert!(frame_end_after(&mut frames, true, Some(16 * MS), 16).slow.is_none());
    assert_eq!(frames.metrics.over_16ms, 0);
    assert_eq!(frames.metrics.over_threshold, 0);
    assert!(frame_end_after(&mut frames, true, Some(16 * MS + 1), 16).slow.is_some());
    assert_eq!(frames.metrics.over_16ms, 1);
    assert_eq!(frames.metrics.over_threshold, 1);
    assert!(frame_end_after(&mut frames, true, Some(32 * MS), 100).slow.is_none());
    assert_eq!(frames.metrics.over_16ms, 2);
    assert_eq!(frames.metrics.over_32ms, 0);
    assert!(frame_end_after(&mut frames, true, Some(32 * MS + 1), 100).slow.is_none());
    assert_eq!(frames.metrics.over_16ms, 3);
    assert_eq!(frames.metrics.over_32ms, 1);
    assert_eq!(frames.metrics.over_threshold, 1);
    assert_eq!(frames.metrics.max, 32 * MS + 1);
}

#[test]
fn summary_after_three_hundred_frames() {
    let mut frames = Frames::new();
    for n in 1..=300u64 {
        next_frame(&mut frames, true);
        // 1 ms, 300 ms, 2 ms, 299 ms, ...
        let ms = if n % 2 == 1 { (n + 1) / 2 } else { 301 - n / 2 };
        let end = frame_end_after(&mut frames, true, Some(ms as u128 * MS), 250);
        assert_eq!(end.summary.is_some(), n == 300);
        if let Some(summary) = end.summary {
            assert_eq!(summary.frame, 300);
            assert_eq!(summary.samples, 300);
            assert_eq!(summary.p50, 151 * MS);
            assert_eq!(summary.p95, 285 * MS);
            assert_eq!(summary.p99, 297 * MS);
            assert_eq!(summary.max, 300 * MS);
            assert_eq!(summary.over_16ms, 284);
            assert_eq!(summary.over_32ms, 268);
            assert_eq!(summary.threshold_ms, 250);
            assert_eq!(summary.over_threshold, 50);
        }
    }
    assert!(frames.metrics.samples.is_empty());
    assert_eq!(frames.metrics.max, 0);
    assert_eq!(frames.metrics.over_16ms, 0);
    assert_eq!(frames.frame, 300);
}

#[test]
fn frame_zero_gives_no_summary() {
    let mut metrics = FrameMetrics::new();
    assert!(record_frame_metrics(&mut metrics, 0, 5, 1).is_none());
    assert_eq!(metrics.samples, vec![5]);
    metrics.reset();
    assert!(metrics.samples.is_empty());
}

#[test]
fn text_of_a_summary() {
    let summary = FrameSummary {
        frame: 300,
        samples: 299,
        p50: 0,
        p95: 0,
        p99: 0,
        max: 0,
        over_16ms: 20,
        over_32ms: 5,
        threshold_ms: 50,
        over_threshold: 0,
    };
    assert_eq!(
        summary.step("1.5", "16.0", "33.2", "40.0"),
        "frame summary through frame 300: samples=299, p50=1.5ms, p95=16.0ms, p99=33.2ms, \
         max=40.0ms, >=16ms=20, >=32ms=5, >=threshold(50ms)=0"
    );
}

#[test]
fn text_of_a_slow_frame() {
    let slow = SlowFrame { frame: u64::MAX, elapsed: 0 };
    assert_eq!(slow.step("120"), "UI frame 18446744073709551615 took 120ms (SLOW)");
}

#[test]
fn slow_operations() {
    let scope = SlowScope::new("git status cache update", 50);
    assert_eq!(scope.label, "git status cache update");
    assert_eq!(scope.threshold, 50 * MS);
    assert!(scope.finish_after(true, 7, 50 * MS).is_none());
    assert!(scope.finish_after(false, 7, 60 * MS).is_none());
    let slow = scope.finish_after(true, 7, 50 * MS + 1).unwrap();
    assert_eq!(slow.elapsed, 50 * MS + 1);
    assert_eq!(slow.step("50"), "slow git status cache update 50ms (frame 7)");
}

#[test]
fn slow_operations_are_measured_by_the_clock() {
    let scope = SlowScope::new_at("x", 50, Instant::now() - Duration::from_millis(60));
    assert!(scope.finish(true, 1).unwrap().elapsed >= 60 * MS);
    assert!(SlowScope::new("y", 3_600_000).finish(true, 1).is_none());
    assert!(SlowScope::new("z", 0).finish_after(true, 1, 0).is_none());
    let past = Instant::now() - Duration::from_millis(1);
    assert!(SlowScope::new_at("z", 0, past).finish(true, 1).is_some());
    assert!(SlowScope::new_at("z", 0, past).finish(false, 1).is_none());
    // A start that is still to come is no time ago.
    let future = Instant::now() + Duration::from_secs(3600);
    assert!(SlowScope::new_at("z", 0, future).finish(true, 1).is_none());
}

#[test]
fn one_shot_events() {
    let mut seen = SeenEvents::new();
    assert!(event_once(&mut seen, false, "font", "loaded").is_none());
    assert!(!seen.contains("font"));
    assert_eq!(event_once(&mut seen, true, "font", "loaded").unwrap(), "font: loaded");
    assert!(event_once(&mut seen, true, "font", "again").is_none());
    assert_eq!(event_once(&mut seen, true, "icon", "").unwrap(), "icon: ");
    assert!(seen.contains("font") && seen.contains("icon"));
}

#[test]
fn repeatable_events() {
    let mut times = EventTimes::new();
    assert!(event(&mut times, false, "k", "m").is_none());
    assert!(times.get("k").is_none());
    assert_eq!(event(&mut times, true, "k", "m").unwrap(), "k: m");
    assert!(times.get("k").is_some());
    // The next one comes too soon, unless it has another key.
    assert!(event(&mut times, true, "k", "again").is_none());
    assert_eq!(event(&mut times, true, "other", "m").unwrap(), "other: m");
    // After a second it is written again.
    let past = Instant::now() - Duration::from_secs(2);
    times.insert("k", past);
    assert_eq!(event(&mut times, true, "k", "later").unwrap(), "k: later");
    assert!(times.get("k").unwrap() > past);
}

#[test]
fn rapid_events_are_left_out() {
    let mut times = EventTimes::new();
    let start = Instant::now();
    let mut written = Vec::new();
    for step in 0..=30u64 {
        let at = start + Duration::from_millis(step * 100);
        if event_at(&mut times, true, "scroll", "x", at).is_some() {
            written.push(step);
        }
        assert_eq!(times.get("scroll"), Some(start + Duration::from_secs(step / 10)));
    }
    assert_eq!(written, vec![0, 10, 20, 30]);
    // A disabled event does not count as written.
    assert!(event_at(&mut times, false, "zoom", "x", start).is_none());
    assert_eq!(event_at(&mut times, true, "zoom", "x", start).unwrap(), "zoom: x");
}

#[test]
fn events_wait_for_the_interval() {
    assert_eq!(EVENT_INTERVAL_NANOS, 1000 * MS);
    assert_eq!(event_after(true, None, "k", "m").unwrap(), "k: m");
    assert!(event_after(true, Some(1000 * MS - 1), "k", "m").is_none());
    assert_eq!(event_after(true, Some(1000 * MS), "k", "m").unwrap(), "k: m");
    assert!(event_after(false, None, "k", "m").is_none());
}

#[test]
fn one_shot_events_are_not_rate_limited() {
    let mut seen = SeenEvents::new();
    let mut times = EventTimes::new();
    assert!(event(&mut times, true, "k", "m").is_some());
    assert_eq!(event_once(&mut seen, true, "k", "m").unwrap(), "k: m");
}
