use vibesentinel::debug::{DiagnosticLogger, ErrorCounts, StateChange, elapsed_between};
use vibesentinel::timing::TimingStats;

#[test]
fn timing_stats_start_empty() {
    let t = TimingStats::new();
    assert_eq!((t.count, t.total_us, t.min_us, t.max_us), (0, 0, u64::MAX, 0));
    assert_eq!(t.avg_us(), 0);
}

#[test]
fn timing_stats_summarize_pushes() {
    let mut t = TimingStats::new();
    for v in [300u64, 100, 250, 150] {
        t.push(v);
    }
    assert_eq!(t.count, 4);
    assert_eq!(t.total_us, 800);
    assert_eq!(t.min_us, 100);
    assert_eq!(t.max_us, 300);
    assert_eq!(t.avg_us(), 200);
    assert!(t.min_us <= t.avg_us() && t.avg_us() <= t.max_us);
}

#[test]
fn timing_average_rounds_down() {
    let mut t = TimingStats::new();
    t.push(1);
    t.push(2);
    assert_eq!(t.avg_us(), 1);
}

#[test]
fn timing_reset_forgets_everything() {
    let mut t = TimingStats::new();
    t.push(42);
    t.reset();
    let e = TimingStats::new();
    assert_eq!((t.count, t.total_us, t.min_us, t.max_us), (e.count, e.total_us, e.min_us, e.max_us));
}

#[test]
fn error_counts_default_to_zero() {
    let e = ErrorCounts::default();
    assert_eq!((e.i2c_errors, e.sensor_failures, e.saturations, e.inference_nans, e.feature_nans), (0, 0, 0, 0, 0));
}

#[test]
fn elapsed_never_negative() {
    assert_eq!(elapsed_between(10, 25), 15);
    assert_eq!(elapsed_between(25, 10), 0);
}

#[test]
fn window_timer_records_elapsed_time() {
    let mut l = DiagnosticLogger::new(1_000);
    l.start_window_timer(5_000);
    assert_eq!(l.window_timer, Some(5_000));
    l.end_window_timer(5_750);
    assert_eq!(l.window_timer, None);
    assert_eq!(l.timing.count, 1);
    assert_eq!(l.timing.total_us, 750);
    l.end_window_timer(9_000);
    assert_eq!(l.timing.count, 1, "ending without a running timer changes nothing");
}

#[test]
fn anomaly_sessions_are_counted_once() {
    let mut l = DiagnosticLogger::new(0);
    l.on_anomaly_start(1_000_000);
    l.on_anomaly_start(2_000_000);
    assert_eq!(l.anomaly_sessions, 1);
    l.on_anomaly_end(4_000_000);
    assert_eq!(l.total_anomaly_time_us, 3_000_000);
    assert!(l.current_anomaly.is_none());
    l.on_anomaly_end(9_000_000);
    assert_eq!(l.total_anomaly_time_us, 3_000_000);
    l.on_anomaly_start(10_000_000);
    l.on_anomaly_end(10_500_000);
    assert_eq!(l.anomaly_sessions, 2);
    assert_eq!(l.total_anomaly_time_us, 3_500_000);
}

#[test]
fn window_results_report_state_changes_only() {
    let mut l = DiagnosticLogger::new(0);
    assert!(l.log_window_result(false, false).is_none());
    assert!(matches!(l.log_window_result(true, false), Some(StateChange::AnomalyStarted)));
    assert!(l.log_window_result(true, true).is_none());
    assert!(matches!(l.log_window_result(false, true), Some(StateChange::NormalReturned)));
    assert_eq!(l.window_count, 4);
}

#[test]
fn error_logs_count_each_kind() {
    let mut l = DiagnosticLogger::new(0);
    assert_eq!(l.log_i2c_error(), 1);
    assert_eq!(l.log_i2c_error(), 2);
    assert_eq!(l.log_sensor_frozen(), 1);
    assert_eq!(l.log_feature_nan(), 1);
    assert_eq!(l.log_inference_nan(), 1);
    assert_eq!(l.log_inference_nan(), 2);
    let e = &l.error_counts;
    assert_eq!((e.i2c_errors, e.sensor_failures, e.saturations, e.inference_nans, e.feature_nans), (2, 1, 0, 2, 1));
}

#[test]
fn saturation_warns_on_first_and_every_tenth() {
    let mut l = DiagnosticLogger::new(0);
    let warned: Vec<u32> = (1..=25u32).filter(|_| l.log_saturation()).collect();
    assert_eq!(warned.len(), 3);
    let mut l = DiagnosticLogger::new(0);
    let mut at = Vec::new();
    for k in 1..=25u32 {
        if l.log_saturation() {
            at.push(k);
        }
    }
    assert_eq!(at, vec![1, 11, 21]);
    assert_eq!(l.error_counts.saturations, 25);
}

#[test]
fn health_report_contents_and_new_period() {
    let mut l = DiagnosticLogger::new(0);
    for _ in 0..10 {
        l.log_window_result(false, false);
    }
    l.start_window_timer(1_000);
    l.end_window_timer(1_400);
    l.start_window_timer(2_000);
    l.end_window_timer(2_200);
    l.on_anomaly_start(3_000);
    l.on_anomaly_end(3_600);
    l.record_mse();
    l.record_mse();
    l.log_i2c_error();
    l.log_feature_nan();
    l.log_inference_nan();
    let r = l.log_health_report(40 * 1024, 61_500_000);
    assert_eq!(r.uptime_secs, 61);
    assert_eq!(r.window_count, 10);
    assert_eq!(r.windows_since_last, 10);
    assert_eq!(r.heap_free_kb, 40);
    assert_eq!(r.timing, Some((300, 200, 400)));
    assert_eq!(r.anomaly_sessions, 1);
    assert_eq!(r.mse_count, 2);
    assert_eq!(r.avg_anomaly_us, Some(600));
    assert_eq!((r.i2c_errors, r.sensor_failures, r.saturations, r.nan_errors), (1, 0, 0, 2));
    assert!(r.heap_low);

    l.log_window_result(false, false);
    let r2 = l.log_health_report(100 * 1024, 70_000_000);
    assert_eq!(r2.window_count, 11);
    assert_eq!(r2.windows_since_last, 1);
    assert_eq!(r2.timing, None);
    assert_eq!(r2.anomaly_sessions, 0);
    assert_eq!(r2.mse_count, 0);
    assert_eq!(r2.avg_anomaly_us, None);
    assert_eq!(r2.i2c_errors, 1);
    assert_eq!(r2.nan_errors, 2);
    assert!(!r2.heap_low);
}

#[test]
fn heap_low_threshold_is_fifty_kilobytes() {
    let mut l = DiagnosticLogger::new(0);
    assert!(!l.log_health_report(50 * 1024, 0).heap_low);
    assert!(l.log_health_report(50 * 1024 - 1, 0).heap_low);
}

#[test]
fn health_report_is_due_every_sixty_seconds() {
    let mut l = DiagnosticLogger::new(5_000_000);
    assert!(!l.should_health_report(64_999_999));
    assert!(l.should_health_report(65_000_000));
    l.log_health_report(100_000, 65_000_000);
    assert!(!l.should_health_report(65_000_001));
    assert!(l.should_health_report(125_000_000));
    assert!(!l.should_health_report(1_000), "a clock reading before the last report is no time");
}

#[test]
fn uptime_in_whole_seconds() {
    let l = DiagnosticLogger::new(2_000_000);
    assert_eq!(l.uptime_secs(2_999_999), 0);
    assert_eq!(l.uptime_secs(3_000_000), 1);
    assert_eq!(l.uptime_secs(1_000_000), 0);
}

#[test]
fn record_mse_counts_windows_above_threshold() {
    let mut l = DiagnosticLogger::new(0);
    assert_eq!(l.mse_count, 0);
    l.record_mse();
    l.record_mse();
    l.record_mse();
    assert_eq!(l.mse_count, 3);
    assert_eq!(l.log_health_report(100_000, 1).mse_count, 3);
    assert_eq!(l.mse_count, 0);
}
