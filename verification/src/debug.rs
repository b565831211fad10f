//! Bookkeeping behind the structured diagnostics log (error codes E001-E010)
//! and the periodic health report.  Times are microsecond readings of a
//! monotonic clock, taken by the caller; the caller prints what these
//! functions return.
use vstd::prelude::*;
use crate::timing::{TimingStats, timing_empty};

verus! {

/// Microseconds in one second.
pub const MICROS_PER_SEC: u64 = 1_000_000;

/// Seconds between two health reports.
pub const HEALTH_REPORT_PERIOD_SECS: u64 = 60;

/// Free heap, in bytes, below which the health report raises E005.
pub const HEAP_LOW_BYTES: usize = 50 * 1024;

/// Every how many saturation events a warning (E010) is printed.
pub const SATURATION_WARN_EVERY: u32 = 10;

/// Running totals of each kind of error since boot.
pub struct ErrorCounts {
    pub i2c_errors: u32,
    pub sensor_failures: u32,
    pub saturations: u32,
    pub inference_nans: u32,
    pub feature_nans: u32,
}

/// All counters at zero.
pub open spec fn error_counts_zero() -> ErrorCounts {
    ErrorCounts { i2c_errors: 0, sensor_failures: 0, saturations: 0, inference_nans: 0, feature_nans: 0 }
}

impl Default for ErrorCounts {
    fn default() -> (e: ErrorCounts)
        ensures
            e == error_counts_zero(),
    {
        ErrorCounts { i2c_errors: 0, sensor_failures: 0, saturations: 0, inference_nans: 0, feature_nans: 0 }
    }
}

/// An anomaly episode that has begun and not yet ended.
pub struct AnomalySession {
    pub start_time_us: u64,
}

/// A change of the anomaly state between two consecutive windows.
pub enum StateChange {
    AnomalyStarted,
    NormalReturned,
}

/// What the periodic health report prints, apart from the reconstruction
/// error statistics.
pub struct HealthReport {
    pub uptime_secs: u64,
    pub window_count: u64,
    pub windows_since_last: u64,
    pub heap_free_kb: usize,
    /// Average, minimum and maximum window time, if any window was timed.
    pub timing: Option<(u64, u64, u64)>,
    pub anomaly_sessions: u64,
    /// Reconstruction errors recorded in the period (windows above threshold).
    pub mse_count: u64,
    /// Average anomaly session duration, if any session started.
    pub avg_anomaly_us: Option<u64>,
    pub i2c_errors: u32,
    pub sensor_failures: u32,
    pub saturations: u32,
    pub nan_errors: u32,
    /// The free heap is below `HEAP_LOW_BYTES` (E005).
    pub heap_low: bool,
}

/// Time from `start_us` to `now_us`; a clock reading earlier than the start
/// counts as no time at all.
pub open spec fn elapsed_us(start_us: u64, now_us: u64) -> u64 {
    if now_us >= start_us { (now_us - start_us) as u64 } else { 0 }
}

/// Elapsed time between two clock readings, never negative.
pub fn elapsed_between(start_us: u64, now_us: u64) -> (d: u64)
    ensures
        d == elapsed_us(start_us, now_us),
{
    now_us.saturating_sub(start_us)
}

/// State of the diagnostics log.
pub struct DiagnosticLogger {
    pub boot_time_us: u64,
    pub window_count: u64,
    pub error_counts: ErrorCounts,
    pub last_health_report_us: u64,
    pub last_report_windows: u64,
    pub timing: TimingStats,
    pub window_timer: Option<u64>,
    pub current_anomaly: Option<AnomalySession>,
    pub anomaly_sessions: u64,
    pub total_anomaly_time_us: u64,
    pub mse_count: u64,
}

impl DiagnosticLogger {
    /// The window count at the last report never exceeds the window count.
    pub open spec fn wf(&self) -> bool {
        self.last_report_windows <= self.window_count
    }

    /// The health report that the state `self` gives at clock reading `now_us`
    /// with `heap_free` bytes of free heap.
    pub open spec fn spec_health_report(&self, heap_free: usize, now_us: u64) -> HealthReport {
        HealthReport {
            uptime_secs: elapsed_us(self.boot_time_us, now_us) / MICROS_PER_SEC,
            window_count: self.window_count,
            windows_since_last: (self.window_count - self.last_report_windows) as u64,
            heap_free_kb: heap_free / 1024,
            timing: if self.timing.count > 0 {
                Some((self.timing.spec_avg(), self.timing.min_us, self.timing.max_us))
            } else {
                None
            },
            anomaly_sessions: self.anomaly_sessions,
            mse_count: self.mse_count,
            avg_anomaly_us: if self.anomaly_sessions > 0 {
                Some(self.total_anomaly_time_us / self.anomaly_sessions)
            } else {
                None
            },
            i2c_errors: self.error_counts.i2c_errors,
            sensor_failures: self.error_counts.sensor_failures,
            saturations: self.error_counts.saturations,
            nan_errors: (self.error_counts.inference_nans + self.error_counts.feature_nans) as u32,
            heap_low: heap_free < HEAP_LOW_BYTES,
        }
    }

    /// The state once a health report was made at `now_us`.
    pub open spec fn spec_after_report(self, now_us: u64) -> DiagnosticLogger {
        DiagnosticLogger {
            timing: timing_empty(),
            anomaly_sessions: 0,
            total_anomaly_time_us: 0,
            mse_count: 0,
            last_report_windows: self.window_count,
            last_health_report_us: now_us,
            ..self
        }
    }

    /// A fresh log at boot time `now_us`.
    pub fn new(now_us: u64) -> (l: DiagnosticLogger)
        ensures
            l.wf(),
            l == fresh_logger(now_us),
            l.boot_time_us == now_us,
            l.window_count == 0,
            l.error_counts == error_counts_zero(),
            l.last_health_report_us == now_us,
            l.last_report_windows == 0,
            l.timing == timing_empty(),
            l.window_timer is None,
            l.current_anomaly is None,
            l.anomaly_sessions == 0,
            l.total_anomaly_time_us == 0,
            l.mse_count == 0,
    {
        DiagnosticLogger {
            boot_time_us: now_us,
            window_count: 0,
            error_counts: ErrorCounts::default(),
            last_health_report_us: now_us,
            last_report_windows: 0,
            timing: TimingStats::new(),
            window_timer: None,
            current_anomaly: None,
            anomaly_sessions: 0,
            total_anomaly_time_us: 0,
            mse_count: 0,
        }
    }

    /// Counts one recorded reconstruction error (a window above the
    /// anomaly threshold) in the current report period.
    pub fn record_mse(&mut self)
        requires
            old(self).mse_count < u64::MAX,
        ensures
            *final(self) == (DiagnosticLogger { mse_count: (old(self).mse_count + 1) as u64, ..*old(self) }),
    {
        self.mse_count += 1;
    }
}


impl DiagnosticLogger {
    /// Notes the clock reading at which processing of a window began.
    pub fn start_window_timer(&mut self, now_us: u64)
        ensures
            *final(self) == (DiagnosticLogger { window_timer: Some(now_us), ..*old(self) }),
    {
        self.window_timer = Some(now_us);
    }

    /// The timing statistics can take the window time that ends at `now_us`.
    pub open spec fn can_end_window_timer(&self, now_us: u64) -> bool {
        self.window_timer matches Some(start) ==> self.timing.can_push(elapsed_us(start, now_us))
    }

    /// Ends a running window timer at `now_us` and adds the elapsed time to
    /// the timing statistics; without a running timer nothing changes.
    pub fn end_window_timer(&mut self, now_us: u64)
        requires
            old(self).can_end_window_timer(now_us),
        ensures
            match old(self).window_timer {
                Some(start) => *final(self) == (DiagnosticLogger {
                    timing: old(self).timing.pushed(elapsed_us(start, now_us)),
                    window_timer: None,
                    ..*old(self)
                }),
                None => *final(self) == *old(self),
            },
    {
        if let Some(start) = self.window_timer {
            let elapsed = elapsed_between(start, now_us);
            self.timing.push(elapsed);
            self.window_timer = None;
        }
    }

    /// The state after an anomaly begins at `now_us`: a session opens and is
    /// counted, unless one is already open.
    pub open spec fn spec_anomaly_start(self, now_us: u64) -> DiagnosticLogger {
        match self.current_anomaly {
            None => DiagnosticLogger {
                current_anomaly: Some(AnomalySession { start_time_us: now_us }),
                anomaly_sessions: (self.anomaly_sessions + 1) as u64,
                ..self
            },
            Some(_) => self,
        }
    }

    /// The state after an anomaly ends at `now_us`: the open session closes
    /// and its duration is added to the total, if a session is open.
    pub open spec fn spec_anomaly_end(self, now_us: u64) -> DiagnosticLogger {
        match self.current_anomaly {
            Some(session) => DiagnosticLogger {
                current_anomaly: None,
                total_anomaly_time_us: (self.total_anomaly_time_us + elapsed_us(
                    session.start_time_us,
                    now_us,
                )) as u64,
                ..self
            },
            None => self,
        }
    }

    /// Opens an anomaly session at `now_us` unless one is already open.
    pub fn on_anomaly_start(&mut self, now_us: u64)
        requires
            old(self).current_anomaly is None ==> old(self).anomaly_sessions < u64::MAX,
        ensures
            *final(self) == old(self).spec_anomaly_start(now_us),
    {
        if self.current_anomaly.is_none() {
            self.current_anomaly = Some(AnomalySession { start_time_us: now_us });
            self.anomaly_sessions += 1;
        }
    }

    /// Closes the open anomaly session at `now_us`, adding its duration to
    /// the total anomaly time; without an open session nothing changes.
    pub fn on_anomaly_end(&mut self, now_us: u64)
        requires
            old(self).current_anomaly matches Some(session) ==> old(self).total_anomaly_time_us
                + elapsed_us(session.start_time_us, now_us) <= u64::MAX,
        ensures
            *final(self) == old(self).spec_anomaly_end(now_us),
    {
        if let Some(session) = self.current_anomaly.take() {
            let duration = elapsed_between(session.start_time_us, now_us);
            self.total_anomaly_time_us += duration;
        }
    }

    /// Counts one processed window and tells whether its anomaly state
    /// differs from the previous window's, and how.
    pub fn log_window_result(&mut self, is_anomaly: bool, was_anomaly: bool) -> (change: Option<StateChange>)
        requires
            old(self).window_count < u64::MAX,
        ensures
            *final(self) == (DiagnosticLogger { window_count: (old(self).window_count + 1) as u64, ..*old(self) }),
            change == (if is_anomaly == was_anomaly {
                None
            } else if is_anomaly {
                Some(StateChange::AnomalyStarted)
            } else {
                Some(StateChange::NormalReturned)
            }),
    {
        self.window_count += 1;
        if is_anomaly != was_anomaly {
            if is_anomaly {
                Some(StateChange::AnomalyStarted)
            } else {
                Some(StateChange::NormalReturned)
            }
        } else {
            None
        }
    }

    /// Counts one I2C timeout (E001) and returns the total so far.
    pub fn log_i2c_error(&mut self) -> (total: u32)
        requires
            old(self).error_counts.i2c_errors < u32::MAX,
        ensures
            total == old(self).error_counts.i2c_errors + 1,
            *final(self) == (DiagnosticLogger {
                error_counts: ErrorCounts { i2c_errors: total, ..old(self).error_counts },
                ..*old(self)
            }),
    {
        self.error_counts.i2c_errors += 1;
        self.error_counts.i2c_errors
    }

    /// The state after one more frozen-sensor window.
    pub open spec fn spec_sensor_frozen(self) -> DiagnosticLogger {
        DiagnosticLogger {
            error_counts: ErrorCounts {
                sensor_failures: (self.error_counts.sensor_failures + 1) as u32,
                ..self.error_counts
            },
            ..self
        }
    }

    /// Counts one frozen-sensor window (E003) and returns the total so far.
    pub fn log_sensor_frozen(&mut self) -> (total: u32)
        requires
            old(self).error_counts.sensor_failures < u32::MAX,
        ensures
            total == old(self).error_counts.sensor_failures + 1,
            *final(self) == old(self).spec_sensor_frozen(),
            *final(self) == (DiagnosticLogger {
                error_counts: ErrorCounts { sensor_failures: total, ..old(self).error_counts },
                ..*old(self)
            }),
    {
        self.error_counts.sensor_failures += 1;
        self.error_counts.sensor_failures
    }

    /// Counts one saturated sample (E010); returns whether this one is to be
    /// reported, which is the first and then every tenth.
    pub fn log_saturation(&mut self) -> (warn: bool)
        requires
            old(self).error_counts.saturations < u32::MAX,
        ensures
            *final(self) == (DiagnosticLogger {
                error_counts: ErrorCounts {
                    saturations: (old(self).error_counts.saturations + 1) as u32,
                    ..old(self).error_counts
                },
                ..*old(self)
            }),
            warn == ((old(self).error_counts.saturations + 1) % (SATURATION_WARN_EVERY as int) == 1),
    {
        self.error_counts.saturations += 1;
        self.error_counts.saturations % SATURATION_WARN_EVERY == 1
    }

    /// Counts one non-finite feature (E007) and returns the total so far.
    pub fn log_feature_nan(&mut self) -> (total: u32)
        requires
            old(self).error_counts.feature_nans < u32::MAX,
        ensures
            total == old(self).error_counts.feature_nans + 1,
            *final(self) == (DiagnosticLogger {
                error_counts: ErrorCounts { feature_nans: total, ..old(self).error_counts },
                ..*old(self)
            }),
    {
        self.error_counts.feature_nans += 1;
        self.error_counts.feature_nans
    }

    /// Counts one non-finite reconstruction error (E008) and returns the
    /// total so far.
    pub fn log_inference_nan(&mut self) -> (total: u32)
        requires
            old(self).error_counts.inference_nans < u32::MAX,
        ensures
            total == old(self).error_counts.inference_nans + 1,
            *final(self) == (DiagnosticLogger {
                error_counts: ErrorCounts { inference_nans: total, ..old(self).error_counts },
                ..*old(self)
            }),
    {
        self.error_counts.inference_nans += 1;
        self.error_counts.inference_nans
    }

    /// Builds the health report at `now_us` and starts a new reporting
    /// period: timing statistics, the recorded-error count and anomaly-session
    /// figures are cleared,
    /// and the window count and clock reading are remembered.
    pub fn log_health_report(&mut self, heap_free: usize, now_us: u64) -> (report: HealthReport)
        requires
            old(self).wf(),
            old(self).error_counts.inference_nans + old(self).error_counts.feature_nans <= u32::MAX,
        ensures
            final(self).wf(),
            report == old(self).spec_health_report(heap_free, now_us),
            *final(self) == old(self).spec_after_report(now_us),
            report.uptime_secs == elapsed_us(old(self).boot_time_us, now_us) / MICROS_PER_SEC,
            report.window_count == old(self).window_count,
            report.windows_since_last == old(self).window_count - old(self).last_report_windows,
            report.heap_free_kb == heap_free / 1024,
            old(self).timing.count > 0 ==> report.timing == Some(
                (
                    (old(self).timing.total_us / old(self).timing.count) as u64,
                    old(self).timing.min_us,
                    old(self).timing.max_us,
                ),
            ),
            old(self).timing.count == 0 ==> report.timing is None,
            report.anomaly_sessions == old(self).anomaly_sessions,
            report.mse_count == old(self).mse_count,
            old(self).anomaly_sessions > 0 ==> report.avg_anomaly_us == Some(
                (old(self).total_anomaly_time_us / old(self).anomaly_sessions) as u64,
            ),
            old(self).anomaly_sessions == 0 ==> report.avg_anomaly_us is None,
            report.i2c_errors == old(self).error_counts.i2c_errors,
            report.sensor_failures == old(self).error_counts.sensor_failures,
            report.saturations == old(self).error_counts.saturations,
            report.nan_errors == old(self).error_counts.inference_nans + old(self).error_counts.feature_nans,
            report.heap_low == (heap_free < 50 * 1024),
            final(self).timing.count == 0,
            final(self).timing.total_us == 0,
            final(self).anomaly_sessions == 0,
            final(self).total_anomaly_time_us == 0,
            final(self).mse_count == 0,
            final(self).last_report_windows == old(self).window_count,
            final(self).last_health_report_us == now_us,
            final(self).window_count == old(self).window_count,
            final(self).error_counts == old(self).error_counts,
            final(self).boot_time_us == old(self).boot_time_us,
            final(self).current_anomaly == old(self).current_anomaly,
            final(self).window_timer == old(self).window_timer,
    {
        let uptime_secs = elapsed_between(self.boot_time_us, now_us) / MICROS_PER_SEC;
        let windows_since_last = self.window_count - self.last_report_windows;
        let timing = if self.timing.count > 0 {
            Some((self.timing.avg_us(), self.timing.min_us, self.timing.max_us))
        } else {
            None
        };
        let avg_anomaly_us = if self.anomaly_sessions > 0 {
            Some(self.total_anomaly_time_us / self.anomaly_sessions)
        } else {
            None
        };
        let report = HealthReport {
            uptime_secs,
            window_count: self.window_count,
            windows_since_last,
            heap_free_kb: heap_free / 1024,
            timing,
            anomaly_sessions: self.anomaly_sessions,
            mse_count: self.mse_count,
            avg_anomaly_us,
            i2c_errors: self.error_counts.i2c_errors,
            sensor_failures: self.error_counts.sensor_failures,
            saturations: self.error_counts.saturations,
            nan_errors: self.error_counts.inference_nans + self.error_counts.feature_nans,
            heap_low: heap_free < HEAP_LOW_BYTES,
        };
        self.timing.reset();
        self.anomaly_sessions = 0;
        self.total_anomaly_time_us = 0;
        self.mse_count = 0;
        self.last_report_windows = self.window_count;
        self.last_health_report_us = now_us;
        report
    }

    /// At least a full report period has passed since the last report.
    pub open spec fn should_report_at(&self, now_us: u64) -> bool {
        elapsed_us(self.last_health_report_us, now_us) / MICROS_PER_SEC >= HEALTH_REPORT_PERIOD_SECS
    }

    /// A health report is due: at least a full period has passed since the
    /// last one.
    pub fn should_health_report(&self, now_us: u64) -> (due: bool)
        ensures
            due == self.should_report_at(now_us),
            due == (now_us >= self.last_health_report_us && now_us - self.last_health_report_us >= 60_000_000),
    {
        elapsed_between(self.last_health_report_us, now_us) / MICROS_PER_SEC >= HEALTH_REPORT_PERIOD_SECS
    }

    /// Whole seconds since boot.
    pub fn uptime_secs(&self, now_us: u64) -> (secs: u64)
        ensures
            secs == elapsed_us(self.boot_time_us, now_us) / MICROS_PER_SEC,
    {
        elapsed_between(self.boot_time_us, now_us) / MICROS_PER_SEC
    }
}

/// Number of warnings printed over the first `n` saturation events.
pub open spec fn saturation_warnings(n: nat) -> nat
    decreases n,
{
    if n == 0 {
        0
    } else {
        saturation_warnings((n - 1) as nat) + if n % (SATURATION_WARN_EVERY as nat) == 1 { 1nat } else { 0nat }
    }
}

/// Of the first `n` saturation events, one in ten is reported, starting
/// with the first: `ceil(n / 10)` warnings.
pub proof fn lemma_saturation_warnings(n: nat)
    ensures
        saturation_warnings(n) == (n + 9) / 10,
    decreases n,
{
    if n > 0 {
        lemma_saturation_warnings((n - 1) as nat);
        let m = (n - 1) as int;
        assert(((m + 9) / 10 + if (m + 1) % 10 == 1 { 1int } else { 0int }) == (m + 10) / 10) by (nonlinear_arith)
            requires m >= 0;
    }
}

/// An anomaly that is reported as starting again while its session is open
/// does not open a second session: the state after two starts is the state
/// after the first.
pub proof fn lemma_anomaly_start_idempotent(l: DiagnosticLogger, t1: u64, t2: u64)
    ensures
        l.spec_anomaly_start(t1).spec_anomaly_start(t2) == l.spec_anomaly_start(t1),
{
}

/// A session that starts at `t1` and ends at `t2` (no session being open
/// before) is counted once and adds exactly `t2 - t1` (or nothing when the
/// clock went backwards) to the total anomaly time; ending again, or ending
/// when no session is open, changes nothing.
pub proof fn lemma_anomaly_session_accounting(l: DiagnosticLogger, t1: u64, t2: u64, t3: u64)
    requires
        l.current_anomaly is None,
        l.anomaly_sessions < u64::MAX,
        l.total_anomaly_time_us + elapsed_us(t1, t2) <= u64::MAX,
    ensures
        l.spec_anomaly_start(t1).spec_anomaly_end(t2).anomaly_sessions == l.anomaly_sessions + 1,
        l.spec_anomaly_start(t1).spec_anomaly_end(t2).total_anomaly_time_us == l.total_anomaly_time_us
            + elapsed_us(t1, t2),
        l.spec_anomaly_start(t1).spec_anomaly_end(t2).current_anomaly is None,
        l.spec_anomaly_start(t1).spec_anomaly_end(t2).spec_anomaly_end(t3) == l.spec_anomaly_start(
            t1,
        ).spec_anomaly_end(t2),
        l.spec_anomaly_end(t2) == l,
{
}

/// A health report starts a new period: a report made right after it
/// counts no windows, no timed windows, no recorded reconstruction errors
/// and no anomaly sessions, while the
/// window count and every error count since boot carry over unchanged, the
/// uptime still counts from boot, and no further report is due at once.
pub proof fn lemma_report_starts_new_period(l: DiagnosticLogger, heap1: usize, t1: u64, heap2: usize, t2: u64)
    requires
        l.wf(),
        l.error_counts.inference_nans + l.error_counts.feature_nans <= u32::MAX,
    ensures
        l.spec_after_report(t1).wf(),
        l.spec_after_report(t1).spec_health_report(heap2, t2).windows_since_last == 0,
        l.spec_after_report(t1).spec_health_report(heap2, t2).timing is None,
        l.spec_after_report(t1).spec_health_report(heap2, t2).anomaly_sessions == 0,
        l.spec_after_report(t1).spec_health_report(heap2, t2).mse_count == 0,
        l.spec_after_report(t1).spec_health_report(heap2, t2).avg_anomaly_us is None,
        l.spec_after_report(t1).spec_health_report(heap2, t2).window_count == l.window_count,
        l.spec_after_report(t1).spec_health_report(heap2, t2).i2c_errors == l.spec_health_report(
            heap1,
            t1,
        ).i2c_errors,
        l.spec_after_report(t1).spec_health_report(heap2, t2).sensor_failures == l.spec_health_report(
            heap1,
            t1,
        ).sensor_failures,
        l.spec_after_report(t1).spec_health_report(heap2, t2).saturations == l.spec_health_report(
            heap1,
            t1,
        ).saturations,
        l.spec_after_report(t1).spec_health_report(heap2, t2).nan_errors == l.spec_health_report(
            heap1,
            t1,
        ).nan_errors,
        l.spec_after_report(t1).spec_health_report(heap2, t2).uptime_secs == elapsed_us(l.boot_time_us, t2)
            / MICROS_PER_SEC,
        !l.spec_after_report(t1).should_report_at(t1),
{
}

/// The state after the anomaly sessions `s` (each a start and an end
/// clock reading), one after the other.
pub open spec fn with_sessions(l: DiagnosticLogger, s: Seq<(u64, u64)>) -> DiagnosticLogger
    decreases s.len(),
{
    if s.len() == 0 {
        l
    } else {
        with_sessions(l, s.drop_last()).spec_anomaly_start(s.last().0).spec_anomaly_end(s.last().1)
    }
}

/// Total duration of the sessions `s`.
pub open spec fn sessions_duration(s: Seq<(u64, u64)>) -> int
    decreases s.len(),
{
    if s.len() == 0 {
        0
    } else {
        sessions_duration(s.drop_last()) + elapsed_us(s.last().0, s.last().1)
    }
}

/// In a period that starts with no anomaly time and no open session,
/// closed anomaly sessions are each counted once, their durations add up,
/// and the next report gives their average duration: the total divided by
/// the number of sessions (none when there was no session).
pub proof fn lemma_anomaly_average(l: DiagnosticLogger, s: Seq<(u64, u64)>, heap_free: usize, now_us: u64)
    requires
        l.current_anomaly is None,
        l.anomaly_sessions == 0,
        l.total_anomaly_time_us == 0,
        s.len() < u64::MAX,
        sessions_duration(s) <= u64::MAX,
    ensures
        with_sessions(l, s).anomaly_sessions == s.len(),
        with_sessions(l, s).total_anomaly_time_us == sessions_duration(s),
        with_sessions(l, s).current_anomaly is None,
        s.len() > 0 ==> with_sessions(l, s).spec_health_report(heap_free, now_us).avg_anomaly_us == Some(
            (sessions_duration(s) / (s.len() as int)) as u64,
        ),
        s.len() == 0 ==> with_sessions(l, s).spec_health_report(heap_free, now_us).avg_anomaly_us is None,
    decreases s.len(),
{
    if s.len() > 0 {
        let p = s.drop_last();
        lemma_sessions_duration_monotone(s);
        lemma_anomaly_average(l, p, heap_free, now_us);
    }
}

/// Session durations only add up.
proof fn lemma_sessions_duration_monotone(s: Seq<(u64, u64)>)
    requires
        s.len() > 0,
    ensures
        0 <= sessions_duration(s.drop_last()) <= sessions_duration(s),
    decreases s.len(),
{
    if s.len() > 1 {
        lemma_sessions_duration_monotone(s.drop_last());
    }
}

/// Anomaly time does not carry over from one report period to the next:
/// after a report (with no session open), a single session from `t2` to
/// `t3` makes the next report's average session duration exactly that
/// session's length.
pub proof fn lemma_anomaly_time_resets(l: DiagnosticLogger, t1: u64, t2: u64, t3: u64, heap_free: usize, t4: u64)
    requires
        l.current_anomaly is None,
    ensures
        l.spec_after_report(t1).total_anomaly_time_us == 0,
        l.spec_after_report(t1).anomaly_sessions == 0,
        l.spec_after_report(t1).spec_anomaly_start(t2).spec_anomaly_end(t3).spec_health_report(
            heap_free,
            t4,
        ).avg_anomaly_us == Some(elapsed_us(t2, t3)),
{
}

/// A report is due exactly when at least 60 s (60 000 000 us) have passed
/// since the last one, and once due it stays due for every later clock
/// reading.
pub proof fn lemma_report_due(l: DiagnosticLogger, now1: u64, now2: u64)
    ensures
        l.should_report_at(now1) <==> (now1 >= l.last_health_report_us && now1 - l.last_health_report_us
            >= 60_000_000),
        l.should_report_at(now1) && now1 <= now2 ==> l.should_report_at(now2),
{
}

/// The report carries each error total under its own name: whatever was
/// logged, the sensor-failure, saturation, I2C and NaN totals of the report
/// are the logger's own counts; `k` frozen-sensor logs from a fresh logger
/// report `k` sensor failures and no saturations.
pub proof fn lemma_report_error_totals(l: DiagnosticLogger, heap_free: usize, now_us: u64, t0: u64, k: u32)
    requires
        l.error_counts.inference_nans + l.error_counts.feature_nans <= u32::MAX,
    ensures
        l.spec_health_report(heap_free, now_us).sensor_failures == l.error_counts.sensor_failures,
        l.spec_health_report(heap_free, now_us).saturations == l.error_counts.saturations,
        l.spec_health_report(heap_free, now_us).i2c_errors == l.error_counts.i2c_errors,
        l.spec_health_report(heap_free, now_us).nan_errors == l.error_counts.inference_nans
            + l.error_counts.feature_nans,
        frozen_logs(fresh_logger(t0), k as nat).spec_health_report(heap_free, now_us).sensor_failures == k,
        frozen_logs(fresh_logger(t0), k as nat).spec_health_report(heap_free, now_us).saturations == 0,
    decreases k,
{
    lemma_frozen_logs(t0, k as nat);
}

/// The state of a fresh logger at `t0`.
pub open spec fn fresh_logger(t0: u64) -> DiagnosticLogger {
    DiagnosticLogger {
        boot_time_us: t0,
        window_count: 0,
        error_counts: error_counts_zero(),
        last_health_report_us: t0,
        last_report_windows: 0,
        timing: timing_empty(),
        window_timer: None,
        current_anomaly: None,
        anomaly_sessions: 0,
        total_anomaly_time_us: 0,
        mse_count: 0,
    }
}

/// The state after `k` frozen-sensor logs.
pub open spec fn frozen_logs(l: DiagnosticLogger, k: nat) -> DiagnosticLogger
    decreases k,
{
    if k == 0 {
        l
    } else {
        frozen_logs(l, (k - 1) as nat).spec_sensor_frozen()
    }
}

/// Frozen-sensor logs count sensor failures and nothing else.
proof fn lemma_frozen_logs(t0: u64, k: nat)
    requires
        k <= u32::MAX,
    ensures
        frozen_logs(fresh_logger(t0), k).error_counts == (ErrorCounts { sensor_failures: k as u32, ..error_counts_zero() }),
    decreases k,
{
    if k > 0 {
        lemma_frozen_logs(t0, (k - 1) as nat);
    }
}

} // verus!
