use vibesentinel::config::{SAMPLE_INTERVAL_MS, WINDOW_SIZE};
use vibesentinel::dataset::{transpose, window_starts, Lcg, LCG_SEED};
use vibesentinel::firmware::{sample_delay_ms, should_feed_watchdog};

#[test]
fn no_windows_from_short_recordings() {
    assert!(window_starts(0).is_empty());
    assert!(window_starts(100).is_empty());
    assert!(window_starts(WINDOW_SIZE - 1).is_empty());
}

#[test]
fn exactly_one_window_fits() {
    assert_eq!(window_starts(WINDOW_SIZE), vec![0]);
}

#[test]
fn windows_step_by_half_a_window() {
    assert_eq!(window_starts(WINDOW_SIZE + 1), vec![0]);
    assert_eq!(window_starts(WINDOW_SIZE + 63), vec![0]);
    assert_eq!(window_starts(WINDOW_SIZE + 64), vec![0, 64]);
    assert_eq!(window_starts(256), vec![0, 64, 128]);
    assert_eq!(window_starts(512), vec![0, 64, 128, 192, 256, 320, 384]);
    for n in 0..1000usize {
        let starts = window_starts(n);
        for &s in &starts {
            assert!(s + WINDOW_SIZE <= n);
        }
        let next = starts.len() * (WINDOW_SIZE / 2);
        assert!(next + WINDOW_SIZE > n, "the window after the last one does not fit");
    }
}

#[test]
fn window_starts_cover_every_fitting_window() {
    for n in [0usize, 127, 128, 129, 200, 256, 1000, 120_000] {
        let expected: Vec<usize> = if n < WINDOW_SIZE {
            Vec::new()
        } else {
            (0..=n - WINDOW_SIZE).step_by(WINDOW_SIZE / 2).collect()
        };
        assert_eq!(window_starts(n), expected, "n = {}", n);
    }
}

#[test]
fn lcg_matches_wrapping_arithmetic() {
    let mut g = Lcg::new(LCG_SEED);
    let mut state = 12345u64;
    for _ in 0..100 {
        state = state.wrapping_mul(6364136223846793005).wrapping_add(1442695040888963407);
        assert_eq!(g.next_raw(), (state >> 33) as u32);
        assert_eq!(g.state, state);
    }
}

#[test]
fn lcg_first_output() {
    let mut g = Lcg::new(12345);
    let expected = 12345u64.wrapping_mul(6364136223846793005).wrapping_add(1442695040888963407);
    assert_eq!(g.next_raw(), (expected >> 33) as u32);
    assert!(g.next_raw() < (1u32 << 31));
}

#[test]
fn transpose_two_by_three() {
    let data = [1.0f32, 2.0, 3.0, 4.0, 5.0, 6.0];
    assert_eq!(transpose(&data, 2, 3, 0.0), vec![1.0, 4.0, 2.0, 5.0, 3.0, 6.0]);
}

#[test]
fn transpose_twice_is_identity() {
    let data: Vec<i32> = (0..20).collect();
    let once = transpose(&data, 4, 5, 0);
    assert_eq!(transpose(&once, 5, 4, 0), data);
}

#[test]
fn transpose_fills_the_tail() {
    let data = [1, 2, 3, 4, 5];
    assert_eq!(transpose(&data, 2, 2, 0), vec![1, 3, 2, 4, 0]);
    assert_eq!(transpose(&data, 0, 7, -1), vec![-1; 5]);
}

#[test]
fn sample_pacing() {
    assert_eq!(SAMPLE_INTERVAL_MS, 5);
    assert_eq!(sample_delay_ms(0), 5);
    assert_eq!(sample_delay_ms(3), 2);
    assert_eq!(sample_delay_ms(5), 0);
    assert_eq!(sample_delay_ms(50), 0);
}

#[test]
fn watchdog_fed_once_interval_passed() {
    assert!(!should_feed_watchdog(999, 1000));
    assert!(should_feed_watchdog(1000, 1000));
    assert!(should_feed_watchdog(5000, 1000));
}
