use vibesentinel::config::WINDOW_SIZE;
use vibesentinel::window::SlidingWindow;

#[test]
fn new_window_is_filled_and_starts_at_slot_zero() {
    let w = SlidingWindow::new(0.0f32);
    assert_eq!(w.index, 0);
    assert!(w.buf_x.iter().all(|&v| v == 0.0));
    assert!(w.buf_y.iter().all(|&v| v == 0.0));
    assert!(w.buf_z.iter().all(|&v| v == 0.0));
}

#[test]
fn push_reports_full_every_window_size_samples() {
    let mut w = SlidingWindow::new(0i32);
    for k in 1..=(3 * WINDOW_SIZE) {
        let full = w.push(k as i32, -(k as i32), 2 * k as i32);
        assert_eq!(full, k % WINDOW_SIZE == 0, "push #{}", k);
        assert_eq!(w.index, k % WINDOW_SIZE);
    }
}

#[test]
fn full_window_holds_samples_in_order() {
    let mut w = SlidingWindow::new(0.0f32);
    let mut reported = false;
    for i in 0..WINDOW_SIZE {
        reported = w.push(i as f32, 10.0 + i as f32, -(i as f32));
    }
    assert!(reported);
    for i in 0..WINDOW_SIZE {
        assert_eq!(w.buf_x[i], i as f32);
        assert_eq!(w.buf_y[i], 10.0 + i as f32);
        assert_eq!(w.buf_z[i], -(i as f32));
    }
}

#[test]
fn partial_window_keeps_unwritten_slots() {
    let mut w = SlidingWindow::new(7u8);
    assert!(!w.push(1, 2, 3));
    assert!(!w.push(4, 5, 6));
    assert_eq!(&w.buf_x[..3], &[1, 4, 7]);
    assert_eq!(&w.buf_y[..3], &[2, 5, 7]);
    assert_eq!(&w.buf_z[..3], &[3, 6, 7]);
    assert_eq!(w.index, 2);
}

#[test]
fn last_slot_wraps_to_zero() {
    let mut w = SlidingWindow::new(0u16);
    w.index = WINDOW_SIZE - 1;
    assert!(w.push(9, 9, 9));
    assert_eq!(w.index, 0);
    assert_eq!(w.buf_x[WINDOW_SIZE - 1], 9);
}
