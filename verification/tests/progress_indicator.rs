use podchiver::progress_indicator::ProgressIndicator;

#[test]
fn new_indicator_starts_at_zero() {
    let p = ProgressIndicator::new(10, 4);
    assert_eq!(p.downloaded(), 0);
    assert_eq!(p.total(), 10);
    assert_eq!(p.display_width(), 4);
    assert_eq!(p.percent(), 0);
    assert_eq!(p.filled_cells(), 0);
    assert_eq!(p.empty_cells(), 4);
    assert!(!p.is_complete());
}

#[test]
fn progress_adds_and_clamps_at_total() {
    let mut p = ProgressIndicator::new(10, 4);
    p.progress(7);
    assert_eq!(p.downloaded(), 7);
    p.progress(7);
    assert_eq!(p.downloaded(), 10);
    p.progress(u64::MAX);
    assert_eq!(p.downloaded(), 10);
    assert!(p.is_complete());
}

#[test]
fn progress_never_goes_back_over_a_sequence() {
    let mut p = ProgressIndicator::new(1000, 72);
    let amounts: [u64; 8] = [0, 1, 250, 0, 300, 448, 5, u64::MAX];
    let mut last = p.downloaded();
    for amount in amounts {
        p.progress(amount);
        assert!(p.downloaded() >= last);
        assert!(p.downloaded() <= p.total());
        last = p.downloaded();
    }
    assert_eq!(last, 1000);
}

#[test]
fn progress_near_the_largest_total_does_not_wrap() {
    let mut p = ProgressIndicator::new(u64::MAX, 72);
    p.progress(u64::MAX - 1);
    assert_eq!(p.downloaded(), u64::MAX - 1);
    p.progress(5);
    assert_eq!(p.downloaded(), u64::MAX);
    assert_eq!(p.percent(), 100);
    assert_eq!(p.filled_cells(), 72);
}

#[test]
fn complete_indicator_is_full() {
    let mut p = ProgressIndicator::new(3, 72);
    p.progress(3);
    assert_eq!(p.percent(), 100);
    assert_eq!(p.filled_cells(), 72);
    assert_eq!(p.empty_cells(), 0);
}

#[test]
fn percent_is_rounded_to_nearest() {
    let mut p = ProgressIndicator::new(3, 72);
    p.progress(1);
    assert_eq!(p.percent(), 33);
    assert_eq!(p.filled_cells(), 24);
    assert_eq!(p.empty_cells(), 48);
    p.progress(1);
    assert_eq!(p.percent(), 67);
    assert_eq!(p.filled_cells(), 48);
}

#[test]
fn halves_are_rounded_upward() {
    let mut p = ProgressIndicator::new(8, 1);
    p.progress(1);
    assert_eq!(p.percent(), 13);
    assert_eq!(p.filled_cells(), 0);
    p.progress(3);
    assert_eq!(p.percent(), 50);
    assert_eq!(p.filled_cells(), 1);
    assert_eq!(p.empty_cells(), 0);
}

#[test]
fn render_draws_bar_and_percentage() {
    let mut p = ProgressIndicator::new(10, 4);
    p.progress(5);
    assert_eq!(p.render(), "\x1b[2K\r\u{2588}\u{2588}\u{2591}\u{2591} 50%");
}

#[test]
fn render_ends_the_line_when_complete() {
    let mut p = ProgressIndicator::new(10, 4);
    p.progress(10);
    assert_eq!(p.render(), "\x1b[2K\r\u{2588}\u{2588}\u{2588}\u{2588} 100%\n");
}

#[test]
fn render_of_zero_width_has_no_cells() {
    let p = ProgressIndicator::new(10, 0);
    assert_eq!(p.render(), "\x1b[2K\r 0%");
}
