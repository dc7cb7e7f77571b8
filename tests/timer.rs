use typing_test::timer::{progress_cells, remaining, timed_out, timer_view, TimerView};

#[test]
fn remaining_counts_down_and_saturates() {
    assert_eq!(remaining(1000, 1000, 10_000), 10_000);
    assert_eq!(remaining(1000, 4500, 10_000), 6_500);
    assert_eq!(remaining(1000, 11_000, 10_000), 0);
    assert_eq!(remaining(1000, 50_000, 10_000), 0);
    assert_eq!(remaining(1000, 500, 10_000), 10_000);
    assert!(timed_out(remaining(0, 10_000, 10_000)));
    assert!(!timed_out(remaining(0, 9_999, 10_000)));
}

#[test]
fn progress_is_zero_at_start_and_full_at_end() {
    assert_eq!(progress_cells(10_000, 10_000, 80), 0);
    assert_eq!(progress_cells(0, 10_000, 80), 80);
    assert_eq!(progress_cells(5_000, 10_000, 80), 40);
    assert_eq!(progress_cells(2_500, 10_000, 80), 60);
    assert_eq!(progress_cells(1, 3, 10), 6);
    assert_eq!(progress_cells(5, 0, 10), 10);
}

#[test]
fn progress_never_shrinks_as_time_passes() {
    let mut last = 0;
    for now in 0..=12_000u64 {
        let p = progress_cells(remaining(0, now, 10_000), 10_000, 97);
        assert!(p >= last);
        last = p;
    }
    assert_eq!(last, 97);
}

#[test]
fn progress_handles_largest_values() {
    assert_eq!(progress_cells(1, u64::MAX, u16::MAX), u16::MAX - 1);
}

#[test]
fn timer_view_shows_whole_seconds() {
    assert_eq!(
        timer_view(6_999, 10_000, 20),
        TimerView { seconds_left: 6, bar_cells: 6 }
    );
}
