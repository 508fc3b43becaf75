use scheduler_edf_rs::tasks::{reports_progress, PROGRESS_PERIOD, TASK2_ITERATIONS};
use scheduler_edf_rs::timer::timer::{alarm_interval_ticks, next_elapsed_ms, to_ms};

#[test]
fn alarm_interval_is_in_microseconds() {
    assert_eq!(alarm_interval_ticks(1), 1000);
    assert_eq!(alarm_interval_ticks(7), 7000);
    assert_eq!(alarm_interval_ticks(0), 0);
    assert_eq!(alarm_interval_ticks(4_294_967), 4_294_967_000);
}

#[test]
fn elapsed_ms_counts_interrupts() {
    assert_eq!(next_elapsed_ms(0), 1);
    assert_eq!(next_elapsed_ms(u32::MAX - 1), u32::MAX);
}

#[test]
fn micros_convert_to_whole_millis() {
    assert_eq!(to_ms(0), 0);
    assert_eq!(to_ms(999), 0);
    assert_eq!(to_ms(1000), 1);
    assert_eq!(to_ms(2_500_999), 2500);
}

#[test]
fn progress_reported_every_period() {
    assert!(reports_progress(0));
    assert!(reports_progress(PROGRESS_PERIOD));
    assert!(!reports_progress(PROGRESS_PERIOD + 1));
    assert!(reports_progress(9_000_000));
    assert!(!reports_progress(99_999));
}

#[test]
fn task_reports_once_per_period() {
    let reports = (1..=TASK2_ITERATIONS).filter(|i| reports_progress(*i)).count();
    assert_eq!(reports as u32, TASK2_ITERATIONS / PROGRESS_PERIOD);
    assert_eq!(reports, 15);
}
