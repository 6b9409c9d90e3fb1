use yt_cli::display::{channel_display, format_duration_clock, format_duration_words, format_hours_minutes};

#[test]
fn clock_durations() {
    assert_eq!(format_duration_clock(0), "0:00");
    assert_eq!(format_duration_clock(65), "1:05");
    assert_eq!(format_duration_clock(3725), "62:05");
    assert_eq!(format_duration_clock(-65), format!("{}:{:02}", -65i64 / 60, -65i64 % 60));
}

#[test]
fn word_durations() {
    assert_eq!(format_duration_words(0), "0m 0s");
    assert_eq!(format_duration_words(125), "2m 5s");
    assert_eq!(format_duration_words(-125), format!("{}m {}s", -125i64 / 60, -125i64 % 60));
}

#[test]
fn hour_totals() {
    assert_eq!(format_hours_minutes(0), "0h 0m");
    assert_eq!(format_hours_minutes(3725), "1h 2m");
    assert_eq!(format_hours_minutes(59), "0h 0m");
    assert_eq!(format_hours_minutes(i64::MIN), format!("{}h {}m", i64::MIN / 3600, (i64::MIN % 3600) / 60));
}

#[test]
fn channel_with_handle() {
    assert_eq!(channel_display("Econ", Some("@econ")), "Econ (@econ)");
    assert_eq!(channel_display("Econ", Some("Econ")), "Econ");
    assert_eq!(channel_display("Econ", Some("")), "Econ");
    assert_eq!(channel_display("Econ", None), "Econ");
}
