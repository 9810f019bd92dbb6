use stream_state::discord::DiscordNotifier;
use stream_state::logger::CustomEncoder;
use stream_state::time_util::{calculate_time_range, unix_time_to_jst};

#[test]
fn time_range_spans_the_requested_window() {
    let (start, end) = calculate_time_range(2);
    assert!(start <= end);
    assert_eq!(end - start, 2 * 60 * 60 * 1000);
}

#[test]
fn time_range_of_zero_hours_is_empty() {
    let (start, end) = calculate_time_range(0);
    assert_eq!(start, end);
}

#[test]
fn huge_time_range_clamps_at_the_epoch() {
    let (start, end) = calculate_time_range(u64::MAX);
    assert_eq!(start, 0);
    assert!(start <= end);
}

#[test]
fn timestamp_rendering_produces_text() {
    // the text depends on the machine's time zone; it is at least
    // a date-time-shaped string for an ordinary timestamp
    let s = unix_time_to_jst(1_700_000_000_000);
    assert!(s.len() >= 19);
}

#[test]
fn notifier_keeps_its_endpoint() {
    let n = DiscordNotifier::new("https://example.invalid/hook");
    assert_eq!(n.webhook_url(), "https://example.invalid/hook");
    let m = n.clone();
    assert_eq!(m.webhook_url(), "https://example.invalid/hook");
}

#[test]
fn encoder_keeps_its_pattern() {
    let e = CustomEncoder::new("[{time} {level}][{file_name}:{line}] {message}");
    assert_eq!(e.pattern(), "[{time} {level}][{file_name}:{line}] {message}");
}
