use sysmon::format_uptime;

#[test]
fn uptime_seconds_only() {
    assert_eq!(format_uptime(0), "0 secs");
    assert_eq!(format_uptime(59), "59 secs");
}

#[test]
fn uptime_minutes() {
    assert_eq!(format_uptime(65), "1 mins, 5 secs");
    assert_eq!(format_uptime(60), "1 mins, 0 secs");
}

#[test]
fn uptime_hours() {
    assert_eq!(format_uptime(3661), "1 hours, 1 mins, 1 secs");
    assert_eq!(format_uptime(3600), "1 hours, 0 mins, 0 secs");
}

#[test]
fn uptime_days() {
    assert_eq!(format_uptime(90061), "1 days, 1 hours, 1 mins, 1 secs");
    assert_eq!(format_uptime(86400), "1 days, 0 hours, 0 mins, 0 secs");
    assert_eq!(format_uptime(1234567), "14 days, 6 hours, 56 mins, 7 secs");
}

#[test]
fn uptime_largest() {
    assert_eq!(
        format_uptime(u64::MAX),
        "213503982334601 days, 7 hours, 0 mins, 15 secs"
    );
}
