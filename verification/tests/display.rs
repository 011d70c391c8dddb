use rmsg::display::{format_date, format_date_at, format_time, now_ms};

#[test]
fn clock_times() {
    assert_eq!(format_time(0), "00:00");
    assert_eq!(format_time(3_723_000), "01:02");
    assert_eq!(format_time(86_399_999), "23:59");
    assert_eq!(format_time(86_400_000 + 61_000), "00:01");
    assert_eq!(format_time(-60_000), "00:-1");
}

#[test]
fn date_headings() {
    let day = 86_400_000;
    assert_eq!(format_date_at(5 * day + 10, 5 * day + 99), "Today");
    assert_eq!(format_date_at(4 * day, 5 * day), "Yesterday");
    assert_eq!(format_date_at(0, 10 * day), "1970-01-01");
    assert_eq!(format_date_at(40 * day, 100 * day), "1970-02-11");
    assert_eq!(format_date_at(400 * day, 1000 * day), "1971-02-06");
}

#[test]
fn date_of_now_is_today() {
    assert_eq!(format_date(now_ms()), "Today");
}
