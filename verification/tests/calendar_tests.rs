use news_summarizer::calendar::{fifth_of_month, resolve_summary_date, Date, DateTime};
use news_summarizer::handlers::summary_or_unavailable;
use news_summarizer::json::Json;
use news_summarizer::news::article_pub_date;

fn d(year: i32, month: u32, day: u32) -> Date {
    Date { year, month, day }
}

fn dt(date: Date, hour: u32, minute: u32, second: u32) -> DateTime {
    DateTime { date, hour, minute, second, nano: 0 }
}

#[test]
fn unavailable_note_writes_the_day_like_percent_y_m_d() {
    let note = |day: Date| summary_or_unavailable(&vec![], &day);
    assert_eq!(note(d(2024, 3, 5)), "The summary of 2024-03-05 is not available.");
    assert_eq!(note(d(5, 11, 30)), "The summary of 0005-11-30 is not available.");
    assert_eq!(note(d(-1, 1, 1)), "The summary of -0001-01-01 is not available.");
    assert_eq!(note(d(10000, 1, 1)), "The summary of +10000-01-01 is not available.");
    assert_eq!(note(d(0, 12, 31)), "The summary of 0000-12-31 is not available.");
}

#[test]
fn summary_date_reads_year_month_day() {
    let today = d(2000, 1, 1);
    assert_eq!(resolve_summary_date(Some("2024-03-05"), &today), d(2024, 3, 5));
    assert_eq!(resolve_summary_date(Some("2024-02-29"), &today), d(2024, 2, 29));
    assert_eq!(resolve_summary_date(Some("2023-02-29"), &today), today);
    assert_eq!(resolve_summary_date(Some("yesterday"), &today), today);
}

#[test]
fn pub_date_reads_date_and_time() {
    let latest = dt(d(2024, 3, 6), 12, 0, 0);
    let with = |t: &str| Json::Object(vec![(String::from("pubDate"), Json::Str(String::from(t)))]);
    assert_eq!(article_pub_date(&with("2024-03-05 13:04:59"), &latest), Some(dt(d(2024, 3, 5), 13, 4, 59)));
    assert_eq!(article_pub_date(&with("2024-03-05"), &latest), None);
    assert_eq!(article_pub_date(&with("2024-03-05 25:00:00"), &latest), None);
}

#[test]
fn with_hour_changes_only_the_hour() {
    let t = DateTime { date: d(2024, 3, 5), hour: 10, minute: 7, second: 8, nano: 9 };
    assert_eq!(t.with_hour(3), Some(DateTime { hour: 3, ..t }));
    assert_eq!(t.with_hour(23), Some(DateTime { hour: 23, ..t }));
    assert_eq!(t.with_hour(24), None);
}

#[test]
fn before_orders_by_day_then_time() {
    let a = dt(d(2024, 3, 5), 10, 0, 0);
    let b = dt(d(2024, 3, 5), 10, 0, 1);
    let c = dt(d(2024, 3, 6), 0, 0, 0);
    assert!(a.is_before(&b));
    assert!(b.is_before(&c));
    assert!(!b.is_before(&a));
    assert!(!a.is_before(&a));
    assert!(dt(d(2023, 12, 31), 23, 59, 59).is_before(&a));
    let leap = DateTime { nano: 1_500_000_000, ..dt(d(2024, 3, 5), 10, 0, 59) };
    assert!(dt(d(2024, 3, 5), 10, 0, 59).is_before(&leap));
}

#[test]
fn fifth_of_the_month_keeps_year_and_month() {
    assert_eq!(fifth_of_month(&d(2024, 2, 29)), d(2024, 2, 5));
    assert_eq!(fifth_of_month(&d(2023, 12, 1)), d(2023, 12, 5));
}

#[test]
fn summary_date_falls_back_to_today() {
    let today = d(2024, 6, 1);
    assert_eq!(resolve_summary_date(None, &today), today);
    assert_eq!(resolve_summary_date(Some("2024-05-31"), &today), d(2024, 5, 31));
    assert_eq!(resolve_summary_date(Some("not a date"), &today), today);
}

#[test]
fn written_days_read_back() {
    let today = d(2000, 1, 1);
    for day in [d(2024, 2, 29), d(1, 1, 1), d(9999, 12, 31)] {
        let note = summary_or_unavailable(&vec![], &day);
        let text = note.trim_start_matches("The summary of ").trim_end_matches(" is not available.");
        assert_eq!(resolve_summary_date(Some(text), &today), day);
    }
}

#[test]
fn fifth_of_the_month_in_a_leap_february() {
    assert_eq!(fifth_of_month(&d(2000, 2, 29)), d(2000, 2, 5));
    assert_eq!(fifth_of_month(&d(-4, 2, 29)), d(-4, 2, 5));
    assert_eq!(fifth_of_month(&d(262142, 12, 31)), d(262142, 12, 5));
}
