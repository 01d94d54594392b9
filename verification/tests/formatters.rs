use chrono::TimeZone;
use sui_id::formatters::{
    en_fmt_date, en_fmt_date_time, en_fmt_relative, fmt_count_shared, fmt_time_shared,
    formatters_en, formatters_ja, formatters_zh, ja_fmt_date, ja_fmt_date_time, ja_fmt_relative,
    zh_fmt_date, zh_fmt_date_time, zh_fmt_relative, UtcTime,
};

fn ts(y: i32, mo: u32, d: u32, h: u32, mi: u32) -> UtcTime {
    let secs = chrono::Utc.with_ymd_and_hms(y, mo, d, h, mi, 0).unwrap().timestamp();
    UtcTime::from_timestamp(secs).unwrap()
}

#[test]
fn ja_date_formatting() {
    let dt = ts(2024, 5, 12, 14, 7);
    assert_eq!(ja_fmt_date(dt), "2024年5月12日");
    assert_eq!(ja_fmt_date_time(dt), "2024年5月12日 14:07");
    assert_eq!(fmt_time_shared(dt), "14:07");
}

#[test]
fn en_date_formatting() {
    let dt = ts(2024, 5, 12, 14, 7);
    assert_eq!(en_fmt_date(dt), "12 May 2024");
    assert_eq!(en_fmt_date_time(dt), "12 May 2024 14:07");
}

#[test]
fn zh_date_formatting() {
    let dt = ts(2024, 5, 12, 14, 7);
    assert_eq!(zh_fmt_date(dt), "2024年5月12日");
    assert_eq!(zh_fmt_date_time(dt), "2024年5月12日 14:07");
}

#[test]
fn relative_ja() {
    let now = ts(2024, 5, 12, 15, 0);
    assert_eq!(ja_fmt_relative(ts(2024, 5, 12, 14, 57), now), "3 分前");
    assert_eq!(ja_fmt_relative(ts(2024, 5, 12, 12, 0), now), "3 時間前");
    assert_eq!(ja_fmt_relative(ts(2024, 5, 9, 15, 0), now), "3 日前");
}

#[test]
fn relative_en() {
    let now = ts(2024, 5, 12, 15, 0);
    assert_eq!(en_fmt_relative(ts(2024, 5, 12, 14, 57), now), "3 minutes ago");
    assert_eq!(en_fmt_relative(ts(2024, 5, 12, 12, 0), now), "3 hours ago");
    assert_eq!(en_fmt_relative(ts(2024, 5, 9, 15, 0), now), "3 days ago");
    assert_eq!(en_fmt_relative(ts(2024, 5, 12, 14, 59), now), "1 minute ago");
}

#[test]
fn fmt_count_thousands() {
    assert_eq!(fmt_count_shared(0), "0");
    assert_eq!(fmt_count_shared(999), "999");
    assert_eq!(fmt_count_shared(1000), "1,000");
    assert_eq!(fmt_count_shared(1_234_567), "1,234,567");
}

#[test]
fn fmt_count_largest_value() {
    assert_eq!(fmt_count_shared(u64::MAX), "18,446,744,073,709,551,615");
    assert_eq!(fmt_count_shared(100_000), "100,000");
}

#[test]
fn timestamp_round_trips_and_midnight() {
    let t = ts(1970, 1, 1, 0, 0);
    assert_eq!(t.timestamp(), 0);
    assert_eq!(fmt_time_shared(t), "00:00");
    assert_eq!(en_fmt_date(t), "1 Jan 1970");
    let late = ts(2023, 12, 31, 23, 59);
    assert_eq!(ja_fmt_date_time(late), "2023年12月31日 23:59");
}

#[test]
fn relative_edges() {
    let now = ts(2024, 5, 12, 15, 0);
    assert_eq!(ja_fmt_relative(now, now), "0 秒前");
    assert_eq!(en_fmt_relative(now, now), "0 seconds ago");
    // an instant after `now` counts as "just now"
    assert_eq!(ja_fmt_relative(ts(2024, 5, 12, 15, 1), now), "たった今");
    assert_eq!(zh_fmt_relative(ts(2024, 5, 12, 15, 1), now), "刚刚");
    assert_eq!(zh_fmt_relative(ts(2024, 5, 12, 14, 57), now), "3 分钟前");
    assert_eq!(en_fmt_relative(ts(2024, 5, 11, 15, 0), now), "1 day ago");
}

#[test]
fn bundles_dispatch_by_locale() {
    let dt = ts(2024, 5, 12, 14, 7);
    assert_eq!(formatters_ja().fmt_date(dt), "2024年5月12日");
    assert_eq!(formatters_en().fmt_date_time(dt), "12 May 2024 14:07");
    assert_eq!(formatters_zh().fmt_time(dt), "14:07");
    assert_eq!(formatters_en().fmt_count(1234), "1,234");
}
