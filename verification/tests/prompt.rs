use symbio_session::prompt::MINUTE_FORMAT;
use symbio_session::types::{UTC_MAX_NANOS, UTC_MIN_NANOS};
use symbio_session::prompt::{context_line, temporal_context, weekday_at_nanos, weekday_name, Weekday};

fn check_contains_time() {
    let result = temporal_context(Some("/workspace"));
    assert!(result.contains("<context>"));
    assert!(result.contains("工作区: /workspace"));
    assert!(result.contains("星期"));
}

fn check_without_workdir() {
    let result = temporal_context(None);
    assert!(result.contains("<context>"));
    assert!(!result.contains("工作区"));
}

fn check_ignores_empty_workdir() {
    let result = temporal_context(Some("   "));
    assert!(!result.contains("工作区"));
}

#[test]
fn prompt_test_temporal_context_contains_time() {
    check_contains_time();
}

#[test]
fn tests_temporal_context_contains_time() {
    check_contains_time();
}

#[test]
fn prompt_test_temporal_context_without_workdir() {
    check_without_workdir();
}

#[test]
fn tests_temporal_context_without_workdir() {
    check_without_workdir();
}

#[test]
fn prompt_test_temporal_context_ignores_empty_workdir() {
    check_ignores_empty_workdir();
}

#[test]
fn tests_temporal_context_ignores_empty_workdir() {
    check_ignores_empty_workdir();
}

#[test]
fn relative_workdir_is_rejected() {
    assert!(!std::path::Path::new("relative/dir").is_absolute());
}

#[test]
fn context_line_has_the_exact_shape() {
    assert_eq!(
        context_line("2024-05-06 07:08", Weekday::Monday, Some(" /ws ")),
        "<context>当前时间: 2024-05-06 07:08 星期一 | 工作区: /ws</context>\n"
    );
    assert_eq!(
        context_line("2024-05-12 23:59", Weekday::Sunday, None),
        "<context>当前时间: 2024-05-12 23:59 星期日</context>\n"
    );
    assert_eq!(weekday_name(Weekday::Wednesday), "星期三");
}

#[test]
fn temporal_context_time_has_minute_precision() {
    let r = temporal_context(None);
    let inner = r.trim_start_matches("<context>当前时间: ");
    let time_part: String = inner.chars().take(16).collect();
    assert_eq!(time_part.len(), 16, "{r}");
    assert_eq!(&time_part[4..5], "-");
    assert_eq!(&time_part[10..11], " ");
    assert_eq!(&time_part[13..14], ":");
}

#[test]
fn weekday_follows_the_calendar() {
    assert_eq!(weekday_at_nanos(0), Weekday::Thursday);
    assert_eq!(weekday_at_nanos(-1), Weekday::Wednesday);
    assert_eq!(weekday_at_nanos(1_546_300_800_000_000_000), Weekday::Tuesday);
    let day: i128 = 86_400_000_000_000;
    for k in [-800_000i128, -3, -1, 0, 1, 6, 7, 20_000, 2_932_896] {
        let n = k * day + 12_345;
        let t = time::OffsetDateTime::from_unix_timestamp_nanos(n).unwrap();
        let expected = match t.weekday() {
            time::Weekday::Monday => Weekday::Monday,
            time::Weekday::Tuesday => Weekday::Tuesday,
            time::Weekday::Wednesday => Weekday::Wednesday,
            time::Weekday::Thursday => Weekday::Thursday,
            time::Weekday::Friday => Weekday::Friday,
            time::Weekday::Saturday => Weekday::Saturday,
            time::Weekday::Sunday => Weekday::Sunday,
        };
        assert_eq!(weekday_at_nanos(n), expected, "day {k}");
    }
}

#[test]
fn context_line_carries_the_current_minute() {
    let r = temporal_context(None);
    let time = r.trim_start_matches("<context>当前时间: ");
    let minute: String = time.chars().take(16).collect();
    assert_eq!(minute.len(), 16, "{r}");
    assert!(minute.chars().enumerate().all(|(i, c)| match i {
        4 | 7 => c == '-',
        10 => c == ' ',
        13 => c == ':',
        _ => c.is_ascii_digit(),
    }), "{r}");
    assert!(r.ends_with("</context>\n"));
}

#[test]
fn the_time_range_is_the_crates_range() {
    assert!(time::OffsetDateTime::from_unix_timestamp_nanos(UTC_MIN_NANOS).is_ok());
    assert!(time::OffsetDateTime::from_unix_timestamp_nanos(UTC_MIN_NANOS - 1).is_err());
    assert!(time::OffsetDateTime::from_unix_timestamp_nanos(UTC_MAX_NANOS).is_ok());
    assert!(time::OffsetDateTime::from_unix_timestamp_nanos(UTC_MAX_NANOS + 1).is_err());
    let now = time::OffsetDateTime::now_utc().unix_timestamp_nanos();
    assert!(UTC_MIN_NANOS <= now && now <= UTC_MAX_NANOS);
}

#[test]
fn the_minute_renders_across_the_whole_range() {
    let f = time::format_description::parse_owned::<2>(MINUTE_FORMAT).unwrap();
    for n in [UTC_MIN_NANOS, -1, 0, UTC_MAX_NANOS] {
        let t = time::OffsetDateTime::from_unix_timestamp_nanos(n).unwrap();
        assert!(t.format(&f).is_ok(), "{n}");
    }
}
