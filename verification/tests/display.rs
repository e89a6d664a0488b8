use chrono::{DateTime, Duration, TimeZone, Utc};
use usage_deck::format::{format_countdown, format_countdown_short, format_remaining, window_details};
use usage_deck::metric::{
    error_display, metric_step, metric_title, range_bounds, summarize_metric, MetricDisplay, MetricStep, MetricKind, MetricTotal, RangeKind,
    COST_ACCENT, NO_DATA_ACCENT, TOKENS_ACCENT,
};
use usage_deck::pricing::{family_of_lowercase, model_family, ModelFamily};
use usage_deck::source::logs::LogEntry;
use usage_deck::time::{reset_time, Timestamp};

fn ts(dt: DateTime<Utc>) -> Timestamp {
    Timestamp::new(dt.timestamp(), dt.timestamp_subsec_nanos())
}

fn dt(hour: u32, minute: u32, second: u32) -> DateTime<Utc> {
    Utc.with_ymd_and_hms(2026, 9, 13, hour, minute, second).unwrap()
}

#[test]
fn countdown_with_hours_and_minutes() {
    assert_eq!(
        format_countdown(ts(dt(22, 40, 0)), ts(dt(20, 30, 0))),
        "resets in 2h 10m"
    );
}

#[test]
fn countdown_under_an_hour() {
    assert_eq!(
        format_countdown(ts(dt(20, 45, 0)), ts(dt(20, 30, 0))),
        "resets in 15m"
    );
}

#[test]
fn countdown_under_a_minute() {
    assert_eq!(
        format_countdown(ts(dt(20, 30, 30)), ts(dt(20, 30, 0))),
        "resets in <1m"
    );
}

#[test]
fn countdown_of_a_day_or_more_uses_days() {
    assert_eq!(
        format_countdown(
            ts(dt(20, 30, 0) + Duration::minutes(154 * 60 + 34)),
            ts(dt(20, 30, 0))
        ),
        "resets in 6d 10h"
    );
}

#[test]
fn short_countdown_drops_the_prefix() {
    assert_eq!(
        format_countdown_short(ts(dt(22, 40, 0)), ts(dt(20, 30, 0))),
        "2h 10m"
    );
    assert_eq!(format_countdown_short(ts(dt(20, 0, 0)), ts(dt(20, 30, 0))), "now");
}

#[test]
fn countdown_already_passed() {
    assert_eq!(format_countdown(ts(dt(20, 0, 0)), ts(dt(20, 30, 0))), "resets now");
    assert_eq!(format_countdown(ts(dt(20, 30, 0)), ts(dt(20, 30, 0))), "resets now");
}

#[test]
fn countdown_pads_minutes_under_ten_and_drops_partial_minutes() {
    assert_eq!(
        format_countdown(ts(dt(22, 35, 59)), ts(dt(20, 30, 0))),
        "resets in 2h 05m"
    );
    assert_eq!(
        format_remaining(ts(dt(20, 30, 0) + Duration::nanoseconds(1)), ts(dt(20, 30, 0))),
        Some("<1m".to_string())
    );
    assert_eq!(
        format_remaining(ts(dt(20, 30, 0) + Duration::hours(24)), ts(dt(20, 30, 0))),
        Some("1d 0h".to_string())
    );
}

#[test]
fn countdown_counts_a_leap_second_as_its_own_second() {
    // 2016-12-31T23:59:60 is a leap second: from its start to 00:01:31 is
    // 91 seconds, one whole minute.
    let leap = reset_time(Some("2016-12-31T23:59:60.000Z")).unwrap();
    let later = reset_time(Some("2017-01-01T00:01:31Z")).unwrap();
    assert_eq!(format_remaining(later, leap), Some("1m".to_string()));
}

#[test]
fn window_details_without_a_reset_time() {
    let (detail, tile) = window_details(None, ts(dt(20, 30, 0)));
    assert_eq!(detail, "no reset info");
    assert_eq!(tile, "\u{2014}");
    let (detail, tile) = window_details(Some(ts(dt(22, 40, 0))), ts(dt(20, 30, 0)));
    assert_eq!(detail, "resets in 2h 10m");
    assert_eq!(tile, "2h 10m");
}

#[test]
fn malformed_reset_timestamp_becomes_none_not_an_error() {
    assert_eq!(reset_time(Some("not-a-timestamp")), None);
    assert_eq!(reset_time(None), None);
    assert_eq!(
        reset_time(Some("2026-09-13T22:40:00.186282+00:00")),
        Some(Timestamp::new(
            dt(22, 40, 0).timestamp(),
            186_282_000
        ))
    );
    assert_eq!(
        reset_time(Some("2026-09-13T23:40:00+01:00")),
        Some(ts(dt(22, 40, 0)))
    );
}

#[test]
fn today_is_a_rolling_24h_window_ending_now() {
    let now = dt(20, 0, 0);
    let (start, end) = range_bounds(RangeKind::Today, ts(now), None);
    assert_eq!(start, ts(now - Duration::hours(24)));
    assert_eq!(end, ts(now));
}

#[test]
fn seven_day_is_a_rolling_168h_window_ending_now() {
    let now = dt(20, 0, 0);
    let (start, end) = range_bounds(RangeKind::SevenDay, ts(now), None);
    assert_eq!(start, ts(now - Duration::hours(168)));
    assert_eq!(end, ts(now));
}

#[test]
fn session_uses_the_five_hour_window_ending_at_resets_at_when_known() {
    let now = dt(20, 0, 0);
    let resets_at = dt(22, 40, 0);
    let (start, end) = range_bounds(RangeKind::Session, ts(now), Some(ts(resets_at)));
    assert_eq!(start, ts(resets_at - Duration::hours(5)));
    assert_eq!(end, ts(resets_at));
}

#[test]
fn session_falls_back_to_a_rolling_five_hour_window_when_resets_at_is_unknown() {
    let now = dt(20, 0, 0);
    let (start, end) = range_bounds(RangeKind::Session, ts(now), None);
    assert_eq!(start, ts(now - Duration::hours(5)));
    assert_eq!(end, ts(now));
}

fn entry(timestamp: DateTime<Utc>, model: &str, input: u64, output: u64) -> LogEntry {
    LogEntry {
        timestamp: ts(timestamp),
        model: model.to_string(),
        input_tokens: input,
        output_tokens: output,
        cache_creation_input_tokens: 0,
        cache_read_input_tokens: 0,
    }
}

#[test]
fn summary_sums_tokens_only_within_range() {
    let now = dt(20, 0, 0);
    let entries = vec![
        entry(now - Duration::hours(1), "acme-sonnet-5", 100, 50),
        entry(now - Duration::hours(30), "acme-sonnet-5", 999, 999),
    ];
    let summary = summarize_metric(&entries, MetricKind::Tokens, RangeKind::Today, ts(now), None).unwrap();
    assert_eq!(summary.label, "Tokens");
    assert_eq!(summary.total, MetricTotal::Tokens(150));
    assert_eq!(summary.subtitle, "today");
    assert_eq!(summary.accent_color, TOKENS_ACCENT);
}

#[test]
fn summary_range_includes_both_ends() {
    let now = dt(20, 0, 0);
    let entries = vec![
        entry(now - Duration::hours(24), "opus", 1, 0),
        entry(now, "opus", 10, 0),
        entry(now + Duration::nanoseconds(1), "opus", 100, 0),
        entry(now - Duration::hours(24) - Duration::nanoseconds(1), "opus", 1000, 0),
    ];
    let summary = summarize_metric(&entries, MetricKind::Tokens, RangeKind::Today, ts(now), None).unwrap();
    assert_eq!(summary.total, MetricTotal::Tokens(11));
}

#[test]
fn summary_cost_skips_entries_with_an_unrecognized_model() {
    let now = dt(20, 0, 0);
    let entries = vec![
        entry(now - Duration::hours(1), "acme-sonnet-5", 1_000_000, 0),
        entry(now - Duration::hours(1), "some-future-model", 1_000_000, 0),
        entry(now - Duration::hours(30), "acme-opus-5", 1_000_000, 0),
    ];
    let summary = summarize_metric(&entries, MetricKind::Cost, RangeKind::Today, ts(now), None).unwrap();
    assert_eq!(summary.label, "Cost");
    assert_eq!(summary.accent_color, COST_ACCENT);
    assert_eq!(summary.total, MetricTotal::Cost(vec![(0, ModelFamily::Sonnet)]));
}

#[test]
fn summary_subtitle_matches_each_range() {
    let now = ts(dt(20, 0, 0));
    let entries: Vec<LogEntry> = vec![];
    assert_eq!(
        summarize_metric(&entries, MetricKind::Tokens, RangeKind::SevenDay, now, None).unwrap().subtitle,
        "7 days"
    );
    assert_eq!(
        summarize_metric(&entries, MetricKind::Tokens, RangeKind::Session, now, None).unwrap().subtitle,
        "session"
    );
    assert_eq!(
        summarize_metric(&entries, MetricKind::Tokens, RangeKind::Today, now, None).unwrap().total,
        MetricTotal::Tokens(0)
    );
}

#[test]
fn summary_reports_a_token_total_too_large_for_u64() {
    let now = dt(20, 0, 0);
    let entries = vec![
        entry(now - Duration::hours(1), "opus", u64::MAX, 0),
        entry(now - Duration::hours(2), "opus", 1, 0),
    ];
    assert!(summarize_metric(&entries, MetricKind::Tokens, RangeKind::Today, ts(now), None).is_none());
    let cost = summarize_metric(&entries, MetricKind::Cost, RangeKind::Today, ts(now), None).unwrap();
    assert_eq!(
        cost.total,
        MetricTotal::Cost(vec![(0, ModelFamily::Opus), (1, ModelFamily::Opus)])
    );
}

#[test]
fn metric_error_display_is_a_clear_no_data_state() {
    let display = error_display();
    assert_eq!(display.subtitle, "no data");
    assert_eq!(display.accent_color, NO_DATA_ACCENT);
    assert_eq!(display.label, "\u{2014}");
    assert_eq!(display.value_text, "\u{2014}");
}

#[test]
fn matches_versioned_opus_model_name() {
    assert!(model_family("acme-opus-5").is_some());
}

#[test]
fn matches_bare_family_model_names() {
    assert!(model_family("opus").is_some());
    assert!(model_family("sonnet").is_some());
    assert!(model_family("haiku").is_some());
}

#[test]
fn returns_none_for_an_unrecognized_model() {
    assert!(model_family("gpt-4").is_none());
    assert!(model_family("<synthetic>").is_none());
}

#[test]
fn model_families_match_case_insensitively_in_priority_order() {
    assert_eq!(model_family("Acme-OPUS-5"), Some(ModelFamily::Opus));
    assert_eq!(model_family("SONNET"), Some(ModelFamily::Sonnet));
    assert_eq!(model_family("haiku-sonnet"), Some(ModelFamily::Sonnet));
    assert_eq!(model_family("haiku"), Some(ModelFamily::Haiku));
    assert_eq!(family_of_lowercase("HAIKU"), None);
    assert_eq!(family_of_lowercase("opu"), None);
}

#[test]
fn metric_title_is_label_value_and_subtitle_on_three_lines() {
    let display = MetricDisplay {
        label: "Tokens",
        value_text: "318.5K".to_string(),
        subtitle: "today",
        accent_color: TOKENS_ACCENT,
    };
    assert_eq!(metric_title(&display), "Tokens\n318.5K\ntoday");
    assert_eq!(metric_title(&error_display()), "\u{2014}\n\u{2014}\nno data");
}

#[test]
fn no_entries_at_all_is_the_no_data_step() {
    let now = dt(20, 0, 0);
    assert_eq!(metric_step(&[]), MetricStep::NoData);
    let entries = vec![entry(now - Duration::hours(100), "opus", 1, 0)];
    assert_eq!(metric_step(&entries), MetricStep::Summarize);
}
