use chrono::{Datelike, NaiveDate, NaiveDateTime, Timelike};
use usage_deck::clock_action::{schedule_from, window_from, PeakClockSettings};
use usage_deck::clock_icon::{peak_arc_spans, status_color, ArcSpan, OFF_PEAK_TEXT_COLOR, PEAK_TEXT_COLOR};
use usage_deck::peak::{
    format_hhmm, minutes_until, parse_hhmm, peak_status, LocalTime, PeakDays, PeakSchedule,
    PeakWindow, Weekday, DAY_KEYS, DEFAULT_PEAK_DAYS,
};

fn local(dt: NaiveDateTime) -> LocalTime {
    LocalTime::new(
        Weekday::from_monday_index(dt.weekday().num_days_from_monday()),
        dt.num_seconds_from_midnight(),
    )
}

/// 2026-09-23 is a Wednesday; `day_offset` walks forward from it
/// (0 = Wed, 3 = Sat, 4 = Sun, 5 = Mon).
fn on(day_offset: u32, h: u32, m: u32) -> LocalTime {
    local(
        NaiveDate::from_ymd_opt(2026, 9, 23 + day_offset)
            .unwrap()
            .and_hms_opt(h, m, 0)
            .unwrap(),
    )
}

fn at(h: u32, m: u32) -> LocalTime {
    on(0, h, m)
}

fn every_day(window: PeakWindow) -> PeakSchedule {
    PeakSchedule {
        window,
        days: PeakDays::from_settings(&DAY_KEYS),
    }
}

fn weekdays(window: PeakWindow) -> PeakSchedule {
    PeakSchedule {
        window,
        days: PeakDays::from_settings(&DEFAULT_PEAK_DAYS),
    }
}

const NINE_TO_FIVE: PeakWindow = PeakWindow {
    start_minutes: 540,
    end_minutes: 1020,
};

const TEN_PM_TO_SIX_AM: PeakWindow = PeakWindow {
    start_minutes: 1320,
    end_minutes: 360,
};

#[test]
fn parses_valid_hhmm() {
    assert_eq!(parse_hhmm("09:00"), Some(540));
    assert_eq!(parse_hhmm("23:59"), Some(1439));
    assert_eq!(parse_hhmm("00:00"), Some(0));
}

#[test]
fn rejects_out_of_range_hhmm() {
    assert_eq!(parse_hhmm("24:00"), None);
    assert_eq!(parse_hhmm("12:60"), None);
}

#[test]
fn rejects_malformed_hhmm() {
    assert_eq!(parse_hhmm("abc"), None);
    assert_eq!(parse_hhmm("9"), None);
    assert_eq!(parse_hhmm(""), None);
}

#[test]
fn parse_hhmm_follows_u32_parsing_on_each_side() {
    assert_eq!(parse_hhmm("9:5"), Some(545));
    assert_eq!(parse_hhmm("+9:+05"), Some(545));
    assert_eq!(parse_hhmm("0009:0005"), Some(545));
    assert_eq!(parse_hhmm("+:00"), None);
    assert_eq!(parse_hhmm("-1:00"), None);
    assert_eq!(parse_hhmm("12:30:00"), None);
    assert_eq!(parse_hhmm(" 12:30"), None);
    assert_eq!(parse_hhmm("99999999999:00"), None);
    assert_eq!(parse_hhmm("12:"), None);
}

#[test]
fn from_settings_falls_back_per_field_on_malformed_input() {
    let window = PeakWindow::from_settings("bad", "20:00");
    assert_eq!(window.start_minutes, 780); // DEFAULT_PEAK_START
    assert_eq!(window.end_minutes, 1200); // parsed, not defaulted
}

#[test]
fn from_settings_falls_back_for_the_end_too() {
    let window = PeakWindow::from_settings("07:15", "25:00");
    assert_eq!(window.start_minutes, 435);
    assert_eq!(window.end_minutes, 1080); // DEFAULT_PEAK_END
}

#[test]
fn contains_normal_window_is_start_inclusive_end_exclusive() {
    let window = PeakWindow {
        start_minutes: 540,
        end_minutes: 1020,
    };
    assert!(window.contains(540));
    assert!(window.contains(1019));
    assert!(!window.contains(1020));
    assert!(!window.contains(0));
}

#[test]
fn contains_overnight_window_wraps_across_midnight() {
    let window = PeakWindow {
        start_minutes: 1320,
        end_minutes: 360,
    };
    assert!(window.contains(1320));
    assert!(window.contains(0));
    assert!(window.contains(359));
    assert!(!window.contains(360));
    assert!(!window.contains(700));
}

#[test]
fn zero_length_window_contains_no_minute() {
    let window = PeakWindow {
        start_minutes: 540,
        end_minutes: 540,
    };
    assert!(!window.contains(539));
    assert!(!window.contains(540));
    assert!(!window.contains(541));
}

#[test]
fn status_inside_normal_window_counts_down_to_end() {
    let window = PeakWindow {
        start_minutes: 540,
        end_minutes: 1020,
    };
    let status = peak_status(every_day(window), at(10, 0));
    assert!(status.is_peak);
    assert_eq!(status.status_text, "Peak");
    assert_eq!(status.countdown_text, "ends in 07:00");
}

#[test]
fn status_outside_normal_window_counts_down_to_start() {
    let window = PeakWindow {
        start_minutes: 540,
        end_minutes: 1020,
    };
    let status = peak_status(every_day(window), at(8, 0));
    assert!(!status.is_peak);
    assert_eq!(status.status_text, "Off-peak");
    assert_eq!(status.countdown_text, "peak in 01:00");
}

#[test]
fn status_inside_overnight_window_counts_down_to_end_next_day() {
    let window = PeakWindow {
        start_minutes: 1320,
        end_minutes: 360,
    };
    let status = peak_status(every_day(window), at(23, 0));
    assert!(status.is_peak);
    assert_eq!(status.countdown_text, "ends in 07:00");
}

#[test]
fn status_outside_overnight_window_counts_down_to_start_next_night() {
    let window = PeakWindow {
        start_minutes: 1320,
        end_minutes: 360,
    };
    let status = peak_status(every_day(window), at(12, 0));
    assert!(!status.is_peak);
    assert_eq!(status.countdown_text, "peak in 10:00");
}

#[test]
fn status_exactly_at_start_boundary_is_peak() {
    let window = PeakWindow {
        start_minutes: 540,
        end_minutes: 1020,
    };
    let status = peak_status(every_day(window), at(9, 0));
    assert!(status.is_peak);
}

#[test]
fn status_exactly_at_end_boundary_is_off_peak() {
    let window = PeakWindow {
        start_minutes: 540,
        end_minutes: 1020,
    };
    let status = peak_status(every_day(window), at(17, 0));
    assert!(!status.is_peak);
}

#[test]
fn peak_days_parse_known_keys_and_ignore_unknown_ones() {
    let days = PeakDays::from_settings(&["mon", " SAT ", "funday"]);
    assert!(days.includes(Weekday::Mon));
    assert!(days.includes(Weekday::Sat));
    assert!(!days.includes(Weekday::Tue));
    assert!(!days.includes(Weekday::Sun));
}

#[test]
fn peak_days_trim_unicode_whitespace_and_ignore_non_ascii_case() {
    let days = PeakDays::from_settings(&["\u{3000}Wed\t", "T\u{0048}U", "fr\u{0130}", "su"]);
    assert!(days.includes(Weekday::Wed));
    assert!(days.includes(Weekday::Thu));
    assert!(!days.includes(Weekday::Fri));
    assert!(!days.includes(Weekday::Sun));
}

#[test]
fn default_days_are_weekdays_only() {
    let days = PeakDays::from_settings(&DEFAULT_PEAK_DAYS);
    assert!(days.includes(Weekday::Mon));
    assert!(days.includes(Weekday::Fri));
    assert!(!days.includes(Weekday::Sat));
    assert!(!days.includes(Weekday::Sun));
}

#[test]
fn unselected_day_is_off_peak_inside_the_window() {
    let status = peak_status(weekdays(NINE_TO_FIVE), on(3, 10, 0)); // Sat
    assert!(!status.is_peak);
    // Next start is Monday 09:00: 14h left of Sat + 24h Sun + 9h Mon.
    assert_eq!(status.countdown_text, "peak in 47:00");
}

#[test]
fn friday_evening_counts_down_across_the_weekend() {
    let status = peak_status(weekdays(NINE_TO_FIVE), on(2, 18, 0)); // Fri
    assert!(!status.is_peak);
    assert_eq!(status.countdown_text, "peak in 63:00");
}

#[test]
fn selected_day_is_peak_inside_the_window() {
    let status = peak_status(weekdays(NINE_TO_FIVE), on(5, 10, 0)); // Mon
    assert!(status.is_peak);
    assert_eq!(status.countdown_text, "ends in 07:00");
}

#[test]
fn overnight_window_belongs_to_the_day_it_starts_on() {
    let schedule = weekdays(TEN_PM_TO_SIX_AM);
    // Friday's window spills into Saturday morning...
    assert!(peak_status(schedule, on(3, 3, 0)).is_peak);
    // ...but Saturday's own window never starts...
    assert!(!peak_status(schedule, on(3, 23, 0)).is_peak);
    // ...so Monday morning (Sunday's spill-over) is off-peak too.
    assert!(!peak_status(schedule, on(5, 3, 0)).is_peak);
}

#[test]
fn only_today_selected_counts_down_a_full_week_after_the_window() {
    let schedule = PeakSchedule {
        window: NINE_TO_FIVE,
        days: PeakDays::from_settings(&["wed"]),
    };
    let status = peak_status(schedule, at(18, 0));
    assert_eq!(status.countdown_text, "peak in 159:00");
}

#[test]
fn no_days_selected_is_never_peak() {
    let schedule = PeakSchedule {
        window: NINE_TO_FIVE,
        days: PeakDays::from_settings(&[]),
    };
    let status = peak_status(schedule, at(10, 0));
    assert!(!status.is_peak);
    assert_eq!(status.countdown_text, "no peak set");
}

#[test]
fn zero_length_window_has_no_peak_set() {
    let schedule = every_day(PeakWindow {
        start_minutes: 600,
        end_minutes: 600,
    });
    let status = peak_status(schedule, at(10, 0));
    assert!(!status.is_peak);
    assert_eq!(status.countdown_text, "no peak set");
}

#[test]
fn seconds_within_the_minute_are_dropped() {
    let now = local(
        NaiveDate::from_ymd_opt(2026, 9, 23)
            .unwrap()
            .and_hms_opt(8, 59, 59)
            .unwrap(),
    );
    assert_eq!(now.minute_of_day, 539);
    let status = peak_status(every_day(NINE_TO_FIVE), now);
    assert!(!status.is_peak);
    assert_eq!(status.countdown_text, "peak in 00:01");
}

#[test]
fn minutes_until_is_the_forward_distance() {
    assert_eq!(minutes_until(600, 1020), 420);
    assert_eq!(minutes_until(1380, 360), 420);
    assert_eq!(minutes_until(600, 600), 0);
}

#[test]
fn format_hhmm_pads_and_lets_hours_exceed_a_day() {
    assert_eq!(format_hhmm(0), "00:00");
    assert_eq!(format_hhmm(61), "01:01");
    assert_eq!(format_hhmm(9540), "159:00");
}

#[test]
fn weekday_steps_wrap_around_the_week() {
    assert_eq!(Weekday::Sun.succ(), Weekday::Mon);
    assert_eq!(Weekday::Mon.pred(), Weekday::Sun);
    assert_eq!(Weekday::Wed.num_days_from_monday(), 2);
}

#[test]
fn default_settings_use_the_default_peak_window() {
    let settings = PeakClockSettings::default();
    assert_eq!(settings.peak_start, "13:00");
    assert_eq!(settings.peak_end, "18:00");
    assert_eq!(settings.peak_days, vec!["mon", "tue", "wed", "thu", "fri"]);
}

#[test]
fn schedule_from_settings_selects_the_named_days() {
    let settings = PeakClockSettings {
        peak_start: "22:00".to_string(),
        peak_end: "bogus".to_string(),
        peak_days: vec!["sat".to_string(), " SUN ".to_string(), "funday".to_string()],
    };
    let schedule = schedule_from(&settings);
    assert_eq!(schedule.window, PeakWindow { start_minutes: 1320, end_minutes: 1080 });
    assert_eq!(schedule.days, PeakDays([false, false, false, false, false, true, true]));
    let default_schedule = schedule_from(&PeakClockSettings::default());
    assert_eq!(default_schedule.days, PeakDays([true, true, true, true, true, false, false]));
}

#[test]
fn window_from_settings_parses_both_ends() {
    let settings = PeakClockSettings {
        peak_start: "10:00".to_string(),
        peak_end: "20:00".to_string(),
        peak_days: vec![],
    };
    assert_eq!(
        window_from(&settings),
        PeakWindow {
            start_minutes: 600,
            end_minutes: 1200
        }
    );
}

#[test]
fn normal_window_marks_one_arc() {
    assert_eq!(
        peak_arc_spans(NINE_TO_FIVE),
        vec![ArcSpan {
            start: 540,
            end: 1020,
            large_arc: false
        }]
    );
}

#[test]
fn overnight_window_marks_two_arcs() {
    assert_eq!(
        peak_arc_spans(TEN_PM_TO_SIX_AM),
        vec![
            ArcSpan {
                start: 1320,
                end: 1440,
                large_arc: false
            },
            ArcSpan {
                start: 0,
                end: 360,
                large_arc: false
            }
        ]
    );
}

#[test]
fn zero_length_window_marks_no_arc() {
    let window = PeakWindow {
        start_minutes: 540,
        end_minutes: 540,
    };
    assert!(peak_arc_spans(window).is_empty());
}

#[test]
fn a_window_longer_than_half_the_day_uses_the_large_arc() {
    let window = PeakWindow {
        start_minutes: 60,
        end_minutes: 1380,
    };
    assert!(peak_arc_spans(window)[0].large_arc);
}

#[test]
fn status_color_is_red_when_peak_and_green_when_off_peak() {
    assert_eq!(status_color(true), PEAK_TEXT_COLOR);
    assert_eq!(status_color(false), OFF_PEAK_TEXT_COLOR);
    assert_eq!(status_color(true), "#f87171");
    assert_eq!(status_color(false), "#4ade80");
}

#[test]
fn every_minute_of_the_day_survives_format_then_parse() {
    for m in 0..1440u32 {
        assert_eq!(parse_hhmm(&format_hhmm(m)), Some(m));
    }
}
