use base64::engine::general_purpose::STANDARD;
use base64::Engine as _;
use usage_deck::clock_icon::{
    build_clock_icon, peak_arc_spans, ArcPoints, RingPoint, OFF_PEAK_TEXT_COLOR, PEAK_TEXT_COLOR,
};
use usage_deck::metric_icon::build_metric_icon;
use usage_deck::peak::{PeakStatus, PeakWindow};
use usage_deck::tile::{card, data_uri, escape_xml, text_line, TEXT_COLOR};

fn decode(uri: &str) -> String {
    let prefix = "data:image/svg+xml;base64,";
    assert!(uri.starts_with(prefix), "got: {uri}");
    let bytes = STANDARD.decode(&uri[prefix.len()..]).unwrap();
    String::from_utf8(bytes).unwrap()
}

#[test]
fn short_lines_are_not_squeezed() {
    let line = text_line(80, 14, false, TEXT_COLOR, "3h 54m");
    assert!(!line.contains("textLength"), "got: {line}");
    assert!(line.contains(">3h 54m</text>"), "got: {line}");
}

#[test]
fn long_lines_are_squeezed_to_fit() {
    let line = text_line(80, 14, false, TEXT_COLOR, "spend unavailable");
    assert!(line.contains(r#"textLength="94""#), "got: {line}");
}

#[test]
fn text_is_xml_escaped() {
    let line = text_line(80, 14, false, TEXT_COLOR, "<1m & up");
    assert!(line.contains(">&lt;1m &amp; up</text>"), "got: {line}");
}

#[test]
fn text_line_is_the_full_element() {
    assert_eq!(
        text_line(97, 13, true, "#fff", "Peak"),
        r##"<text x="50" y="97" text-anchor="middle" font-family="sans-serif" font-size="13" font-weight="700" fill="#fff">Peak</text>"##
    );
}

#[test]
fn squeezing_starts_just_past_the_width_limit() {
    // 162 glyph-units at 0.58 stay within 94; 163 do not.
    let fits = "x".repeat(162);
    let wide = "x".repeat(163);
    assert!(!text_line(0, 1, false, TEXT_COLOR, &fits).contains("textLength"));
    assert!(text_line(0, 1, false, TEXT_COLOR, &wide).contains("textLength"));
    // Bold glyphs are wider: 146 fit, 147 do not.
    assert!(!text_line(0, 1, true, TEXT_COLOR, &"x".repeat(146)).contains("textLength"));
    assert!(text_line(0, 1, true, TEXT_COLOR, &"x".repeat(147)).contains("textLength"));
}

#[test]
fn escaping_leaves_other_characters_alone() {
    assert_eq!(escape_xml("a&b<c>d\"e\u{2014}"), "a&amp;b&lt;c&gt;d\"e\u{2014}");
}

#[test]
fn card_is_a_full_bleed_dark_rectangle() {
    assert_eq!(
        card(),
        r##"<rect x="0" y="0" width="100" height="100" fill="#111827" />"##
    );
}

#[test]
fn data_uri_encodes_the_utf8_bytes() {
    assert_eq!(data_uri(""), "data:image/svg+xml;base64,");
    assert_eq!(data_uri("ab"), "data:image/svg+xml;base64,YWI=");
    assert_eq!(decode(&data_uri("\u{2014} <svg/>")), "\u{2014} <svg/>");
}

#[test]
fn metric_icon_builds_a_valid_svg_data_uri() {
    let svg = decode(&build_metric_icon("#38bdf8"));
    assert!(svg.starts_with("<svg"), "got: {svg}");
    assert!(svg.contains("#111827"));
}

#[test]
fn draws_the_passed_accent_color() {
    let svg = decode(&build_metric_icon("#fb923c"));
    assert!(svg.contains("#fb923c"));
}

#[test]
fn different_accent_colors_produce_different_icons() {
    let a = build_metric_icon("#38bdf8");
    let b = build_metric_icon("#fb923c");
    assert_ne!(a, b);
}

const PEAK_ARC_COLOR: &str = "#ef4444";
const CLOCK_CENTER_X: f64 = 50.0;
const CLOCK_CENTER_Y: f64 = 36.0;
const CLOCK_FACE_RADIUS: f64 = 27.0;
const CLOCK_POINTER_LENGTH: f64 = 21.0;

fn ring_point(minute_of_day: u32, radius: f64) -> RingPoint {
    let angle = minute_of_day as f64 / 1440.0 * std::f64::consts::TAU;
    RingPoint {
        x: format!("{:.2}", CLOCK_CENTER_X + radius * angle.sin()),
        y: format!("{:.2}", CLOCK_CENTER_Y - radius * angle.cos()),
    }
}

fn clock_icon(window: PeakWindow, now_minutes: u32, status: &PeakStatus) -> String {
    let arc_ends: Vec<ArcPoints> = peak_arc_spans(window)
        .into_iter()
        .map(|span| ArcPoints {
            from: ring_point(span.start, CLOCK_FACE_RADIUS),
            to: ring_point(span.end, CLOCK_FACE_RADIUS),
        })
        .collect();
    build_clock_icon(window, status, &ring_point(now_minutes, CLOCK_POINTER_LENGTH), &arc_ends)
}

fn clock_normal_window() -> PeakWindow {
    PeakWindow { start_minutes: 540, end_minutes: 1020 }
}

fn clock_overnight_window() -> PeakWindow {
    PeakWindow { start_minutes: 1320, end_minutes: 360 }
}

fn clock_status(is_peak: bool) -> PeakStatus {
    PeakStatus {
        is_peak,
        status_text: if is_peak { "Peak" } else { "Off-peak" },
        countdown_text: "peak in 01:00".to_string(),
    }
}

fn render_clock(window: PeakWindow, now_minutes: u32) -> String {
    decode(&clock_icon(window, now_minutes, &clock_status(false)))
}

fn pointer_tip(x: f64, y: f64) -> String {
    format!("x2=\"{x:.2}\" y2=\"{y:.2}\"")
}

#[test]
fn clock_icon_builds_a_valid_svg_data_uri() {
    let svg = render_clock(clock_normal_window(), 600);
    assert!(svg.starts_with("<svg"), "got: {svg}");
    assert!(svg.contains(PEAK_ARC_COLOR));
}

#[test]
fn normal_window_draws_exactly_one_peak_arc() {
    let svg = render_clock(clock_normal_window(), 600);
    assert_eq!(svg.matches(PEAK_ARC_COLOR).count(), 1);
}

#[test]
fn overnight_window_draws_two_peak_arcs() {
    let svg = render_clock(clock_overnight_window(), 0);
    assert_eq!(svg.matches(PEAK_ARC_COLOR).count(), 2);
}

#[test]
fn zero_length_window_draws_no_peak_arc() {
    let window = PeakWindow { start_minutes: 540, end_minutes: 540 };
    let svg = render_clock(window, 600);
    assert_eq!(svg.matches(PEAK_ARC_COLOR).count(), 0);
}

#[test]
fn pointer_points_up_at_midnight() {
    let svg = render_clock(clock_normal_window(), 0);
    assert!(svg.contains(&pointer_tip(CLOCK_CENTER_X, CLOCK_CENTER_Y - CLOCK_POINTER_LENGTH)));
}

#[test]
fn pointer_points_right_at_six_hours() {
    let svg = render_clock(clock_normal_window(), 360);
    assert!(svg.contains(&pointer_tip(CLOCK_CENTER_X + CLOCK_POINTER_LENGTH, CLOCK_CENTER_Y)));
}

#[test]
fn pointer_points_down_at_noon() {
    let svg = render_clock(clock_normal_window(), 720);
    assert!(svg.contains(&pointer_tip(CLOCK_CENTER_X, CLOCK_CENTER_Y + CLOCK_POINTER_LENGTH)));
}

#[test]
fn pointer_points_left_at_eighteen_hours() {
    let svg = render_clock(clock_normal_window(), 1080);
    assert!(svg.contains(&pointer_tip(CLOCK_CENTER_X - CLOCK_POINTER_LENGTH, CLOCK_CENTER_Y)));
}

#[test]
fn draws_status_and_countdown_text_in_the_image() {
    let svg = render_clock(clock_normal_window(), 600);
    assert!(svg.contains(">Off-peak</text>"), "got: {svg}");
    assert!(svg.contains(">peak in 01:00</text>"), "got: {svg}");
}

#[test]
fn status_text_is_red_when_peak_and_green_when_off_peak() {
    let peak = decode(&clock_icon(clock_normal_window(), 600, &clock_status(true)));
    assert!(peak.contains(&format!("fill=\"{PEAK_TEXT_COLOR}\">Peak</text>")));
    let off = render_clock(clock_normal_window(), 600);
    assert!(off.contains(&format!("fill=\"{OFF_PEAK_TEXT_COLOR}\">Off-peak</text>")));
}

#[test]
fn clock_svg_is_the_exact_layout() {
    let window = PeakWindow { start_minutes: 0, end_minutes: 1080 };
    let arc_ends = vec![ArcPoints {
        from: RingPoint { x: "50.00".to_string(), y: "9.00".to_string() },
        to: RingPoint { x: "23.00".to_string(), y: "36.00".to_string() },
    }];
    let pointer = RingPoint { x: "71.00".to_string(), y: "36.00".to_string() };
    let svg = decode(&build_clock_icon(window, &clock_status(true), &pointer, &arc_ends));
    let expected = [
        r##"<svg xmlns="http://www.w3.org/2000/svg" viewBox="0 0 100 100">"##,
        r##"<rect x="0" y="0" width="100" height="100" fill="#111827" />"##,
        r##"<circle cx="50" cy="36" r="27" fill="none" stroke="#4b5563" stroke-width="8" />"##,
        r##"<path d="M 50.00 9.00 A 27 27 0 1 1 23.00 36.00" fill="none" stroke="#ef4444" stroke-width="8" stroke-linecap="round" />"##,
        r##"<line x1="50" y1="36" x2="71.00" y2="36.00" stroke="#f9fafb" stroke-width="4" stroke-linecap="round" />"##,
        r##"<circle cx="50" cy="36" r="4" fill="#f9fafb" />"##,
        r##"<text x="50" y="82" text-anchor="middle" font-family="sans-serif" font-size="17" font-weight="700" fill="#f87171">Peak</text>"##,
        r##"<text x="50" y="97" text-anchor="middle" font-family="sans-serif" font-size="13" font-weight="500" fill="#d1d5db" textLength="94" lengthAdjust="spacingAndGlyphs">peak in 01:00</text>"##,
        "</svg>",
    ]
    .join("");
    assert_eq!(svg, expected);
}

#[test]
fn escaped_text_has_no_angle_brackets_and_reads_back() {
    let escaped = escape_xml("<1m & up > &amp;");
    assert_eq!(escaped, "&lt;1m &amp; up &gt; &amp;amp;");
    assert!(!escaped.contains('<') && !escaped.contains('>'));
    let read_back = escaped
        .replace("&lt;", "<")
        .replace("&gt;", ">")
        .replace("&amp;", "&");
    assert_eq!(read_back, "<1m & up > &amp;");
}
