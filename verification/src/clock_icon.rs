//! The Peak Clock tile's icon: a 24-hour ring with the peak window marked in
//! red, a pointer at the current time, and the status and countdown lines.
//! Where on the ring a minute lands is trigonometry, done by the caller; this
//! module decides which spans are peak, and assembles the SVG around the
//! points it is given.
use vstd::prelude::*;
use vstd::string::*;
use crate::peak::{PeakStatus, PeakWindow};
use crate::tile::{card, data_uri, svg_data_uri, text_line, text_line_spec, MUTED_TEXT_COLOR};

verus! {

/// Color of the status line while peak.
pub const PEAK_TEXT_COLOR: &'static str = "#f87171";

/// Color of the status line while off-peak.
pub const OFF_PEAK_TEXT_COLOR: &'static str = "#4ade80";

/// One red arc on the 24-hour ring, from `start` to `end` minutes, and
/// whether it is longer than half the ring (SVG's large-arc flag).
#[derive(Debug, Clone, Copy, PartialEq, Eq, Structural)]
pub struct ArcSpan {
    pub start: u32,
    pub end: u32,
    pub large_arc: bool,
}

/// The arc over `start..end`.
pub open spec fn arc(start: int, end: int) -> ArcSpan {
    ArcSpan { start: start as u32, end: end as u32, large_arc: end - start > 720 }
}

/// The arcs that mark a window on the ring: one for a window within the
/// day, two when it crosses midnight (a single arc command cannot jump from
/// the end of the day back to 0), and none for an empty span.
pub open spec fn arc_spans_spec(window: PeakWindow) -> Seq<ArcSpan> {
    let start = window.start_minutes as int;
    let end = window.end_minutes as int;
    if start <= end {
        if start == end {
            seq![]
        } else {
            seq![arc(start, end)]
        }
    } else {
        (if start == 1440 {
            Seq::<ArcSpan>::empty()
        } else {
            seq![arc(start, 1440)]
        }) + (if end == 0 {
            Seq::<ArcSpan>::empty()
        } else {
            seq![arc(0, end)]
        })
    }
}

/// The arcs that mark `window` on the ring.
pub fn peak_arc_spans(window: PeakWindow) -> (r: Vec<ArcSpan>)
    requires
        window.start_minutes > window.end_minutes ==> window.start_minutes <= 1440,
    ensures
        r@ == arc_spans_spec(window),
{
    let start = window.start_minutes;
    let end = window.end_minutes;
    let mut spans: Vec<ArcSpan> = Vec::new();
    if start <= end {
        if start != end {
            spans.push(ArcSpan { start, end, large_arc: end - start > 720 });
        }
    } else {
        if start != 1440 {
            spans.push(ArcSpan { start, end: 1440, large_arc: 1440 - start > 720 });
        }
        if end != 0 {
            spans.push(ArcSpan { start: 0, end, large_arc: end > 720 });
        }
    }
    assert(spans@ =~= arc_spans_spec(window));
    spans
}

/// The status line is red while peak and green while off-peak, so the state
/// reads at a glance.
pub fn status_color(is_peak: bool) -> (r: &'static str)
    ensures
        r@ == (if is_peak {
            PEAK_TEXT_COLOR@
        } else {
            OFF_PEAK_TEXT_COLOR@
        }),
{
    if is_peak {
        PEAK_TEXT_COLOR
    } else {
        OFF_PEAK_TEXT_COLOR
    }
}

/// A point on the clock face, as the SVG text of its two coordinates.
#[derive(Debug, Clone, PartialEq, Eq)]
pub struct RingPoint {
    pub x: String,
    pub y: String,
}

/// Where one peak arc starts and ends on the ring.
#[derive(Debug, Clone, PartialEq, Eq)]
pub struct ArcPoints {
    pub from: RingPoint,
    pub to: RingPoint,
}

/// The red stroke along the ring for one arc.
pub open spec fn arc_path_spec(span: ArcSpan, ends: ArcPoints) -> Seq<char> {
    "<path d=\"M "@ + ends.from.x@ + " "@ + ends.from.y@ + " A 27 27 0 "@ + (if span.large_arc {
        "1"@
    } else {
        "0"@
    }) + " 1 "@ + ends.to.x@ + " "@ + ends.to.y@
        + "\" fill=\"none\" stroke=\"#ef4444\" stroke-width=\"8\" stroke-linecap=\"round\" />"@
}

/// The strokes for the first `n` arcs, in order.
pub open spec fn arc_paths_spec(spans: Seq<ArcSpan>, ends: Seq<ArcPoints>, n: nat) -> Seq<char>
    decreases n,
{
    if n == 0 {
        seq![]
    } else {
        arc_paths_spec(spans, ends, (n - 1) as nat) + arc_path_spec(spans[n - 1], ends[n - 1])
    }
}

/// The tile's SVG: the card, the grey ring, a red stroke per peak arc, the
/// pointer from the center to `pointer`, the pivot, then the status line
/// (bold, red while peak and green otherwise) and the countdown line.
pub open spec fn clock_svg(
    window: PeakWindow,
    status: PeakStatus,
    pointer: RingPoint,
    arc_ends: Seq<ArcPoints>,
) -> Seq<char> {
    let spans = arc_spans_spec(window);
    "<svg xmlns=\"http://www.w3.org/2000/svg\" viewBox=\"0 0 100 100\">"@
        + "<rect x=\"0\" y=\"0\" width=\"100\" height=\"100\" fill=\"#111827\" />"@
        + "<circle cx=\"50\" cy=\"36\" r=\"27\" fill=\"none\" stroke=\"#4b5563\" stroke-width=\"8\" />"@
        + arc_paths_spec(spans, arc_ends, spans.len()) + "<line x1=\"50\" y1=\"36\" x2=\""@
        + pointer.x@ + "\" y2=\""@ + pointer.y@
        + "\" stroke=\"#f9fafb\" stroke-width=\"4\" stroke-linecap=\"round\" />"@
        + "<circle cx=\"50\" cy=\"36\" r=\"4\" fill=\"#f9fafb\" />"@ + text_line_spec(
        82,
        17,
        true,
        if status.is_peak {
            PEAK_TEXT_COLOR@
        } else {
            OFF_PEAK_TEXT_COLOR@
        },
        status.status_text@,
    ) + text_line_spec(97, 13, false, MUTED_TEXT_COLOR@, status.countdown_text@) + "</svg>"@
}

/// Appends the stroke for one arc.
fn push_arc_path(s: &mut String, span: ArcSpan, ends: &ArcPoints)
    ensures
        final(s)@ == old(s)@ + arc_path_spec(span, *ends),
{
    s.append("<path d=\"M ");
    s.append(ends.from.x.as_str());
    s.append(" ");
    s.append(ends.from.y.as_str());
    s.append(" A 27 27 0 ");
    if span.large_arc {
        s.append("1");
    } else {
        s.append("0");
    }
    s.append(" 1 ");
    s.append(ends.to.x.as_str());
    s.append(" ");
    s.append(ends.to.y.as_str());
    s.append(
        "\" fill=\"none\" stroke=\"#ef4444\" stroke-width=\"8\" stroke-linecap=\"round\" />",
    );
    assert(s@ =~= old(s)@ + arc_path_spec(span, *ends));
}

/// Renders the tile's SVG. `arc_ends` holds the ring points of the arcs that
/// `peak_arc_spans` gives for `window`, in the same order; `pointer` is the
/// pointer's tip at the current minute.
pub fn render_svg(window: PeakWindow, status: &PeakStatus, pointer: &RingPoint, arc_ends: &[ArcPoints]) -> (r: String)
    requires
        window.start_minutes > window.end_minutes ==> window.start_minutes <= 1440,
        arc_ends@.len() == arc_spans_spec(window).len(),
    ensures
        r@ == clock_svg(window, *status, *pointer, arc_ends@),
{
    let spans = peak_arc_spans(window);
    let mut s = String::from_str("<svg xmlns=\"http://www.w3.org/2000/svg\" viewBox=\"0 0 100 100\">");
    let bg = card();
    s.append(bg.as_str());
    s.append(
        "<circle cx=\"50\" cy=\"36\" r=\"27\" fill=\"none\" stroke=\"#4b5563\" stroke-width=\"8\" />",
    );
    let ghost head = s@;
    let mut i: usize = 0;
    while i < spans.len()
        invariant
            spans@ == arc_spans_spec(window),
            arc_ends@.len() == spans@.len(),
            i <= spans@.len(),
            s@ == head + arc_paths_spec(spans@, arc_ends@, i as nat),
        decreases spans@.len() - i,
    {
        push_arc_path(&mut s, spans[i], &arc_ends[i]);
        proof {
            assert(s@ =~= head + arc_paths_spec(spans@, arc_ends@, (i + 1) as nat));
        }
        i = i + 1;
    }
    s.append("<line x1=\"50\" y1=\"36\" x2=\"");
    s.append(pointer.x.as_str());
    s.append("\" y2=\"");
    s.append(pointer.y.as_str());
    s.append("\" stroke=\"#f9fafb\" stroke-width=\"4\" stroke-linecap=\"round\" />");
    s.append("<circle cx=\"50\" cy=\"36\" r=\"4\" fill=\"#f9fafb\" />");
    let status_line = text_line(82, 17, true, status_color(status.is_peak), status.status_text);
    s.append(status_line.as_str());
    let countdown_line = text_line(97, 13, false, MUTED_TEXT_COLOR, status.countdown_text.as_str());
    s.append(countdown_line.as_str());
    s.append("</svg>");
    assert(s@ =~= clock_svg(window, *status, *pointer, arc_ends@));
    s
}

/// Builds the `image` string the tile is sent: its SVG as a base64 data URI.
pub fn build_clock_icon(
    window: PeakWindow,
    status: &PeakStatus,
    pointer: &RingPoint,
    arc_ends: &[ArcPoints],
) -> (r: String)
    requires
        window.start_minutes > window.end_minutes ==> window.start_minutes <= 1440,
        arc_ends@.len() == arc_spans_spec(window).len(),
    ensures
        r@ == svg_data_uri(clock_svg(window, *status, *pointer, arc_ends@)),
{
    let svg = render_svg(window, status, pointer, arc_ends);
    data_uri(svg.as_str())
}

} // verus!
