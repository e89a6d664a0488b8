//! The Metric Tile's icon: a dark rounded card with a short accent bar
//! under the label line (the text itself is the tile's title).
use vstd::prelude::*;
use vstd::string::*;
use crate::tile::{data_uri, svg_data_uri, lemma_data_uri_is_injective};

verus! {

/// The tile's SVG: the card and, 38 units from the left and 24 from the
/// top, a 24-by-3 underline in `accent_color`.
pub open spec fn metric_svg(accent_color: Seq<char>) -> Seq<char> {
    "<svg xmlns=\"http://www.w3.org/2000/svg\" viewBox=\"0 0 100 100\"><rect x=\"0\" y=\"0\" width=\"100\" height=\"100\" rx=\"12\" fill=\"#111827\" /><rect x=\"38\" y=\"24\" width=\"24\" height=\"3\" rx=\"1.5\" fill=\""@
        + accent_color + "\" /></svg>"@
}

/// Renders the tile's SVG for `accent_color`.
pub fn render_svg(accent_color: &str) -> (r: String)
    ensures
        r@ == metric_svg(accent_color@),
{
    let mut s = String::from_str(
        "<svg xmlns=\"http://www.w3.org/2000/svg\" viewBox=\"0 0 100 100\"><rect x=\"0\" y=\"0\" width=\"100\" height=\"100\" rx=\"12\" fill=\"#111827\" /><rect x=\"38\" y=\"24\" width=\"24\" height=\"3\" rx=\"1.5\" fill=\"",
    );
    s.append(accent_color);
    s.append("\" /></svg>");
    s
}

/// Builds the `image` string the tile is sent: the SVG as a base64 data
/// URI.
pub fn build_metric_icon(accent_color: &str) -> (r: String)
    ensures
        r@ == svg_data_uri(metric_svg(accent_color@)),
{
    let svg = render_svg(accent_color);
    data_uri(svg.as_str())
}


/// Different accent colors produce different icons.
pub proof fn lemma_different_accent_colors_give_different_icons(a: Seq<char>, b: Seq<char>)
    requires
        a != b,
    ensures
        svg_data_uri(metric_svg(a)) != svg_data_uri(metric_svg(b)),
{
    let p = "<svg xmlns=\"http://www.w3.org/2000/svg\" viewBox=\"0 0 100 100\"><rect x=\"0\" y=\"0\" width=\"100\" height=\"100\" rx=\"12\" fill=\"#111827\" /><rect x=\"38\" y=\"24\" width=\"24\" height=\"3\" rx=\"1.5\" fill=\""@;
    let q = "\" /></svg>"@;
    if metric_svg(a) == metric_svg(b) {
        assert(metric_svg(a) == p + a + q);
        assert(a.len() == b.len());
        assert((p + a + q).subrange(p.len() as int, (p.len() + a.len()) as int) =~= a);
        assert((p + b + q).subrange(p.len() as int, (p.len() + b.len()) as int) =~= b);
    }
    lemma_data_uri_is_injective(metric_svg(a), metric_svg(b));
}

} // verus!
