//! Shared pieces of the keypad tiles' generated SVG icons: the dark card
//! background, text lines drawn inside the SVG, and the data URI the icon is
//! sent as.
//!
//! Text is baked into the image rather than sent as the tile's native title
//! because native titles are painted with each key's own font, size and
//! alignment settings on top of the image, which made them hard to read and
//! inconsistent between tiles.
use vstd::prelude::*;
use vstd::string::*;
use vstd::utf8::encode_utf8;
use crate::text::{chars_of, decimal, push_decimal};

verus! {

/// Background of every tile.
pub const CARD_COLOR: &'static str = "#111827";

/// Main text color.
pub const TEXT_COLOR: &'static str = "#f9fafb";

/// Secondary text color.
pub const MUTED_TEXT_COLOR: &'static str = "#d1d5db";

/// Full-bleed dark card, so a tile never depends on the key's configured
/// background color for contrast.
pub fn card() -> (r: String)
    ensures
        r@ == "<rect x=\"0\" y=\"0\" width=\"100\" height=\"100\" fill=\"#111827\" />"@,
{
    String::from_str("<rect x=\"0\" y=\"0\" width=\"100\" height=\"100\" fill=\"#111827\" />")
}

/// The XML escape of one character: `&`, `<` and `>` become entities.
pub open spec fn escape_char(c: char) -> Seq<char> {
    if c == '&' {
        seq!['&', 'a', 'm', 'p', ';']
    } else if c == '<' {
        seq!['&', 'l', 't', ';']
    } else if c == '>' {
        seq!['&', 'g', 't', ';']
    } else {
        seq![c]
    }
}

/// `s` with each character escaped for XML text.
pub open spec fn escape_xml_spec(s: Seq<char>) -> Seq<char>
    decreases s.len(),
{
    if s.len() == 0 {
        seq![]
    } else {
        escape_xml_spec(s.drop_last()) + escape_char(s.last())
    }
}

/// Reads XML text back: `&amp;`, `&lt;` and `&gt;` become the characters
/// they stand for, in one pass from left to right; everything else is kept.
pub open spec fn unescape_xml_spec(t: Seq<char>) -> Seq<char>
    decreases t.len(),
{
    if t.len() == 0 {
        seq![]
    } else if t.len() >= 5 && t.take(5) == seq!['&', 'a', 'm', 'p', ';'] {
        seq!['&'] + unescape_xml_spec(t.skip(5))
    } else if t.len() >= 4 && t.take(4) == seq!['&', 'l', 't', ';'] {
        seq!['<'] + unescape_xml_spec(t.skip(4))
    } else if t.len() >= 4 && t.take(4) == seq!['&', 'g', 't', ';'] {
        seq!['>'] + unescape_xml_spec(t.skip(4))
    } else {
        seq![t[0]] + unescape_xml_spec(t.skip(1))
    }
}

proof fn lemma_escape_concat(a: Seq<char>, b: Seq<char>)
    ensures
        escape_xml_spec(a + b) =~= escape_xml_spec(a) + escape_xml_spec(b),
    decreases b.len(),
{
    if b.len() > 0 {
        assert((a + b).drop_last() =~= a + b.drop_last());
        assert((a + b).last() == b.last());
        lemma_escape_concat(a, b.drop_last());
    } else {
        assert(a + b =~= a);
    }
}

proof fn lemma_unescape_escape(s: Seq<char>)
    ensures
        unescape_xml_spec(escape_xml_spec(s)) =~= s,
    decreases s.len(),
{
    if s.len() > 0 {
        let c = s[0];
        let rest = s.skip(1);
        assert(s =~= seq![c] + rest);
        lemma_escape_concat(seq![c], rest);
        assert(seq![c].drop_last() =~= Seq::<char>::empty());
        assert(seq![c].last() == c);
        assert(escape_xml_spec(Seq::<char>::empty()) =~= Seq::<char>::empty());
        assert(escape_xml_spec(seq![c]) =~= escape_char(c));
        let e = escape_char(c);
        let t = e + escape_xml_spec(rest);
        lemma_unescape_escape(rest);
        assert(t.skip(e.len() as int) =~= escape_xml_spec(rest));
        if c == '&' {
            assert(t.take(5) =~= seq!['&', 'a', 'm', 'p', ';']);
        } else if c == '<' {
            if t.len() >= 5 {
                assert(t.take(5)[1] == 'l');
                assert(t.take(5) != seq!['&', 'a', 'm', 'p', ';']);
            }
            assert(t.take(4) =~= seq!['&', 'l', 't', ';']);
        } else if c == '>' {
            if t.len() >= 5 {
                assert(t.take(5)[1] == 'g');
                assert(t.take(5) != seq!['&', 'a', 'm', 'p', ';']);
            }
            assert(t.take(4) != seq!['&', 'l', 't', ';']) by {
                assert(t.take(4)[1] == 'g');
            }
            assert(t.take(4) =~= seq!['&', 'g', 't', ';']);
        } else {
            assert(t[0] == c);
            if t.len() >= 5 {
                assert(t.take(5)[0] == c);
            }
            if t.len() >= 4 {
                assert(t.take(4)[0] == c);
            }
        }
        assert(unescape_xml_spec(t) =~= seq![c] + rest);
    }
}

proof fn lemma_escape_has_no_angle_brackets(s: Seq<char>)
    ensures
        forall|i: int|
            0 <= i < escape_xml_spec(s).len() ==> #[trigger] escape_xml_spec(s)[i] != '<'
                && escape_xml_spec(s)[i] != '>',
    decreases s.len(),
{
    if s.len() > 0 {
        lemma_escape_has_no_angle_brackets(s.drop_last());
        let a = escape_xml_spec(s.drop_last());
        let e = escape_char(s.last());
        assert forall|i: int| 0 <= i < escape_xml_spec(s).len() implies #[trigger] escape_xml_spec(
            s,
        )[i] != '<' && escape_xml_spec(s)[i] != '>' by {
            if i < a.len() {
                assert(escape_xml_spec(s)[i] == a[i]);
            } else {
                assert(escape_xml_spec(s)[i] == e[i - a.len()]);
            }
        }
    }
}

/// Escaped text holds no `<` or `>`, and reading it back (decoding `&amp;`,
/// `&lt;` and `&gt;` from left to right) gives the original text: nothing is
/// lost or escaped twice.
pub proof fn lemma_escape_xml_is_reversible(s: Seq<char>)
    ensures
        forall|i: int|
            0 <= i < escape_xml_spec(s).len() ==> #[trigger] escape_xml_spec(s)[i] != '<'
                && escape_xml_spec(s)[i] != '>',
        unescape_xml_spec(escape_xml_spec(s)) == s,
{
    lemma_escape_has_no_angle_brackets(s);
    lemma_unescape_escape(s);
}

/// Escapes `&`, `<` and `>` for use as XML text.
pub fn escape_xml(s: &str) -> (r: String)
    ensures
        r@ == escape_xml_spec(s@),
{
    let cs = chars_of(s);
    let mut out = String::new();
    let mut i: usize = 0;
    assert(cs@.take(0) =~= Seq::<char>::empty());
    while i < cs.len()
        invariant
            i <= cs@.len(),
            out@ == escape_xml_spec(cs@.take(i as int)),
        decreases cs@.len() - i,
    {
        let c = cs[i];
        if c == '&' {
            out.append("&amp;");
        } else if c == '<' {
            out.append("&lt;");
        } else if c == '>' {
            out.append("&gt;");
        } else {
            out.push(c);
        }
        proof {
            reveal_strlit("&amp;");
            reveal_strlit("&lt;");
            reveal_strlit("&gt;");
            assert(cs@.take(i + 1).drop_last() =~= cs@.take(i as int));
            assert(out@ =~= escape_xml_spec(cs@.take(i + 1)));
        }
        i = i + 1;
    }
    assert(cs@.take(cs@.len() as int) =~= cs@);
    out
}

/// Whether a line of `count` characters at font size `size` is estimated
/// wider than the 94 units a line may take. The average glyph is taken as
/// 0.64 of the font size in bold and 0.58 otherwise (a slight overestimate,
/// the safe side).
pub open spec fn needs_squeeze(count: nat, size: nat, bold: bool) -> bool {
    if bold {
        count * size * 64 > 9400
    } else {
        count * size * 58 > 9400
    }
}

/// The `<text>` element for one line.
pub open spec fn text_line_spec(
    y: nat,
    size: nat,
    bold: bool,
    color: Seq<char>,
    content: Seq<char>,
) -> Seq<char> {
    "<text x=\"50\" y=\""@ + decimal(y) + "\" text-anchor=\"middle\" font-family=\"sans-serif\" font-size=\""@
        + decimal(size) + "\" font-weight=\""@ + (if bold {
        "700"@
    } else {
        "500"@
    }) + "\" fill=\""@ + color + "\""@ + (if needs_squeeze(content.len(), size, bold) {
        " textLength=\"94\" lengthAdjust=\"spacingAndGlyphs\""@
    } else {
        Seq::<char>::empty()
    }) + ">"@ + escape_xml_spec(content) + "</text>"@
}

/// One horizontally centered text line with its baseline at `y`, in
/// viewBox units. A line estimated wider than the key is squeezed to fit
/// with `textLength` rather than clipped.
pub fn text_line(y: u32, size: u32, bold: bool, color: &str, content: &str) -> (r: String)
    ensures
        r@ == text_line_spec(y as nat, size as nat, bold, color@, content@),
{
    let count = content.unicode_len() as u128;
    let width: u128 = if bold {
        64
    } else {
        58
    };
    proof {
        vstd::arithmetic::mul::lemma_mul_upper_bound(
            count as int,
            u64::MAX as int,
            size as int,
            u32::MAX as int,
        );
    }
    let squeeze = count * (size as u128) * width > 9400;
    let mut s = String::from_str("<text x=\"50\" y=\"");
    push_decimal(&mut s, y as u64);
    s.append("\" text-anchor=\"middle\" font-family=\"sans-serif\" font-size=\"");
    push_decimal(&mut s, size as u64);
    s.append("\" font-weight=\"");
    if bold {
        s.append("700");
    } else {
        s.append("500");
    }
    s.append("\" fill=\"");
    s.append(color);
    s.append("\"");
    if squeeze {
        s.append(" textLength=\"94\" lengthAdjust=\"spacingAndGlyphs\"");
    }
    s.append(">");
    let escaped = escape_xml(content);
    s.append(escaped.as_str());
    s.append("</text>");
    assert(s@ =~= text_line_spec(y as nat, size as nat, bold, color@, content@));
    s
}

/// The base64 digit for a 6-bit value (standard alphabet).
pub open spec fn base64_digit(v: int) -> char {
    if v < 26 {
        (65 + v) as char
    } else if v < 52 {
        (97 + v - 26) as char
    } else if v < 62 {
        (48 + v - 52) as char
    } else if v == 62 {
        '+'
    } else {
        '/'
    }
}

/// Standard base64 with `=` padding: each group of three bytes becomes four
/// digits; a final group of one or two bytes is padded to four.
pub open spec fn base64_spec(b: Seq<u8>) -> Seq<char>
    decreases b.len(),
{
    let b0 = b[0] as int;
    let b1 = b[1] as int;
    let b2 = b[2] as int;
    if b.len() == 0 {
        seq![]
    } else if b.len() == 1 {
        seq![base64_digit(b0 / 4), base64_digit((b0 % 4) * 16), '=', '=']
    } else if b.len() == 2 {
        seq![
            base64_digit(b0 / 4),
            base64_digit((b0 % 4) * 16 + b1 / 16),
            base64_digit((b1 % 16) * 4),
            '=',
        ]
    } else {
        seq![
            base64_digit(b0 / 4),
            base64_digit((b0 % 4) * 16 + b1 / 16),
            base64_digit((b1 % 16) * 4 + b2 / 64),
            base64_digit(b2 % 64),
        ] + base64_spec(b.skip(3))
    }
}

/// Calls the `base64` crate's `STANDARD` engine (standard alphabet, with
/// padding) to encode `bytes`. Claims that the result is the standard
/// base64 text of the bytes.
#[verifier::external_body]
pub(crate) fn base64_encode(bytes: &[u8]) -> (r: String)
    ensures
        r@ == base64_spec(bytes@),
{
    base64::Engine::encode(&base64::engine::general_purpose::STANDARD, bytes)
}

/// The data URI of an SVG: the image is sent inline only when it starts with
/// "data:"; anything else would be taken for a file name in the plugin.
pub open spec fn svg_data_uri(svg: Seq<char>) -> Seq<char> {
    "data:image/svg+xml;base64,"@ + base64_spec(encode_utf8(svg))
}

/// Builds the `image` string that an icon is sent as: a base64 data URI of
/// the SVG's UTF-8 bytes.
pub fn data_uri(svg: &str) -> (r: String)
    ensures
        r@ == svg_data_uri(svg@),
{
    let encoded = base64_encode(svg.as_bytes());
    let mut s = String::from_str("data:image/svg+xml;base64,");
    s.append(encoded.as_str());
    s
}


/// The 6-bit value a base64 digit stands for (-1 for anything else).
pub open spec fn base64_value(c: char) -> int {
    let u = c as u32;
    if 65 <= u <= 90 {
        u - 65
    } else if 97 <= u <= 122 {
        u - 71
    } else if 48 <= u <= 57 {
        u + 4
    } else if u == 43 {
        62
    } else if u == 47 {
        63
    } else {
        -1
    }
}

proof fn lemma_base64_digit(v: int)
    requires
        0 <= v < 64,
    ensures
        base64_value(base64_digit(v)) == v,
        base64_digit(v) != '=',
{
    assert(('=' as u32) == 61);
    if v < 26 {
        assert(((65 + v) as char) as u32 == 65 + v);
    } else if v < 52 {
        assert(((97 + v - 26) as char) as u32 == 97 + v - 26);
    } else if v < 62 {
        assert(((48 + v - 52) as char) as u32 == 48 + v - 52);
    } else {
        assert(('+' as u32) == 43);
        assert(('/' as u32) == 47);
    }
}

proof fn lemma_base64_len(b: Seq<u8>)
    ensures
        base64_spec(b).len() == (if b.len() == 0 {
            0
        } else {
            4 * ((b.len() + 2) / 3)
        }),
    decreases b.len(),
{
    if b.len() >= 3 {
        lemma_base64_len(b.skip(3));
    }
}

proof fn lemma_group_bytes(a0: int, a1: int, a2: int, b0: int, b1: int, b2: int)
    requires
        0 <= a0 < 256,
        0 <= a1 < 256,
        0 <= a2 < 256,
        0 <= b0 < 256,
        0 <= b1 < 256,
        0 <= b2 < 256,
        a0 / 4 == b0 / 4,
        (a0 % 4) * 16 + a1 / 16 == (b0 % 4) * 16 + b1 / 16,
        (a1 % 16) * 4 + a2 / 64 == (b1 % 16) * 4 + b2 / 64,
        a2 % 64 == b2 % 64,
    ensures
        a0 == b0,
        a1 == b1,
        a2 == b2,
{
}

proof fn lemma_base64_injective(x: Seq<u8>, y: Seq<u8>)
    requires
        base64_spec(x) == base64_spec(y),
    ensures
        x == y,
    decreases x.len(),
{
    let e = base64_spec(x);
    lemma_base64_len(x);
    lemma_base64_len(y);
    if x.len() == 0 || y.len() == 0 {
        assert(x.len() == 0 && y.len() == 0);
        assert(x =~= y);
        return;
    }
    let x0 = x[0] as int;
    let x1 = x[1] as int;
    let x2 = x[2] as int;
    let y0 = y[0] as int;
    let y1 = y[1] as int;
    let y2 = y[2] as int;
    lemma_base64_digit(x0 / 4);
    lemma_base64_digit((x0 % 4) * 16 + x1 / 16);
    lemma_base64_digit((x1 % 16) * 4 + x2 / 64);
    lemma_base64_digit(x2 % 64);
    lemma_base64_digit((x0 % 4) * 16);
    lemma_base64_digit((x1 % 16) * 4);
    lemma_base64_digit(y0 / 4);
    lemma_base64_digit((y0 % 4) * 16 + y1 / 16);
    lemma_base64_digit((y1 % 16) * 4 + y2 / 64);
    lemma_base64_digit(y2 % 64);
    lemma_base64_digit((y0 % 4) * 16);
    lemma_base64_digit((y1 % 16) * 4);
    // The padding tells how many bytes the first group holds.
    assert(e[3] == '=' <==> x.len() < 3);
    assert(e[3] == '=' <==> y.len() < 3);
    assert(e[2] == '=' <==> x.len() == 1);
    assert(e[2] == '=' <==> y.len() == 1);
    if x.len() == 1 {
        assert(x0 == y0);
        assert(x =~= y);
    } else if x.len() == 2 {
        assert(x0 / 4 == y0 / 4);
        assert((x0 % 4) * 16 + x1 / 16 == (y0 % 4) * 16 + y1 / 16);
        assert((x1 % 16) * 4 == (y1 % 16) * 4);
        assert(x0 == y0 && x1 == y1);
        assert(x =~= y);
    } else {
        let ex = base64_spec(x);
        let ey = base64_spec(y);
        assert(ex[0] == base64_digit(x0 / 4));
        assert(ey[0] == base64_digit(y0 / 4));
        assert(ex[1] == base64_digit((x0 % 4) * 16 + x1 / 16));
        assert(ey[1] == base64_digit((y0 % 4) * 16 + y1 / 16));
        assert(ex[2] == base64_digit((x1 % 16) * 4 + x2 / 64));
        assert(ey[2] == base64_digit((y1 % 16) * 4 + y2 / 64));
        assert(ex[3] == base64_digit(x2 % 64));
        assert(ey[3] == base64_digit(y2 % 64));
        lemma_group_bytes(x0, x1, x2, y0, y1, y2);
        let rx = base64_spec(x.skip(3));
        let ry = base64_spec(y.skip(3));
        assert(e.skip(4) =~= rx);
        assert(e.skip(4) =~= ry);
        lemma_base64_injective(x.skip(3), y.skip(3));
        assert forall|i: int| 0 <= i < x.len() implies x[i] == y[i] by {
            if i >= 3 {
                assert(x.skip(3)[i - 3] == y.skip(3)[i - 3]);
            }
        }
        assert(x =~= y);
    }
}

/// Different SVGs give different data URIs: both the UTF-8 encoding and
/// base64 keep every difference.
pub proof fn lemma_data_uri_is_injective(a: Seq<char>, b: Seq<char>)
    requires
        a != b,
    ensures
        svg_data_uri(a) != svg_data_uri(b),
{
    broadcast use vstd::utf8::encode_utf8_decode_utf8;

    let p = "data:image/svg+xml;base64,"@;
    if svg_data_uri(a) == svg_data_uri(b) {
        let ea = base64_spec(encode_utf8(a));
        let eb = base64_spec(encode_utf8(b));
        assert((p + ea).skip(p.len() as int) =~= ea);
        assert((p + eb).skip(p.len() as int) =~= eb);
        lemma_base64_injective(encode_utf8(a), encode_utf8(b));
        assert(vstd::utf8::decode_utf8(encode_utf8(a)) == a);
        assert(vstd::utf8::decode_utf8(encode_utf8(b)) == b);
    }
}

} // verus!
