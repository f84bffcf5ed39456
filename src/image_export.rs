use vstd::prelude::*;
use vstd::string::*;
use crate::canvas::{Bounds, Element, Point};
use crate::text::{digits, half_text, int_text, push_half, push_int, push_nat};

verus! {

/// The opening `svg` tag for a viewport.
pub open spec fn svg_header(b: Bounds) -> Seq<char> {
    "<svg xmlns=\"http://www.w3.org/2000/svg\" width=\""@ + int_text(b.width as int) + "\" height=\""@
        + int_text(b.height as int) + "\" viewBox=\""@ + int_text(b.x as int) + " "@ + int_text(
        b.y as int,
    ) + " "@ + int_text(b.width as int) + " "@ + int_text(b.height as int) + "\">"@
}

/// Path data of a non-empty polyline: a move to the first point, then a line
/// to each further one.
pub open spec fn path_data(pts: Seq<Point>) -> Seq<char>
    decreases pts.len(),
{
    if pts.len() <= 1 {
        "M "@ + int_text(pts[0].x as int) + " "@ + int_text(pts[0].y as int)
    } else {
        path_data(pts.drop_last()) + " L "@ + int_text(pts.last().x as int) + " "@ + int_text(
            pts.last().y as int,
        )
    }
}

/// Markup of a rectangle.
pub open spec fn rect_svg(x: i32, y: i32, w: i32, h: i32, stroke: Seq<char>, fill: Seq<char>) -> Seq<
    char,
> {
    "<rect x=\""@ + int_text(x as int) + "\" y=\""@ + int_text(y as int) + "\" width=\""@ + int_text(
        w as int,
    ) + "\" height=\""@ + int_text(h as int) + "\" stroke=\""@ + stroke + "\" fill=\""@ + fill
        + "\" />"@
}

/// Markup of an ellipse inscribed in the box at `(x, y)` of size `w` by `h`.
pub open spec fn ellipse_svg(x: i32, y: i32, w: i32, h: i32, stroke: Seq<char>, fill: Seq<char>) -> Seq<
    char,
> {
    "<ellipse cx=\""@ + half_text(2 * x + w) + "\" cy=\""@ + half_text(2 * y + h) + "\" rx=\""@
        + half_text(w as int) + "\" ry=\""@ + half_text(h as int) + "\" stroke=\""@ + stroke
        + "\" fill=\""@ + fill + "\" />"@
}

/// Markup of a polyline; none for a polyline without points.
pub open spec fn line_svg(pts: Seq<Point>, stroke: Seq<char>, stroke_width: u32) -> Seq<char> {
    if pts.len() == 0 {
        Seq::empty()
    } else {
        "<path d=\""@ + path_data(pts) + "\" stroke=\""@ + stroke + "\" stroke-width=\""@ + digits(
            stroke_width as nat,
        ) + "\" fill=\"none\" />"@
    }
}

/// Markup of an arrow, drawn as a line segment.
pub open spec fn arrow_svg(start: Point, end: Point, stroke: Seq<char>, stroke_width: u32) -> Seq<
    char,
> {
    "<line x1=\""@ + int_text(start.x as int) + "\" y1=\""@ + int_text(start.y as int) + "\" x2=\""@
        + int_text(end.x as int) + "\" y2=\""@ + int_text(end.y as int) + "\" stroke=\""@ + stroke
        + "\" stroke-width=\""@ + digits(stroke_width as nat) + "\" />"@
}

/// The SVG markup of one shape.
pub open spec fn element_svg(e: Element) -> Seq<char> {
    match e {
        Element::Rectangle { x, y, width, height, stroke_color, fill_color, .. } => rect_svg(
            x,
            y,
            width,
            height,
            stroke_color@,
            fill_color@,
        ),
        Element::Ellipse { x, y, width, height, stroke_color, fill_color, .. } => ellipse_svg(
            x,
            y,
            width,
            height,
            stroke_color@,
            fill_color@,
        ),
        Element::Line { points, stroke_color, stroke_width, .. } => line_svg(
            points@,
            stroke_color@,
            stroke_width,
        ),
        Element::Arrow { start, end, stroke_color, stroke_width, .. } => arrow_svg(
            start,
            end,
            stroke_color@,
            stroke_width,
        ),
    }
}

/// The markup of each shape in turn.
pub open spec fn elements_svg(es: Seq<Element>) -> Seq<char>
    decreases es.len(),
{
    if es.len() == 0 {
        Seq::empty()
    } else {
        elements_svg(es.drop_last()) + element_svg(es.last())
    }
}

/// A whole SVG document: the viewport's tag, each shape, the closing tag.
pub open spec fn svg_document(es: Seq<Element>, b: Bounds) -> Seq<char> {
    svg_header(b) + elements_svg(es) + "</svg>"@
}

fn push_path_data(out: &mut String, points: &Vec<Point>)
    requires
        points@.len() > 0,
    ensures
        final(out)@ == old(out)@ + path_data(points@),
{
    out.append("M ");
    push_int(out, points[0].x as i64);
    out.append(" ");
    push_int(out, points[0].y as i64);
    assert(path_data(points@.subrange(0, 1)) =~= "M "@ + int_text(points@[0].x as int) + " "@
        + int_text(points@[0].y as int));
    assert(out@ =~= old(out)@ + path_data(points@.subrange(0, 1)));
    let mut i: usize = 1;
    while i < points.len()
        invariant
            1 <= i <= points.len(),
            out@ == old(out)@ + path_data(points@.subrange(0, i as int)),
        decreases points.len() - i,
    {
        out.append(" L ");
        push_int(out, points[i].x as i64);
        out.append(" ");
        push_int(out, points[i].y as i64);
        proof {
            let next = points@.subrange(0, i + 1);
            assert(next.drop_last() =~= points@.subrange(0, i as int));
            assert(next.last() == points@[i as int]);
            assert(out@ =~= old(out)@ + path_data(next));
        }
        i += 1;
    }
    assert(points@.subrange(0, points.len() as int) =~= points@);
}

fn push_rect(out: &mut String, x: i32, y: i32, w: i32, h: i32, stroke: &String, fill: &String)
    ensures
        final(out)@ == old(out)@ + rect_svg(x, y, w, h, stroke@, fill@),
{
    out.append("<rect x=\"");
    push_int(out, x as i64);
    out.append("\" y=\"");
    push_int(out, y as i64);
    out.append("\" width=\"");
    push_int(out, w as i64);
    out.append("\" height=\"");
    push_int(out, h as i64);
    out.append("\" stroke=\"");
    out.append(stroke.as_str());
    out.append("\" fill=\"");
    out.append(fill.as_str());
    out.append("\" />");
    assert(out@ =~= old(out)@ + rect_svg(x, y, w, h, stroke@, fill@));
}

fn push_ellipse(out: &mut String, x: i32, y: i32, w: i32, h: i32, stroke: &String, fill: &String)
    ensures
        final(out)@ == old(out)@ + ellipse_svg(x, y, w, h, stroke@, fill@),
{
    out.append("<ellipse cx=\"");
    push_half(out, 2 * (x as i64) + w as i64);
    out.append("\" cy=\"");
    push_half(out, 2 * (y as i64) + h as i64);
    out.append("\" rx=\"");
    push_half(out, w as i64);
    out.append("\" ry=\"");
    push_half(out, h as i64);
    out.append("\" stroke=\"");
    out.append(stroke.as_str());
    out.append("\" fill=\"");
    out.append(fill.as_str());
    out.append("\" />");
    assert(out@ =~= old(out)@ + ellipse_svg(x, y, w, h, stroke@, fill@));
}

fn push_line(out: &mut String, points: &Vec<Point>, stroke: &String, stroke_width: u32)
    ensures
        final(out)@ == old(out)@ + line_svg(points@, stroke@, stroke_width),
{
    if points.len() > 0 {
        out.append("<path d=\"");
        push_path_data(out, points);
        out.append("\" stroke=\"");
        out.append(stroke.as_str());
        out.append("\" stroke-width=\"");
        push_nat(out, stroke_width as u64);
        out.append("\" fill=\"none\" />");
    }
    assert(out@ =~= old(out)@ + line_svg(points@, stroke@, stroke_width));
}

fn push_arrow(out: &mut String, start: Point, end: Point, stroke: &String, stroke_width: u32)
    ensures
        final(out)@ == old(out)@ + arrow_svg(start, end, stroke@, stroke_width),
{
    out.append("<line x1=\"");
    push_int(out, start.x as i64);
    out.append("\" y1=\"");
    push_int(out, start.y as i64);
    out.append("\" x2=\"");
    push_int(out, end.x as i64);
    out.append("\" y2=\"");
    push_int(out, end.y as i64);
    out.append("\" stroke=\"");
    out.append(stroke.as_str());
    out.append("\" stroke-width=\"");
    push_nat(out, stroke_width as u64);
    out.append("\" />");
    assert(out@ =~= old(out)@ + arrow_svg(start, end, stroke@, stroke_width));
}

fn push_element(out: &mut String, e: &Element)
    ensures
        final(out)@ == old(out)@ + element_svg(*e),
{
    match e {
        Element::Rectangle { x, y, width, height, stroke_color, fill_color, .. } => {
            push_rect(out, *x, *y, *width, *height, stroke_color, fill_color)
        },
        Element::Ellipse { x, y, width, height, stroke_color, fill_color, .. } => {
            push_ellipse(out, *x, *y, *width, *height, stroke_color, fill_color)
        },
        Element::Line { points, stroke_color, stroke_width, .. } => {
            push_line(out, points, stroke_color, *stroke_width)
        },
        Element::Arrow { start, end, stroke_color, stroke_width, .. } => {
            push_arrow(out, *start, *end, stroke_color, *stroke_width)
        },
    }
}

/// An SVG document that draws `elements` in the viewport `bounds`.
pub fn export_svg(elements: Vec<Element>, bounds: Bounds) -> (r: Result<String, String>)
    ensures
        r is Ok,
        r->Ok_0@ == svg_document(elements@, bounds),
{
    let mut svg = String::new();
    svg.append("<svg xmlns=\"http://www.w3.org/2000/svg\" width=\"");
    push_int(&mut svg, bounds.width);
    svg.append("\" height=\"");
    push_int(&mut svg, bounds.height);
    svg.append("\" viewBox=\"");
    push_int(&mut svg, bounds.x);
    svg.append(" ");
    push_int(&mut svg, bounds.y);
    svg.append(" ");
    push_int(&mut svg, bounds.width);
    svg.append(" ");
    push_int(&mut svg, bounds.height);
    svg.append("\">");
    assert(svg@ =~= svg_header(bounds) + elements_svg(elements@.subrange(0, 0)));
    let mut i: usize = 0;
    while i < elements.len()
        invariant
            i <= elements.len(),
            svg@ == svg_header(bounds) + elements_svg(elements@.subrange(0, i as int)),
        decreases elements.len() - i,
    {
        push_element(&mut svg, &elements[i]);
        proof {
            let next = elements@.subrange(0, i + 1);
            assert(next.drop_last() =~= elements@.subrange(0, i as int));
            assert(next.last() == elements@[i as int]);
            assert(svg@ =~= svg_header(bounds) + elements_svg(next));
        }
        i += 1;
    }
    assert(elements@.subrange(0, elements.len() as int) =~= elements@);
    svg.append("</svg>");
    assert(svg@ =~= svg_document(elements@, bounds));
    Ok(svg)
}

/// The PNG encoding of an RGBA image of the given size whose every pixel is
/// `rgba`.
pub uninterp spec fn filled_png(size: (u32, u32), rgba: (u8, u8, u8, u8)) -> Seq<u8>;

/// The character of the standard base64 alphabet for a 6-bit value.
pub open spec fn base64_char(v: int) -> char {
    "ABCDEFGHIJKLMNOPQRSTUVWXYZabcdefghijklmnopqrstuvwxyz0123456789+/"@[v]
}

/// Standard base64 text with padding: each group of three bytes becomes four
/// characters of six bits each; a final group of one or two bytes is padded
/// with `=` to four characters.
pub open spec fn base64_of(b: Seq<u8>) -> Seq<char>
    decreases b.len(),
{
    let x = b[0] as int;
    let y = b[1] as int;
    let z = b[2] as int;
    if b.len() == 0 {
        Seq::empty()
    } else if b.len() == 1 {
        seq![base64_char(x / 4), base64_char((x % 4) * 16), '=', '=']
    } else if b.len() == 2 {
        seq![base64_char(x / 4), base64_char((x % 4) * 16 + y / 16), base64_char((y % 16) * 4), '=']
    } else {
        seq![
            base64_char(x / 4),
            base64_char((x % 4) * 16 + y / 16),
            base64_char((y % 16) * 4 + z / 64),
            base64_char(z % 64),
        ] + base64_of(b.subrange(3, b.len() as int))
    }
}

/// Relies on image's `ImageBuffer::from_pixel` to build an RGBA image filled
/// with one pixel (it panics where 4 * width, or that times height, overflows
/// `usize`) and
/// on `ImageBuffer::write_to` with `ImageFormat::Png` to encode it into
/// memory. The encoding depends on the size and the pixel alone; the PNG
/// encoder refuses a zero width or height and nothing else for 8-bit RGBA.
#[verifier::external_body]
fn encode_filled_png(width: u32, height: u32, red: u8, green: u8, blue: u8, alpha: u8) -> (r: Result<
    Vec<u8>,
    String,
>)
    requires
        4 * (width as int) <= usize::MAX,
        4 * (width as int) * (height as int) <= usize::MAX,
    ensures
        r is Ok ==> r->Ok_0@ == filled_png((width, height), (red, green, blue, alpha)),
        width > 0 && height > 0 ==> r is Ok,
        width == 0 || height == 0 ==> r is Err,
{
    let img = image::ImageBuffer::from_pixel(width, height, image::Rgba([red, green, blue, alpha]));
    let mut buffer: Vec<u8> = Vec::new();
    img.write_to(&mut std::io::Cursor::new(&mut buffer), image::ImageFormat::Png)
        .map_err(|e| e.to_string())?;
    Ok(buffer)
}

/// Relies on base64's `STANDARD.encode`: padded standard base64 of the bytes
/// (it panics where the length of the text, four characters for each started
/// group of three bytes, overflows `usize`).
#[verifier::external_body]
fn encode_base64(bytes: &Vec<u8>) -> (r: String)
    requires
        4 * ((bytes@.len() + 2) / 3) <= usize::MAX,
    ensures
        r@ == base64_of(bytes@),
{
    base64::Engine::encode(&base64::engine::general_purpose::STANDARD, bytes)
}

/// What an export to PNG returns for the outcome of the encoding: a base64
/// data URL of the bytes, or the encoder's message behind a fixed prefix.
pub open spec fn png_export_result(encoded: Result<Seq<u8>, Seq<char>>) -> Result<Seq<char>, Seq<char>> {
    match encoded {
        Ok(bytes) => Ok("data:image/png;base64,"@ + base64_of(bytes)),
        Err(msg) => Err("PNG encoding error: "@ + msg),
    }
}

pub open spec fn result_views(r: Result<String, String>) -> Result<Seq<char>, Seq<char>> {
    match r {
        Ok(s) => Ok(s@),
        Err(s) => Err(s@),
    }
}

/// Turns the outcome of a PNG encoding into the export's result.
pub fn png_data_url(encoded: Result<Vec<u8>, String>) -> (r: Result<String, String>)
    requires
        encoded is Ok ==> 4 * ((encoded->Ok_0@.len() + 2) / 3) <= usize::MAX,
    ensures
        result_views(r) == png_export_result(
            match encoded {
                Ok(b) => Ok(b@),
                Err(m) => Err(m@),
            },
        ),
{
    match encoded {
        Ok(bytes) => {
            let mut url = String::from_str("data:image/png;base64,");
            let text = encode_base64(&bytes);
            url.append(text.as_str());
            Ok(url)
        },
        Err(msg) => {
            let mut err = String::from_str("PNG encoding error: ");
            err.append(msg.as_str());
            Err(err)
        },
    }
}

/// The PNG encoding of an opaque white image of the given size.
pub open spec fn white_png(size: (u32, u32)) -> Seq<u8> {
    filled_png(size, (255u8, 255u8, 255u8, 255u8))
}

/// A white PNG image of `width` by `height` pixels, as a base64 data URL.
/// It succeeds for every non-zero size whose encoding is short enough to be
/// put in base64 text; every failure is reported with the
/// `PNG encoding error: ` prefix.
pub fn export_png(width: u32, height: u32) -> (r: Result<String, String>)
    requires
        4 * (width as int) <= usize::MAX,
        4 * (width as int) * (height as int) <= usize::MAX,
    ensures
        r is Ok ==> r->Ok_0@ == "data:image/png;base64,"@ + base64_of(white_png((width, height))),
        width > 0 && height > 0 && white_png((width, height)).len() <= usize::MAX / 4 ==> r is Ok,
        r is Err ==> (width == 0 || height == 0 || white_png((width, height)).len() > usize::MAX
            / 4),
        r is Err ==> "PNG encoding error: "@.is_prefix_of(r->Err_0@),
{
    let encoded = encode_filled_png(width, height, 255, 255, 255, 255);
    if let Ok(bytes) = &encoded {
        if bytes.len() > usize::MAX / 4 {
            let mut err = String::from_str("PNG encoding error: ");
            err.append("encoded image too large for base64");
            assert(err@.subrange(0, "PNG encoding error: "@.len() as int) =~= "PNG encoding error: "@);
            return Err(err);
        }
    }
    let r = png_data_url(encoded);
    proof {
        if r is Err {
            assert(r->Err_0@.subrange(0, "PNG encoding error: "@.len() as int) =~= "PNG encoding error: "@);
        }
    }
    r
}

} // verus!
