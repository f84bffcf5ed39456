use vstd::prelude::*;
use vstd::string::*;
use crate::text::{digits, push_nat};

verus! {

/// A 2D coordinate.
#[derive(Clone, Copy, Debug, PartialEq, Eq, Structural)]
pub struct Point {
    pub x: i32,
    pub y: i32,
}

/// An axis-aligned box: origin plus width and height.
#[derive(Clone, Copy, Debug, PartialEq, Eq, Structural)]
pub struct Bounds {
    pub x: i64,
    pub y: i64,
    pub width: i64,
    pub height: i64,
}

/// A drawable shape. `angle` is kept for the caller; no geometry here uses it.
#[derive(Clone, Debug)]
pub enum Element {
    Rectangle {
        id: String,
        x: i32,
        y: i32,
        width: i32,
        height: i32,
        angle: i32,
        stroke_color: String,
        fill_color: String,
    },
    Ellipse {
        id: String,
        x: i32,
        y: i32,
        width: i32,
        height: i32,
        angle: i32,
        stroke_color: String,
        fill_color: String,
    },
    Line { id: String, points: Vec<Point>, stroke_color: String, stroke_width: u32 },
    Arrow { id: String, start: Point, end: Point, stroke_color: String, stroke_width: u32 },
}

/// The box of zero size at the origin.
pub open spec fn zero_box() -> Bounds {
    Bounds { x: 0, y: 0, width: 0, height: 0 }
}

pub open spec fn min_int(a: int, b: int) -> int {
    if a <= b { a } else { b }
}

pub open spec fn max_int(a: int, b: int) -> int {
    if a >= b { a } else { b }
}

/// Least value of a sequence (0 for the empty one).
pub open spec fn seq_min(s: Seq<int>) -> int
    decreases s.len(),
{
    if s.len() == 0 {
        0
    } else if s.len() == 1 {
        s[0]
    } else {
        min_int(seq_min(s.drop_last()), s.last())
    }
}

/// Greatest value of a sequence (0 for the empty one).
pub open spec fn seq_max(s: Seq<int>) -> int
    decreases s.len(),
{
    if s.len() == 0 {
        0
    } else if s.len() == 1 {
        s[0]
    } else {
        max_int(seq_max(s.drop_last()), s.last())
    }
}

pub open spec fn xs_of(pts: Seq<Point>) -> Seq<int> {
    pts.map_values(|p: Point| p.x as int)
}

pub open spec fn ys_of(pts: Seq<Point>) -> Seq<int> {
    pts.map_values(|p: Point| p.y as int)
}

/// The tightest box around a non-empty set of points; the zero box when
/// there are none.
pub open spec fn points_bounds(pts: Seq<Point>) -> Bounds {
    if pts.len() == 0 {
        zero_box()
    } else {
        Bounds {
            x: seq_min(xs_of(pts)) as i64,
            y: seq_min(ys_of(pts)) as i64,
            width: (seq_max(xs_of(pts)) - seq_min(xs_of(pts))) as i64,
            height: (seq_max(ys_of(pts)) - seq_min(ys_of(pts))) as i64,
        }
    }
}

/// The bounding box of a shape. Rectangles and ellipses give their own
/// footprint, rotation ignored.
pub open spec fn element_bounds(e: Element) -> Bounds {
    match e {
        Element::Rectangle { x, y, width, height, .. } => Bounds {
            x: x as i64,
            y: y as i64,
            width: width as i64,
            height: height as i64,
        },
        Element::Ellipse { x, y, width, height, .. } => Bounds {
            x: x as i64,
            y: y as i64,
            width: width as i64,
            height: height as i64,
        },
        Element::Line { points, .. } => points_bounds(points@),
        Element::Arrow { start, end, .. } => points_bounds(seq![start, end]),
    }
}

pub proof fn lemma_seq_min_max_props(s: Seq<int>)
    requires
        s.len() > 0,
    ensures
        forall|i: int| 0 <= i < s.len() ==> seq_min(s) <= #[trigger] s[i] <= seq_max(s),
        exists|i: int| 0 <= i < s.len() && seq_min(s) == s[i],
        exists|i: int| 0 <= i < s.len() && seq_max(s) == s[i],
    decreases s.len(),
{
    if s.len() > 1 {
        lemma_seq_min_max_props(s.drop_last());
        assert forall|i: int| 0 <= i < s.len() implies seq_min(s) <= #[trigger] s[i] <= seq_max(s) by {
            if i < s.len() - 1 {
                assert(s[i] == s.drop_last()[i]);
            }
        }
        let j = choose|j: int| 0 <= j < s.drop_last().len() && seq_min(s.drop_last()) == s.drop_last()[j];
        let k = choose|k: int| 0 <= k < s.drop_last().len() && seq_max(s.drop_last()) == s.drop_last()[k];
        if seq_min(s) != s.last() {
            assert(seq_min(s) == s[j]);
        } else {
            assert(seq_min(s) == s[s.len() - 1]);
        }
        if seq_max(s) != s.last() {
            assert(seq_max(s) == s[k]);
        } else {
            assert(seq_max(s) == s[s.len() - 1]);
        }
    } else {
        assert(seq_min(s) == s[0]);
    }
}

/// Each coordinate of a point set's box fits the point type, and its size is
/// never negative.
pub proof fn lemma_points_bounds_range(pts: Seq<Point>)
    ensures
        pts.len() > 0 ==> {
            &&& i32::MIN <= seq_min(xs_of(pts)) <= seq_max(xs_of(pts)) <= i32::MAX
            &&& i32::MIN <= seq_min(ys_of(pts)) <= seq_max(ys_of(pts)) <= i32::MAX
        },
        points_bounds(pts).width >= 0,
        points_bounds(pts).height >= 0,
{
    if pts.len() > 0 {
        lemma_seq_min_max_props(xs_of(pts));
        lemma_seq_min_max_props(ys_of(pts));
        assert(xs_of(pts)[0] == pts[0].x);
        let a = choose|i: int| 0 <= i < xs_of(pts).len() && seq_min(xs_of(pts)) == xs_of(pts)[i];
        let b = choose|i: int| 0 <= i < xs_of(pts).len() && seq_max(xs_of(pts)) == xs_of(pts)[i];
        let c = choose|i: int| 0 <= i < ys_of(pts).len() && seq_min(ys_of(pts)) == ys_of(pts)[i];
        let d = choose|i: int| 0 <= i < ys_of(pts).len() && seq_max(ys_of(pts)) == ys_of(pts)[i];
        assert(xs_of(pts)[a] == pts[a].x);
        assert(xs_of(pts)[b] == pts[b].x);
        assert(ys_of(pts)[c] == pts[c].y);
        assert(ys_of(pts)[d] == pts[d].y);
        assert(seq_min(xs_of(pts)) <= xs_of(pts)[0] <= seq_max(xs_of(pts)));
        assert(seq_min(ys_of(pts)) <= ys_of(pts)[0] <= seq_max(ys_of(pts)));
    }
}

/// The box of every shape has coordinates in the range of the point type and
/// sizes below 2^32 in magnitude.
pub proof fn lemma_element_bounds_range(e: Element)
    ensures
        i32::MIN <= element_bounds(e).x <= i32::MAX,
        i32::MIN <= element_bounds(e).y <= i32::MAX,
        -0x1_0000_0000 < element_bounds(e).width < 0x1_0000_0000,
        -0x1_0000_0000 < element_bounds(e).height < 0x1_0000_0000,
{
    match e {
        Element::Line { points, .. } => lemma_points_bounds_range(points@),
        Element::Arrow { start, end, .. } => lemma_points_bounds_range(seq![start, end]),
        _ => {},
    }
}

impl Element {
    /// The bounding box of this shape.
    pub fn get_bounds(&self) -> (r: Bounds)
        ensures
            r == element_bounds(*self),
    {
        match self {
            Element::Rectangle { x, y, width, height, .. } => Bounds {
                x: *x as i64,
                y: *y as i64,
                width: *width as i64,
                height: *height as i64,
            },
            Element::Ellipse { x, y, width, height, .. } => Bounds {
                x: *x as i64,
                y: *y as i64,
                width: *width as i64,
                height: *height as i64,
            },
            Element::Line { points, .. } => points_box(points),
            Element::Arrow { start, end, .. } => pair_box(*start, *end),
        }
    }
}

/// The tightest box around two points.
fn pair_box(start: Point, end: Point) -> (r: Bounds)
    ensures
        r == points_bounds(seq![start, end]),
{
    let min_x: i32 = if start.x <= end.x { start.x } else { end.x };
    let max_x: i32 = if start.x >= end.x { start.x } else { end.x };
    let min_y: i32 = if start.y <= end.y { start.y } else { end.y };
    let max_y: i32 = if start.y >= end.y { start.y } else { end.y };
    proof {
        let pts = seq![start, end];
        assert(xs_of(pts).drop_last() =~= seq![start.x as int]);
        assert(ys_of(pts).drop_last() =~= seq![start.y as int]);
        assert(seq_min(seq![start.x as int]) == start.x);
        assert(seq_max(seq![start.x as int]) == start.x);
        assert(seq_min(seq![start.y as int]) == start.y);
        assert(seq_max(seq![start.y as int]) == start.y);
        assert(xs_of(pts).last() == end.x && ys_of(pts).last() == end.y);
    }
    Bounds {
        x: min_x as i64,
        y: min_y as i64,
        width: max_x as i64 - min_x as i64,
        height: max_y as i64 - min_y as i64,
    }
}

/// The tightest box around `points`; the zero box when there are none.
fn points_box(points: &Vec<Point>) -> (r: Bounds)
    ensures
        r == points_bounds(points@),
{
    if points.len() == 0 {
        return Bounds { x: 0, y: 0, width: 0, height: 0 };
    }
    let mut min_x: i32 = points[0].x;
    let mut max_x: i32 = points[0].x;
    let mut min_y: i32 = points[0].y;
    let mut max_y: i32 = points[0].y;
    let mut i: usize = 1;
    assert(xs_of(points@.subrange(0, 1)) =~= seq![points@[0].x as int]);
    assert(ys_of(points@.subrange(0, 1)) =~= seq![points@[0].y as int]);
    while i < points.len()
        invariant
            1 <= i <= points.len(),
            min_x == seq_min(xs_of(points@.subrange(0, i as int))),
            max_x == seq_max(xs_of(points@.subrange(0, i as int))),
            min_y == seq_min(ys_of(points@.subrange(0, i as int))),
            max_y == seq_max(ys_of(points@.subrange(0, i as int))),
        decreases points.len() - i,
    {
        let p = points[i];
        if p.x < min_x {
            min_x = p.x;
        }
        if p.x > max_x {
            max_x = p.x;
        }
        if p.y < min_y {
            min_y = p.y;
        }
        if p.y > max_y {
            max_y = p.y;
        }
        proof {
            let prev = points@.subrange(0, i as int);
            let next = points@.subrange(0, i + 1);
            assert(xs_of(next).drop_last() =~= xs_of(prev));
            assert(ys_of(next).drop_last() =~= ys_of(prev));
            assert(xs_of(next).last() == p.x);
            assert(ys_of(next).last() == p.y);
        }
        i += 1;
    }
    assert(points@.subrange(0, points.len() as int) =~= points@);
    Bounds {
        x: min_x as i64,
        y: min_y as i64,
        width: max_x as i64 - min_x as i64,
        height: max_y as i64 - min_y as i64,
    }
}

pub open spec fn lefts(es: Seq<Element>) -> Seq<int> {
    es.map_values(|e: Element| element_bounds(e).x as int)
}

pub open spec fn tops(es: Seq<Element>) -> Seq<int> {
    es.map_values(|e: Element| element_bounds(e).y as int)
}

pub open spec fn rights(es: Seq<Element>) -> Seq<int> {
    es.map_values(|e: Element| element_bounds(e).x + element_bounds(e).width)
}

pub open spec fn bottoms(es: Seq<Element>) -> Seq<int> {
    es.map_values(|e: Element| element_bounds(e).y + element_bounds(e).height)
}

/// The union box of the boxes of all shapes; the zero box when there are none.
pub open spec fn aggregate_bounds(es: Seq<Element>) -> Bounds {
    if es.len() == 0 {
        zero_box()
    } else {
        Bounds {
            x: seq_min(lefts(es)) as i64,
            y: seq_min(tops(es)) as i64,
            width: (seq_max(rights(es)) - seq_min(lefts(es))) as i64,
            height: (seq_max(bottoms(es)) - seq_min(tops(es))) as i64,
        }
    }
}

/// `outer` spans both edges of `inner` on each axis: for boxes of
/// non-negative size, `inner` lies entirely within `outer`.
pub open spec fn encloses(outer: Bounds, inner: Bounds) -> bool {
    &&& outer.x <= inner.x
    &&& inner.x + inner.width <= outer.x + outer.width
    &&& outer.y <= inner.y
    &&& inner.y + inner.height <= outer.y + outer.height
}

proof fn lemma_seq_extremes_within(s: Seq<int>, lo: int, hi: int)
    requires
        s.len() > 0,
        forall|i: int| 0 <= i < s.len() ==> lo <= #[trigger] s[i] <= hi,
    ensures
        lo <= seq_min(s) <= hi,
        lo <= seq_max(s) <= hi,
{
    lemma_seq_min_max_props(s);
    let a = choose|i: int| 0 <= i < s.len() && seq_min(s) == s[i];
    let b = choose|i: int| 0 <= i < s.len() && seq_max(s) == s[i];
    assert(lo <= s[a] <= hi);
    assert(lo <= s[b] <= hi);
}

proof fn lemma_aggregate_parts_range(es: Seq<Element>)
    requires
        es.len() > 0,
    ensures
        i32::MIN <= seq_min(lefts(es)) <= i32::MAX,
        i32::MIN <= seq_min(tops(es)) <= i32::MAX,
        -0x2_0000_0000 < seq_max(rights(es)) < 0x2_0000_0000,
        -0x2_0000_0000 < seq_max(bottoms(es)) < 0x2_0000_0000,
{
    assert forall|i: int| 0 <= i < es.len() implies i32::MIN <= #[trigger] lefts(es)[i] <= i32::MAX by {
        lemma_element_bounds_range(es[i]);
    }
    assert forall|i: int| 0 <= i < es.len() implies i32::MIN <= #[trigger] tops(es)[i] <= i32::MAX by {
        lemma_element_bounds_range(es[i]);
    }
    assert forall|i: int| 0 <= i < es.len() implies -0x2_0000_0000 < #[trigger] rights(es)[i] < 0x2_0000_0000 by {
        lemma_element_bounds_range(es[i]);
    }
    assert forall|i: int| 0 <= i < es.len() implies -0x2_0000_0000 < #[trigger] bottoms(es)[i] < 0x2_0000_0000 by {
        lemma_element_bounds_range(es[i]);
    }
    lemma_seq_extremes_within(lefts(es), i32::MIN as int, i32::MAX as int);
    lemma_seq_extremes_within(tops(es), i32::MIN as int, i32::MAX as int);
    lemma_seq_extremes_within(rights(es), -0x2_0000_0000 + 1, 0x2_0000_0000 - 1);
    lemma_seq_extremes_within(bottoms(es), -0x2_0000_0000 + 1, 0x2_0000_0000 - 1);
}

/// The aggregate box of a collection encloses the box of each of its shapes.
pub proof fn lemma_aggregate_encloses_each(es: Seq<Element>, i: int)
    requires
        0 <= i < es.len(),
    ensures
        encloses(aggregate_bounds(es), element_bounds(es[i])),
{
    lemma_aggregate_parts_range(es);
    lemma_seq_min_max_props(lefts(es));
    lemma_seq_min_max_props(tops(es));
    lemma_seq_min_max_props(rights(es));
    lemma_seq_min_max_props(bottoms(es));
    assert(lefts(es)[i] == element_bounds(es[i]).x);
    assert(tops(es)[i] == element_bounds(es[i]).y);
    assert(rights(es)[i] == element_bounds(es[i]).x + element_bounds(es[i]).width);
    assert(bottoms(es)[i] == element_bounds(es[i]).y + element_bounds(es[i]).height);
}

/// The aggregate box of two shapes encloses the box of each of them.
pub proof fn lemma_aggregate_encloses_pair(a: Element, b: Element)
    ensures
        encloses(aggregate_bounds(seq![a, b]), element_bounds(a)),
        encloses(aggregate_bounds(seq![a, b]), element_bounds(b)),
{
    lemma_aggregate_encloses_each(seq![a, b], 0);
    lemma_aggregate_encloses_each(seq![a, b], 1);
}

/// The box of a polyline or an arrow never has a negative width or height.
pub proof fn lemma_line_arrow_size_nonnegative(e: Element)
    requires
        e is Line || e is Arrow,
    ensures
        element_bounds(e).width >= 0,
        element_bounds(e).height >= 0,
{
    lemma_element_bounds_range(e);
    match e {
        Element::Line { points, .. } => lemma_points_bounds_range(points@),
        Element::Arrow { start, end, .. } => lemma_points_bounds_range(seq![start, end]),
        _ => {},
    }
}

/// A polyline without points has the zero box.
pub proof fn lemma_empty_line_zero_box(e: Element)
    requires
        e is Line,
        e->points@.len() == 0,
    ensures
        element_bounds(e) == zero_box(),
{
}

/// The union box of all shapes' boxes; the zero box when there are none.
pub fn calculate_bounds(elements: Vec<Element>) -> (r: Result<Bounds, String>)
    ensures
        r == Ok::<Bounds, String>(aggregate_bounds(elements@)),
{
    if elements.len() == 0 {
        return Ok(Bounds { x: 0, y: 0, width: 0, height: 0 });
    }
    let first = elements[0].get_bounds();
    proof {
        lemma_element_bounds_range(elements@[0]);
    }
    let mut min_x: i64 = first.x;
    let mut min_y: i64 = first.y;
    let mut max_x: i64 = first.x + first.width;
    let mut max_y: i64 = first.y + first.height;
    let mut i: usize = 1;
    proof {
        let one = elements@.subrange(0, 1);
        assert(lefts(one) =~= seq![first.x as int]);
        assert(tops(one) =~= seq![first.y as int]);
        assert(rights(one) =~= seq![first.x + first.width]);
        assert(bottoms(one) =~= seq![first.y + first.height]);
    }
    while i < elements.len()
        invariant
            1 <= i <= elements.len(),
            min_x == seq_min(lefts(elements@.subrange(0, i as int))),
            min_y == seq_min(tops(elements@.subrange(0, i as int))),
            max_x == seq_max(rights(elements@.subrange(0, i as int))),
            max_y == seq_max(bottoms(elements@.subrange(0, i as int))),
        decreases elements.len() - i,
    {
        let b = elements[i].get_bounds();
        proof {
            lemma_element_bounds_range(elements@[i as int]);
        }
        let right: i64 = b.x + b.width;
        let bottom: i64 = b.y + b.height;
        if b.x < min_x {
            min_x = b.x;
        }
        if b.y < min_y {
            min_y = b.y;
        }
        if right > max_x {
            max_x = right;
        }
        if bottom > max_y {
            max_y = bottom;
        }
        proof {
            let prev = elements@.subrange(0, i as int);
            let next = elements@.subrange(0, i + 1);
            assert(lefts(next).drop_last() =~= lefts(prev));
            assert(tops(next).drop_last() =~= tops(prev));
            assert(rights(next).drop_last() =~= rights(prev));
            assert(bottoms(next).drop_last() =~= bottoms(prev));
            assert(next.last() == elements@[i as int]);
        }
        i += 1;
    }
    proof {
        assert(elements@.subrange(0, elements.len() as int) =~= elements@);
        lemma_aggregate_parts_range(elements@);
    }
    Ok(Bounds { x: min_x, y: min_y, width: max_x - min_x, height: max_y - min_y })
}

/// The report of a render pass over `n` shapes.
pub open spec fn render_report(n: nat) -> Seq<char> {
    "Rendered "@ + digits(n) + " elements"@
}

/// Takes a collection of shapes for rendering and reports how many there were.
pub fn render_elements(elements: Vec<Element>) -> (r: Result<String, String>)
    ensures
        r is Ok,
        r->Ok_0@ == render_report(elements@.len()),
{
    let mut report = String::from_str("Rendered ");
    push_nat(&mut report, elements.len() as u64);
    report.append(" elements");
    Ok(report)
}

} // verus!
