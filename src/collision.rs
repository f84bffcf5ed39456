use vstd::prelude::*;
use crate::canvas::{Bounds, Element, Point, element_bounds};

verus! {

/// `p` lies in `b`, edges included.
pub open spec fn point_in_bounds(p: Point, b: Bounds) -> bool {
    &&& b.x <= p.x <= b.x + b.width
    &&& b.y <= p.y <= b.y + b.height
}

/// `p` lies in the box of `e`, edges included.
pub open spec fn point_hits(p: Point, e: Element) -> bool {
    point_in_bounds(p, element_bounds(e))
}

/// The two boxes overlap with positive extent on both axes; boxes that only
/// touch do not.
pub open spec fn boxes_intersect(a: Bounds, b: Bounds) -> bool {
    &&& a.x < b.x + b.width
    &&& a.x + a.width > b.x
    &&& a.y < b.y + b.height
    &&& a.y + a.height > b.y
}

pub open spec fn id_of(e: Element) -> Seq<char> {
    match e {
        Element::Rectangle { id, .. } => id@,
        Element::Ellipse { id, .. } => id@,
        Element::Line { id, .. } => id@,
        Element::Arrow { id, .. } => id@,
    }
}

/// The ids of the shapes that satisfy `pred`, in the order of `es`.
pub open spec fn ids_where(es: Seq<Element>, pred: spec_fn(Element) -> bool) -> Seq<Seq<char>>
    decreases es.len(),
{
    if es.len() == 0 {
        Seq::empty()
    } else {
        let rest = ids_where(es.drop_last(), pred);
        if pred(es.last()) {
            rest.push(id_of(es.last()))
        } else {
            rest
        }
    }
}

/// The ids of the shapes whose box holds `p`.
pub open spec fn hit_ids(p: Point, es: Seq<Element>) -> Seq<Seq<char>> {
    ids_where(es, |e: Element| point_hits(p, e))
}

/// The ids of the shapes whose box overlaps `selection`.
pub open spec fn selected_ids(selection: Bounds, es: Seq<Element>) -> Seq<Seq<char>> {
    ids_where(es, |e: Element| boxes_intersect(selection, element_bounds(e)))
}

pub open spec fn string_views(v: Seq<String>) -> Seq<Seq<char>> {
    v.map_values(|s: String| s@)
}

/// Every shape that satisfies `pred` has its id among the matches.
pub proof fn lemma_ids_where_contains(es: Seq<Element>, pred: spec_fn(Element) -> bool, i: int)
    requires
        0 <= i < es.len(),
        pred(es[i]),
    ensures
        ids_where(es, pred).contains(id_of(es[i])),
    decreases es.len(),
{
    let rest = ids_where(es.drop_last(), pred);
    if i == es.len() - 1 {
        assert(ids_where(es, pred).last() == id_of(es[i]));
    } else {
        assert(es.drop_last()[i] == es[i]);
        lemma_ids_where_contains(es.drop_last(), pred, i);
        let k = choose|k: int| 0 <= k < rest.len() && rest[k] == id_of(es[i]);
        if pred(es.last()) {
            assert(ids_where(es, pred)[k] == rest[k]);
        }
    }
}

/// A shape's box holds its own lower corner and its upper corner, as long as
/// its width and height are not negative; the hit test then reports that
/// shape's id for each of the two points.
pub proof fn lemma_corners_hit(p: Point, es: Seq<Element>, i: int)
    requires
        0 <= i < es.len(),
        element_bounds(es[i]).width >= 0,
        element_bounds(es[i]).height >= 0,
        (p.x == element_bounds(es[i]).x && p.y == element_bounds(es[i]).y) || (p.x
            == element_bounds(es[i]).x + element_bounds(es[i]).width && p.y == element_bounds(
            es[i],
        ).y + element_bounds(es[i]).height),
    ensures
        point_hits(p, es[i]),
        hit_ids(p, es).contains(id_of(es[i])),
{
    lemma_ids_where_contains(es, |e: Element| point_hits(p, e), i);
}

/// Boxes that share only an edge do not intersect.
pub proof fn lemma_touching_boxes_disjoint(a: Bounds, b: Bounds)
    requires
        b.x == a.x + a.width || a.x == b.x + b.width || b.y == a.y + a.height || a.y == b.y
            + b.height,
    ensures
        !boxes_intersect(a, b),
        !boxes_intersect(b, a),
{
}

/// The id of a shape.
fn element_id(e: &Element) -> (r: String)
    ensures
        r@ == id_of(*e),
{
    match e {
        Element::Rectangle { id, .. } => id.clone(),
        Element::Ellipse { id, .. } => id.clone(),
        Element::Line { id, .. } => id.clone(),
        Element::Arrow { id, .. } => id.clone(),
    }
}

/// Whether `point` lies in the box of `element`, edges included.
pub fn point_in_element(point: &Point, element: &Element) -> (r: bool)
    ensures
        r == point_hits(*point, *element),
{
    let bounds = element.get_bounds();
    proof {
        crate::canvas::lemma_element_bounds_range(*element);
    }
    let px = point.x as i64;
    let py = point.y as i64;
    px >= bounds.x && px <= bounds.x + bounds.width && py >= bounds.y && py <= bounds.y
        + bounds.height
}

/// Whether two boxes overlap with positive extent on both axes.
pub fn bounds_intersect(a: &Bounds, b: &Bounds) -> (r: bool)
    ensures
        r == boxes_intersect(*a, *b),
{
    (a.x as i128) < (b.x as i128) + (b.width as i128) && (a.x as i128) + (a.width as i128) > (
    b.x as i128) && (a.y as i128) < (b.y as i128) + (b.height as i128) && (a.y as i128) + (
    a.height as i128) > (b.y as i128)
}

/// The ids of the shapes whose box holds `point`, in the order of `elements`.
pub fn check_collision(point: Point, elements: Vec<Element>) -> (r: Result<Vec<String>, String>)
    ensures
        r is Ok,
        string_views(r->Ok_0@) == hit_ids(point, elements@),
{
    let mut ids: Vec<String> = Vec::new();
    let mut i: usize = 0;
    while i < elements.len()
        invariant
            i <= elements.len(),
            string_views(ids@) == hit_ids(point, elements@.subrange(0, i as int)),
        decreases elements.len() - i,
    {
        let hit = point_in_element(&point, &elements[i]);
        proof {
            let next = elements@.subrange(0, i + 1);
            assert(next.drop_last() =~= elements@.subrange(0, i as int));
            assert(next.last() == elements@[i as int]);
        }
        if hit {
            let id = element_id(&elements[i]);
            ids.push(id);
        }
        proof {
            assert(string_views(ids@) =~= hit_ids(point, elements@.subrange(0, i + 1)));
        }
        i += 1;
    }
    assert(elements@.subrange(0, elements.len() as int) =~= elements@);
    Ok(ids)
}

/// The ids of the shapes whose box overlaps `selection`, in the order of
/// `elements`.
pub fn get_elements_in_bounds(selection: Bounds, elements: Vec<Element>) -> (r: Result<
    Vec<String>,
    String,
>)
    ensures
        r is Ok,
        string_views(r->Ok_0@) == selected_ids(selection, elements@),
{
    let mut ids: Vec<String> = Vec::new();
    let mut i: usize = 0;
    while i < elements.len()
        invariant
            i <= elements.len(),
            string_views(ids@) == selected_ids(selection, elements@.subrange(0, i as int)),
        decreases elements.len() - i,
    {
        let element_bounds = elements[i].get_bounds();
        let hit = bounds_intersect(&selection, &element_bounds);
        proof {
            let next = elements@.subrange(0, i + 1);
            assert(next.drop_last() =~= elements@.subrange(0, i as int));
            assert(next.last() == elements@[i as int]);
        }
        if hit {
            let id = element_id(&elements[i]);
            ids.push(id);
        }
        proof {
            assert(string_views(ids@) =~= selected_ids(selection, elements@.subrange(0, i + 1)));
        }
        i += 1;
    }
    assert(elements@.subrange(0, elements.len() as int) =~= elements@);
    Ok(ids)
}

} // verus!
