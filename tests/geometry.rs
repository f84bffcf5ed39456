use canvas_geometry::canvas::{calculate_bounds, render_elements, Bounds, Element, Point};
use canvas_geometry::collision::{
    bounds_intersect, check_collision, get_elements_in_bounds, point_in_element,
};

fn rect(id: &str, x: i32, y: i32, width: i32, height: i32) -> Element {
    Element::Rectangle {
        id: id.to_string(),
        x,
        y,
        width,
        height,
        angle: 0,
        stroke_color: "#000".to_string(),
        fill_color: "none".to_string(),
    }
}

fn ellipse(id: &str, x: i32, y: i32, width: i32, height: i32) -> Element {
    Element::Ellipse {
        id: id.to_string(),
        x,
        y,
        width,
        height,
        angle: 0,
        stroke_color: "#000".to_string(),
        fill_color: "none".to_string(),
    }
}

fn line(id: &str, points: Vec<(i32, i32)>) -> Element {
    Element::Line {
        id: id.to_string(),
        points: points.into_iter().map(|(x, y)| Point { x, y }).collect(),
        stroke_color: "#000".to_string(),
        stroke_width: 2,
    }
}

fn arrow(id: &str, start: (i32, i32), end: (i32, i32)) -> Element {
    Element::Arrow {
        id: id.to_string(),
        start: Point { x: start.0, y: start.1 },
        end: Point { x: end.0, y: end.1 },
        stroke_color: "#000".to_string(),
        stroke_width: 2,
    }
}

fn b(x: i64, y: i64, width: i64, height: i64) -> Bounds {
    Bounds { x, y, width, height }
}

fn sorted(mut v: Vec<String>) -> Vec<String> {
    v.sort();
    v
}

#[test]
fn rectangle_and_ellipse_bounds_are_their_fields() {
    assert_eq!(rect("r", 3, -4, 10, 20).get_bounds(), b(3, -4, 10, 20));
    assert_eq!(ellipse("e", -7, 8, 5, 6).get_bounds(), b(-7, 8, 5, 6));
    assert_eq!(rect("r", 3, 4, -10, -20).get_bounds(), b(3, 4, -10, -20));
}

#[test]
fn rotation_is_ignored_by_bounds() {
    let mut r = rect("r", 1, 2, 3, 4);
    if let Element::Rectangle { angle, .. } = &mut r {
        *angle = 45;
    }
    assert_eq!(r.get_bounds(), b(1, 2, 3, 4));
}

#[test]
fn empty_polyline_has_zero_box() {
    assert_eq!(line("l", vec![]).get_bounds(), b(0, 0, 0, 0));
}

#[test]
fn polyline_box_is_tight_whatever_the_order() {
    let l = line("l", vec![(5, -1), (-3, 4), (2, 9), (0, 0)]);
    assert_eq!(l.get_bounds(), b(-3, -1, 8, 10));
    let single = line("s", vec![(7, 8)]);
    assert_eq!(single.get_bounds(), b(7, 8, 0, 0));
}

#[test]
fn arrow_box_scenario() {
    assert_eq!(arrow("a", (0, 0), (5, 5)).get_bounds(), b(0, 0, 5, 5));
}

#[test]
fn arrow_box_is_direction_agnostic() {
    let reversed = arrow("a", (5, 5), (0, 0)).get_bounds();
    assert_eq!(reversed, b(0, 0, 5, 5));
    let crossed = arrow("a", (10, -2), (-4, 6)).get_bounds();
    assert_eq!(crossed, b(-4, -2, 14, 8));
    assert!(crossed.width >= 0 && crossed.height >= 0);
}

#[test]
fn extreme_coordinates_do_not_overflow() {
    let l = line("l", vec![(i32::MIN, i32::MAX), (i32::MAX, i32::MIN)]);
    let expect = b(i32::MIN as i64, i32::MIN as i64, u32::MAX as i64, u32::MAX as i64);
    assert_eq!(l.get_bounds(), expect);
    let all = calculate_bounds(vec![l, rect("r", i32::MAX, i32::MAX, i32::MAX, i32::MAX)]).unwrap();
    assert_eq!(all, b(i32::MIN as i64, i32::MIN as i64, 3 * (i32::MAX as i64) + 1, 3 * (i32::MAX as i64) + 1));
}

#[test]
fn bounds_are_the_same_on_every_call() {
    let l = line("l", vec![(1, 2), (-3, 4)]);
    assert_eq!(l.get_bounds(), l.get_bounds());
}

#[test]
fn aggregate_of_nothing_is_zero_box() {
    assert_eq!(calculate_bounds(vec![]).unwrap(), b(0, 0, 0, 0));
}

#[test]
fn aggregate_scenario() {
    let shapes = vec![rect("r1", 0, 0, 10, 10), ellipse("e1", 5, 5, 10, 10)];
    assert_eq!(calculate_bounds(shapes).unwrap(), b(0, 0, 15, 15));
}

#[test]
fn aggregate_encloses_each_shape() {
    let a = line("l", vec![(-5, 3), (2, 12)]);
    let c = arrow("a", (20, -1), (8, 4));
    let all = calculate_bounds(vec![a.clone(), c.clone()]).unwrap();
    assert_eq!(all, b(-5, -1, 25, 13));
    for inner in [a.get_bounds(), c.get_bounds()] {
        assert!(all.x <= inner.x && inner.x + inner.width <= all.x + all.width);
        assert!(all.y <= inner.y && inner.y + inner.height <= all.y + all.height);
    }
}

#[test]
fn hit_test_scenario() {
    let shapes = vec![rect("r1", 0, 0, 10, 10), ellipse("e1", 5, 5, 10, 10)];
    let ids = check_collision(Point { x: 7, y: 7 }, shapes).unwrap();
    assert_eq!(sorted(ids), vec!["e1".to_string(), "r1".to_string()]);
}

#[test]
fn hit_test_edges_are_inclusive() {
    let r = rect("r", 2, 3, 10, 20);
    assert!(point_in_element(&Point { x: 2, y: 3 }, &r));
    assert!(point_in_element(&Point { x: 12, y: 23 }, &r));
    assert!(!point_in_element(&Point { x: 13, y: 23 }, &r));
    assert!(!point_in_element(&Point { x: 1, y: 3 }, &r));
    let ids = check_collision(Point { x: 12, y: 23 }, vec![r, rect("far", 50, 50, 1, 1)]).unwrap();
    assert_eq!(ids, vec!["r".to_string()]);
}

#[test]
fn hit_test_uses_the_box_not_the_outline() {
    let e = ellipse("e", 0, 0, 10, 10);
    assert!(point_in_element(&Point { x: 0, y: 0 }, &e));
}

#[test]
fn hit_test_on_nothing_is_empty() {
    assert!(check_collision(Point { x: 0, y: 0 }, vec![]).unwrap().is_empty());
}

#[test]
fn touching_boxes_do_not_intersect() {
    assert!(!bounds_intersect(&b(0, 0, 10, 10), &b(10, 0, 10, 10)));
    assert!(!bounds_intersect(&b(10, 0, 10, 10), &b(0, 0, 10, 10)));
    assert!(!bounds_intersect(&b(0, 0, 10, 10), &b(10, 10, 5, 5)));
    assert!(bounds_intersect(&b(0, 0, 10, 10), &b(9, 9, 5, 5)));
}

#[test]
fn intersection_handles_extreme_boxes() {
    let huge = b(i64::MIN, i64::MIN, i64::MAX, i64::MAX);
    assert!(bounds_intersect(&huge, &b(-5, -5, 1, 1)));
    assert!(!bounds_intersect(&b(i64::MAX, 0, i64::MAX, 10), &b(0, 0, 10, 10)));
}

#[test]
fn selection_keeps_input_order_and_drops_touching() {
    let shapes = vec![
        rect("a", 0, 0, 10, 10),
        rect("touch", 10, 0, 10, 10),
        arrow("b", (3, 3), (30, 30)),
        line("empty", vec![]),
    ];
    let ids = get_elements_in_bounds(b(0, 0, 10, 10), shapes).unwrap();
    assert_eq!(ids, vec!["a".to_string(), "b".to_string()]);
}

#[test]
fn selection_of_nothing_is_empty() {
    assert!(get_elements_in_bounds(b(0, 0, 10, 10), vec![]).unwrap().is_empty());
}

#[test]
fn render_reports_the_count() {
    let shapes = vec![rect("r1", 0, 0, 10, 10), ellipse("e1", 5, 5, 10, 10)];
    assert_eq!(render_elements(shapes).unwrap(), "Rendered 2 elements");
    assert_eq!(render_elements(vec![]).unwrap(), "Rendered 0 elements");
}
