use canvas_geometry::canvas::{Bounds, Element, Point};
use canvas_geometry::image_export::{export_png, export_svg, png_data_url};

const HEADER: &str = r#"<svg xmlns="http://www.w3.org/2000/svg" width="100" height="50" viewBox="-10 0 100 50">"#;

fn view() -> Bounds {
    Bounds { x: -10, y: 0, width: 100, height: 50 }
}

#[test]
fn svg_of_nothing_is_an_empty_document() {
    assert_eq!(export_svg(vec![], view()).unwrap(), format!("{}</svg>", HEADER));
}

#[test]
fn svg_rectangle() {
    let r = Element::Rectangle {
        id: "r".to_string(),
        x: 1,
        y: -2,
        width: 30,
        height: 40,
        angle: 0,
        stroke_color: "red".to_string(),
        fill_color: "blue".to_string(),
    };
    let expect = format!(
        r#"{}<rect x="1" y="-2" width="30" height="40" stroke="red" fill="blue" /></svg>"#,
        HEADER
    );
    assert_eq!(export_svg(vec![r], view()).unwrap(), expect);
}

#[test]
fn svg_ellipse_with_half_coordinates() {
    let e = Element::Ellipse {
        id: "e".to_string(),
        x: -3,
        y: 0,
        width: 5,
        height: 8,
        angle: 0,
        stroke_color: "black".to_string(),
        fill_color: "white".to_string(),
    };
    let expect = format!(
        r#"{}<ellipse cx="-0.5" cy="4" rx="2.5" ry="4" stroke="black" fill="white" /></svg>"#,
        HEADER
    );
    assert_eq!(export_svg(vec![e], view()).unwrap(), expect);
}

#[test]
fn svg_polyline_and_arrow() {
    let l = Element::Line {
        id: "l".to_string(),
        points: vec![Point { x: 0, y: 1 }, Point { x: 12, y: -3 }, Point { x: 7, y: 7 }],
        stroke_color: "green".to_string(),
        stroke_width: 3,
    };
    let a = Element::Arrow {
        id: "a".to_string(),
        start: Point { x: 0, y: 0 },
        end: Point { x: 5, y: 5 },
        stroke_color: "gray".to_string(),
        stroke_width: 1,
    };
    let empty = Element::Line {
        id: "x".to_string(),
        points: vec![],
        stroke_color: "green".to_string(),
        stroke_width: 3,
    };
    let expect = format!(
        r#"{}<path d="M 0 1 L 12 -3 L 7 7" stroke="green" stroke-width="3" fill="none" /><line x1="0" y1="0" x2="5" y2="5" stroke="gray" stroke-width="1" /></svg>"#,
        HEADER
    );
    assert_eq!(export_svg(vec![l, empty, a], view()).unwrap(), expect);
}

#[test]
fn png_data_url_encodes_bytes_in_base64() {
    assert_eq!(png_data_url(Ok(vec![1, 2, 3])).unwrap(), "data:image/png;base64,AQID");
    assert_eq!(png_data_url(Ok(vec![0xff])).unwrap(), "data:image/png;base64,/w==");
}

#[test]
fn png_data_url_prefixes_errors() {
    assert_eq!(
        png_data_url(Err("bad size".to_string())).unwrap_err(),
        "PNG encoding error: bad size"
    );
}

#[test]
fn png_export_is_a_png_data_url() {
    let url = export_png(4, 3).unwrap();
    assert!(url.starts_with("data:image/png;base64,iVBORw0KGgo"));
    assert_eq!(export_png(4, 3).unwrap(), url);
}

#[test]
fn png_export_of_empty_image_fails() {
    let err = export_png(0, 5).unwrap_err();
    assert!(err.starts_with("PNG encoding error: "));
}
