use zenith_scene::geometry::{check_geometry, check_page_size, check_points, DimState, GeometryShape};

use DimState::{Absent, Px, Unsupported};

#[test]
fn complete_box_passes() {
    assert!(check_geometry(GeometryShape::Box, "rect", "r1", &[Px, Px, Px, Px]).is_ok());
    assert!(check_geometry(GeometryShape::Position, "text node", "t", &[Px, Px]).is_ok());
}

#[test]
fn missing_dimension_wins_over_bad_unit() {
    let a = check_geometry(GeometryShape::Box, "rect", "r1", &[Unsupported, Px, Absent, Px]).unwrap_err();
    assert_eq!(a.code, "scene.missing_geometry");
    assert_eq!(a.message, "rect 'r1' is missing one or more geometry properties (x, y, w, h); skipped");
    assert_eq!(a.subject.as_deref(), Some("r1"));
}

#[test]
fn missing_messages_per_shape() {
    let t = check_geometry(GeometryShape::Position, "text node", "t1", &[Px, Absent]).unwrap_err();
    assert_eq!(t.message, "text node 't1' is missing x or y geometry; skipped");
    let l = check_geometry(GeometryShape::Endpoints, "line", "l1", &[Absent, Px, Px, Px]).unwrap_err();
    assert_eq!(l.message, "line 'l1' is missing one or more endpoint properties (x1, y1, x2, y2); skipped");
}

#[test]
fn first_bad_unit_is_named() {
    let a = check_geometry(GeometryShape::Box, "ellipse", "e", &[Px, Px, Unsupported, Unsupported]).unwrap_err();
    assert_eq!(a.code, "scene.unsupported_unit");
    assert_eq!(a.message, "ellipse 'e' field 'w' uses an unsupported unit; the ellipse is skipped");
    let l = check_geometry(GeometryShape::Endpoints, "line", "l", &[Px, Unsupported, Px, Px]).unwrap_err();
    assert_eq!(l.message, "line 'l' field 'y1' uses an unsupported unit; the line is skipped");
}

#[test]
fn points_checked_in_order() {
    assert!(check_points("polygon", "p", &[(Px, Px), (Px, Px), (Px, Px)]).is_ok());
    assert!(check_points("polygon", "p", &[]).is_ok());
    let a = check_points("polygon", "p", &[(Px, Px), (Px, Absent), (Unsupported, Px)]).unwrap_err();
    assert_eq!(a.code, "scene.missing_geometry");
    assert_eq!(a.message, "polygon 'p' point[1] is missing x or y coordinate; skipped");
    let b = check_points("polyline", "q", &[(Px, Unsupported)]).unwrap_err();
    assert_eq!(b.message, "polyline 'q' field 'point y' uses an unsupported unit; the polyline is skipped");
    let c = check_points("polyline", "q", &[(Unsupported, Unsupported)]).unwrap_err();
    assert_eq!(c.message, "polyline 'q' field 'point x' uses an unsupported unit; the polyline is skipped");
    let mut many = vec![(Px, Px); 12];
    many.push((Absent, Px));
    let d = check_points("polygon", "big", &many).unwrap_err();
    assert_eq!(d.message, "polygon 'big' point[12] is missing x or y coordinate; skipped");
}

#[test]
fn page_size_gate() {
    assert!(check_page_size("p1", true, true).is_ok());
    let w = check_page_size("p1", false, false).unwrap_err();
    assert_eq!(w.code, "scene.unsupported_unit");
    assert_eq!(w.message, "page 'p1' width uses an unsupported unit; cannot compile scene");
    let h = check_page_size("p1", true, false).unwrap_err();
    assert_eq!(h.message, "page 'p1' height uses an unsupported unit; cannot compile scene");
    assert_eq!(h.subject.as_deref(), Some("p1"));
}
