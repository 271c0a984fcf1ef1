use burrito::mesh::{point_indices, strip, Mesh};
use burrito::path::{drop_closing_point, Path};
use burrito::plot::{axis_lines, line_indices, AxisLine};

type V = [f32; 3];

fn v(x: f32, y: f32) -> V {
    [x, y, 0.0]
}

fn quad(m: &mut Mesh<V>, x: f32, y: f32, w: f32, h: f32) {
    m.push_quad(v(x, y), v(x + w, y), v(x + w, y + h), v(x, y + h));
}

#[test]
fn test_fill_rect() {
    let mut m: Mesh<V> = Mesh::empty();
    quad(&mut m, 0.0, 0.0, 10.0, 10.0);
    assert_eq!(m.vertices.len(), 4);
    assert_eq!(m.indices.len(), 6);
}

#[test]
fn test_stroke_rect() {
    let mut m: Mesh<V> = Mesh::empty();
    quad(&mut m, 0.0, -1.0, 10.0, 2.0);
    quad(&mut m, 9.0, 0.0, 2.0, 10.0);
    quad(&mut m, 0.0, 9.0, 10.0, 2.0);
    quad(&mut m, -1.0, 0.0, 2.0, 10.0);
    assert_eq!(m.vertices.len(), 16);
    assert_eq!(m.indices.len(), 24);
}

#[test]
fn test_path_stroke() {
    let mut p: Path<[f32; 2]> = Path::new();
    p.begin_path();
    p.move_to([0.0, 0.0]);
    p.line_to([10.0, 10.0]);
    let segments = p.take_segments();
    let mut m: Mesh<V> = Mesh::empty();
    for ([x1, y1], [x2, y2]) in segments {
        m.push_quad(v(x1, y1), v(x1, y1), v(x2, y2), v(x2, y2));
    }
    assert!(m.vertices.len() >= 4);
}

#[test]
fn test_path_fill() {
    let mut p: Path<[f32; 2]> = Path::new();
    p.begin_path();
    p.move_to([0.0, 0.0]);
    p.line_to([10.0, 0.0]);
    p.line_to([5.0, 10.0]);
    p.close_path();
    let mut pts = p.take_points();
    let ends_equal = pts.first() == pts.last();
    drop_closing_point(&mut pts, ends_equal);
    let mut m: Mesh<V> = Mesh::empty();
    m.push_fan(pts.iter().map(|q| v(q[0], q[1])).collect());
    assert_eq!(m.vertices.len(), 3);
    assert_eq!(m.indices.len(), 3);
}

#[test]
fn closing_point_stays_on_a_triangle() {
    let mut pts = vec![[0.0f32, 0.0], [1.0, 0.0], [0.0, 0.0]];
    drop_closing_point(&mut pts, true);
    assert_eq!(pts.len(), 3);
    let mut open = vec![[0.0f32, 0.0], [1.0, 0.0], [1.0, 1.0], [0.0, 1.0]];
    drop_closing_point(&mut open, false);
    assert_eq!(open.len(), 4);
}

#[test]
fn test_path_rect() {
    let mut p: Path<[f32; 2]> = Path::new();
    p.begin_path();
    p.finish_current_subpath();
    p.extend(&vec![[0.0, 0.0], [10.0, 0.0], [10.0, 10.0], [0.0, 10.0], [0.0, 0.0]]);
    assert_eq!(p.current.len(), 5);
}

#[test]
fn test_clear() {
    let mut m: Mesh<V> = Mesh::empty();
    quad(&mut m, 0.0, 0.0, 10.0, 10.0);
    assert!(!m.is_empty());
    m.clear();
    assert!(m.is_empty());
}

#[test]
fn quad_indices_start_at_the_vertex_count() {
    let mut m: Mesh<V> = Mesh::empty();
    quad(&mut m, 0.0, 0.0, 1.0, 1.0);
    quad(&mut m, 0.0, 0.0, 1.0, 1.0);
    assert_eq!(m.indices, vec![0, 1, 2, 0, 2, 3, 4, 5, 6, 4, 6, 7]);
}

#[test]
fn segments_are_index_pairs() {
    let mut m: Mesh<V> = Mesh::empty();
    m.push_segment(v(0.0, 0.0), v(1.0, 1.0));
    m.push_segment(v(0.0, 0.0), v(1.0, 1.0));
    assert_eq!(m.indices, vec![0, 1, 2, 3]);
}

#[test]
fn fan_triangulates_around_the_first_point() {
    let mut m: Mesh<V> = Mesh::empty();
    m.push_fan(vec![v(0.0, 0.0), v(10.0, 0.0), v(5.0, 10.0)]);
    assert_eq!(m.vertices.len(), 3);
    assert_eq!(m.indices, vec![0, 1, 2]);
    m.push_fan(vec![v(0.0, 0.0), v(1.0, 0.0), v(1.0, 1.0), v(0.0, 1.0)]);
    assert_eq!(m.indices, vec![0, 1, 2, 3, 4, 5, 3, 5, 6]);
    // too few points make no triangle
    m.push_fan(vec![v(0.0, 0.0), v(1.0, 0.0)]);
    assert_eq!(m.vertices.len(), 7);
}

#[test]
fn strips_and_points() {
    assert_eq!(strip(0), Vec::<u32>::new());
    assert_eq!(strip(1), Vec::<u32>::new());
    assert_eq!(strip(4), vec![0, 1, 1, 2, 2, 3]);
    assert_eq!(line_indices(3), vec![0, 1, 1, 2]);
    assert_eq!(point_indices(3), vec![0, 1, 2]);
}

#[test]
fn path_keeps_subpaths_apart() {
    let mut p: Path<[f32; 2]> = Path::new();
    p.move_to([0.0, 0.0]);
    p.line_to([1.0, 0.0]);
    p.line_to([1.0, 1.0]);
    p.close_path();
    assert_eq!(p.current, vec![[0.0, 0.0], [1.0, 0.0], [1.0, 1.0], [0.0, 0.0]]);
    p.move_to([5.0, 5.0]);
    p.line_to([6.0, 5.0]);
    assert_eq!(p.subpaths.len(), 1);
    let segs = p.take_segments();
    assert_eq!(segs.len(), 4);
    assert_eq!(segs[3], ([5.0, 5.0], [6.0, 5.0]));
    assert!(p.subpaths.is_empty() && p.current.is_empty());
}

#[test]
fn path_points_for_filling() {
    let mut p: Path<[f32; 2]> = Path::new();
    p.move_to([0.0, 0.0]);
    p.line_to([10.0, 0.0]);
    p.line_to([5.0, 10.0]);
    p.close_path();
    let pts = p.take_points();
    assert_eq!(pts, vec![[0.0, 0.0], [10.0, 0.0], [5.0, 10.0], [0.0, 0.0]]);
}

#[test]
fn close_path_needs_two_points() {
    let mut p: Path<[f32; 2]> = Path::new();
    p.move_to([1.0, 1.0]);
    p.close_path();
    assert_eq!(p.current, vec![[1.0, 1.0]]);
}

#[test]
fn axes_plan() {
    let lines = axis_lines(2, 1, true, true, false);
    assert_eq!(
        lines,
        vec![
            AxisLine::SpineBottom,
            AxisLine::SpineLeft,
            AxisLine::SpineTop,
            AxisLine::SpineRight,
            AxisLine::GridX(1),
            AxisLine::TickX(0),
            AxisLine::TickX(1),
            AxisLine::TickX(2),
            AxisLine::TickY(0),
            AxisLine::TickY(1),
            AxisLine::OriginX,
        ]
    );
    assert_eq!(axis_lines(0, 0, false, false, true).len(), 4 + 1 + 1 + 1);
}
