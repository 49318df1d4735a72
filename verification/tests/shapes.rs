use wilhelm_renderer::camera::Vec2;
use wilhelm_renderer::color::Color;
use wilhelm_renderer::geometry::DrawingMode;
use wilhelm_renderer::rat::Rat;
use wilhelm_renderer::shapes::shaperenderable::{DrawCommand, ShapeStyle};
use wilhelm_renderer::shapes::{MultiPoint, Rectangle, ShapeKind, ShapeRenderable};

fn ri(i: i64) -> Rat {
    Rat::from_int(i)
}

fn p(x: i64, y: i64) -> (Rat, Rat) {
    (ri(x), ri(y))
}

fn assert_rat_eq(a: Rat, b: Rat) {
    assert!(a.eq_rat(b), "expected {:?} == {:?}", a, b);
}

#[test]
fn line_degenerate_input_is_empty() {
    let (g, _) = ShapeRenderable::line_geometry(ri(3), ri(4), ri(3), ri(4), ri(2)).unwrap();
    assert_eq!(g.vertex_count, 0);
    assert_eq!(g.verts.len(), 0);
}

#[test]
fn line_quad_has_six_vertices() {
    let (g, _) = ShapeRenderable::line_geometry(ri(0), ri(0), ri(10), ri(0), ri(2)).unwrap();
    assert_eq!(g.vertex_count, 6);
    assert_eq!(g.drawing_mode, DrawingMode::Triangles);
    // a horizontal segment of width 2: the offset is exactly (0, 1),
    // so the quad corners are y = -1 and y = 1
    assert_rat_eq(g.verts[1], ri(-1));
    assert_rat_eq(g.verts[5], ri(1));
}

#[test]
fn polyline_collinear_points_emit_no_join() {
    let pts = vec![p(0, 0), p(10, 0), p(20, 0)];
    let (g, _) = ShapeRenderable::polyline_geometry(&pts, ri(2)).unwrap();
    // two segment quads of six vertices each, no join geometry at all
    assert_eq!(g.vertex_count, 12);
    assert_eq!(g.verts.len(), 24);
}

#[test]
fn polyline_sharp_turn_emits_bevel_only() {
    // a near-reversal: the miter point lies far beyond the limit, so
    // only the bevel triangle is added
    let pts = vec![p(0, 0), p(100, 0), p(0, 10)];
    let (g, _) = ShapeRenderable::polyline_geometry(&pts, ri(2)).unwrap();
    assert_eq!(g.vertex_count, 12 + 3);
}

#[test]
fn polyline_gentle_turn_emits_bevel_and_miter() {
    let pts = vec![p(0, 0), p(100, 0), p(200, 10)];
    let (g, _) = ShapeRenderable::polyline_geometry(&pts, ri(2)).unwrap();
    assert_eq!(g.vertex_count, 12 + 3 + 3);
}

#[test]
fn rectangle_strip_in_winding_order() {
    let g = ShapeRenderable::rectangle_geometry(ri(8), ri(6));
    assert_eq!(g.drawing_mode, DrawingMode::TriangleStrip);
    assert_eq!(g.vertex_count, 4);
    let expect = [0i64, 0, 8, 0, 0, 6, 8, 6];
    for (i, e) in expect.iter().enumerate() {
        assert_rat_eq(g.verts[i], ri(*e));
    }
}

#[test]
fn triangle_vertices_kept() {
    let g = ShapeRenderable::triangle_geometry(&[p(0, 0), p(4, 0), p(2, 3)]);
    assert_eq!(g.vertex_count, 3);
    assert_rat_eq(g.verts[2], ri(4));
    assert_rat_eq(g.verts[5], ri(3));
}

#[test]
fn polygon_is_a_fan_of_its_points() {
    let pts = vec![p(0, 0), p(10, 0), p(10, 10), p(0, 10)];
    let g = ShapeRenderable::polygon_geometry(&pts);
    assert_eq!(g.drawing_mode, DrawingMode::TriangleFan);
    assert_eq!(g.vertex_count, 4);
}

#[test]
fn image_quad_uv_corners() {
    let g = ShapeRenderable::image_geometry(ri(64), ri(32));
    assert_eq!(g.vertex_count, 6);
    assert_eq!(g.values_per_vertex, 4);
    // top-right vertex carries UV (1, 1)
    assert_rat_eq(g.verts[10], ri(1));
    assert_rat_eq(g.verts[11], ri(1));
    // position of the top-right corner
    assert_rat_eq(g.verts[8], ri(64));
    assert_rat_eq(g.verts[9], ri(32));
}

#[test]
fn circle_samples_are_exact_on_the_axes() {
    // four segments: the approximation is exact at multiples of 90
    let g = ShapeRenderable::circle_geometry(ri(5), 4).unwrap();
    assert_eq!(g.drawing_mode, DrawingMode::TriangleFan);
    assert_eq!(g.vertex_count, 6);
    // center
    assert_rat_eq(g.verts[0], ri(0));
    assert_rat_eq(g.verts[1], ri(0));
    // 0 degrees: (5, 0)
    assert_rat_eq(g.verts[2], ri(5));
    assert_rat_eq(g.verts[3], ri(0));
    // 90 degrees: (0, 5)
    assert_rat_eq(g.verts[4], ri(0));
    assert_rat_eq(g.verts[5], ri(5));
    // 180 degrees: (-5, 0)
    assert_rat_eq(g.verts[6], ri(-5));
    assert_rat_eq(g.verts[7], ri(0));
    // 270 degrees: (0, -5)
    assert_rat_eq(g.verts[8], ri(0));
    assert_rat_eq(g.verts[9], ri(-5));
    // wrap-around at 360 degrees: (5, 0) again
    assert_rat_eq(g.verts[10], ri(5));
    assert_rat_eq(g.verts[11], ri(0));
}

#[test]
fn ellipse_scales_each_axis() {
    let g = ShapeRenderable::ellipse_geometry(ri(6), ri(3), 4).unwrap();
    assert_rat_eq(g.verts[2], ri(6));
    assert_rat_eq(g.verts[5], ri(3));
}

#[test]
fn rounded_rectangle_fan_counts() {
    let g = ShapeRenderable::rounded_rectangle_geometry(ri(20), ri(10), ri(2), 8).unwrap();
    assert_eq!(g.drawing_mode, DrawingMode::TriangleFan);
    // centroid + 4 corners of 9 samples + closing vertex
    assert_eq!(g.vertex_count, 4 * 9 + 2);
    // the fan centroid is the rectangle's center
    assert_rat_eq(g.verts[0], ri(10));
    assert_rat_eq(g.verts[1], ri(5));
    // the closing vertex repeats the first arc vertex
    let n = g.verts.len();
    assert_rat_eq(g.verts[n - 2], g.verts[2]);
    assert_rat_eq(g.verts[n - 1], g.verts[3]);
}

#[test]
fn instance_count_follows_the_last_update() {
    let style = ShapeStyle::fill(Color::red());
    let shape = ShapeKind::Rectangle(Rectangle::new(ri(4), ri(4)));
    let mut sr = ShapeRenderable::from_shape(ri(0), ri(0), shape, style, None).unwrap();

    sr.create_multiple_instances(10);
    let three = vec![
        Vec2::new(ri(0), ri(0)),
        Vec2::new(ri(1), ri(1)),
        Vec2::new(ri(2), ri(2)),
    ];
    sr.set_instance_positions(&three);
    // the rendered instance count equals the update's length, not the
    // capacity passed to create_multiple_instances
    assert_eq!(sr.mesh.geometry.instance_count, 3);
    match sr.draw_command() {
        DrawCommand::Instanced { count, .. } => assert_eq!(count, 3),
        _ => panic!("expected an instanced draw"),
    }

    let five = vec![
        Vec2::new(ri(0), ri(0)),
        Vec2::new(ri(1), ri(0)),
        Vec2::new(ri(2), ri(0)),
        Vec2::new(ri(3), ri(0)),
        Vec2::new(ri(4), ri(0)),
    ];
    sr.set_instance_positions(&five);
    assert_eq!(sr.mesh.geometry.instance_count, 5);

    sr.clear_instances();
    assert_eq!(sr.mesh.geometry.instance_count, 0);
    // back to a single draw at the anchor
    match sr.draw_command() {
        DrawCommand::Single { .. } => {}
        _ => panic!("expected a single draw"),
    }
}

#[test]
fn update_without_enabling_does_nothing() {
    let style = ShapeStyle::fill(Color::blue());
    let shape = ShapeKind::Rectangle(Rectangle::new(ri(4), ri(4)));
    let mut sr = ShapeRenderable::from_shape(ri(0), ri(0), shape, style, None).unwrap();
    let one = vec![Vec2::new(ri(1), ri(1))];
    sr.set_instance_positions(&one);
    assert_eq!(sr.mesh.geometry.instance_count, 0);
}

#[test]
fn color_hex_rendering() {
    assert_eq!(Color::red().to_hex(), "#FF0000");
    assert_eq!(Color::from_rgb(Rat::new(1, 2), ri(0), ri(1)).to_hex(), "#7F00FF");
    assert_eq!(Color::black().to_hex(), "#000000");
}

#[test]
fn rational_arithmetic_reduces() {
    let a = Rat::new(1, 4);
    let b = a.checked_add(Rat::new(1, 4)).unwrap();
    assert_eq!(b.num, 1);
    assert_eq!(b.den, 2);
    let c = Rat::new(1, 2).checked_add(Rat::new(1, 3)).unwrap();
    assert_eq!(c.num, 5);
    assert_eq!(c.den, 6);
    let d = Rat::new(5, 6).checked_div(Rat::new(5, 3)).unwrap();
    assert_rat_eq(d, Rat::new(1, 2));
}

#[test]
fn polyline_quads_sit_at_the_stroke_offsets() {
    // a horizontal path of width 2: the offset is exactly (0, 1), so the
    // first quad's corners sit at y = 1 and y = -1
    let pts = vec![p(0, 0), p(10, 0), p(20, 0)];
    let (g, _) = ShapeRenderable::polyline_geometry(&pts, ri(2)).unwrap();
    assert_rat_eq(g.verts[0], ri(0));
    assert_rat_eq(g.verts[1], ri(1));
    assert_rat_eq(g.verts[2], ri(0));
    assert_rat_eq(g.verts[3], ri(-1));
    assert_rat_eq(g.verts[4], ri(10));
    assert_rat_eq(g.verts[5], ri(1));
    // second quad right after (no join geometry between collinear segments)
    assert_rat_eq(g.verts[12], ri(10));
    assert_rat_eq(g.verts[13], ri(1));
}

#[test]
fn from_shape_defaults_to_white() {
    let style = ShapeStyle { fill: None, stroke_color: None, stroke_width: None };
    let shape = ShapeKind::Rectangle(Rectangle::new(ri(4), ri(4)));
    let sr = ShapeRenderable::from_shape(ri(0), ri(0), shape, style, None).unwrap();
    let c = sr.mesh.color.unwrap();
    assert!(c.red_value().eq_rat(ri(1)));
    assert!(c.green_value().eq_rat(ri(1)));
    assert!(c.blue_value().eq_rat(ri(1)));
}

#[test]
fn multi_points_are_stored_relative_to_the_first() {
    let style = ShapeStyle::fill(Color::red());
    let shape = ShapeKind::MultiPoint(MultiPoint::new(vec![p(5, 5), p(7, 9)]));
    let sr = ShapeRenderable::from_shape(ri(10), ri(20), shape, style, None).unwrap();
    // anchored at (10, 20) + (5, 5)
    assert_rat_eq(sr.x, ri(15));
    assert_rat_eq(sr.y, ri(25));
    let g = &sr.mesh.geometry;
    assert_eq!(g.verts.len(), 4);
    assert_rat_eq(g.verts[0], ri(0));
    assert_rat_eq(g.verts[1], ri(0));
    assert_rat_eq(g.verts[2], ri(2));
    assert_rat_eq(g.verts[3], ri(4));
}
