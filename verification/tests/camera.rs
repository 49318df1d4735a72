use wilhelm_renderer::camera::{Camera2D, CameraController, IdentityProjection, Projection, Vec2};
use wilhelm_renderer::rat::Rat;

fn ri(i: i64) -> Rat {
    Rat::from_int(i)
}

fn v(x: i64, y: i64) -> Vec2 {
    Vec2::new(ri(x), ri(y))
}

fn assert_rat_eq(a: Rat, b: Rat) {
    assert!(a.eq_rat(b), "expected {:?} == {:?}", a, b);
}

#[test]
fn camera_test_identity_projection() {
    let proj = IdentityProjection;
    let world = v(100, 200);

    assert_eq!(proj.world_to_screen(world).unwrap(), world);
    assert_eq!(proj.screen_to_world(world).unwrap(), world);
}

#[test]
fn camera_test_camera_center_at_origin() {
    let camera = Camera2D::new(v(0, 0), ri(1), v(800, 600));

    // World origin should map to screen center
    let screen = camera.world_to_screen(v(0, 0)).unwrap();
    assert_rat_eq(screen.x, ri(400));
    assert_rat_eq(screen.y, ri(300));

    // Screen center should map back to world origin
    let world = camera.screen_to_world(v(400, 300)).unwrap();
    assert_rat_eq(world.x, ri(0));
    assert_rat_eq(world.y, ri(0));
}

#[test]
fn camera_test_camera_with_offset_center() {
    let camera = Camera2D::new(v(100, 50), ri(1), v(800, 600));

    // World (100, 50) should be at screen center
    let screen = camera.world_to_screen(v(100, 50)).unwrap();
    assert_rat_eq(screen.x, ri(400));
    assert_rat_eq(screen.y, ri(300));

    // World origin should be offset from screen center
    let screen = camera.world_to_screen(v(0, 0)).unwrap();
    assert_rat_eq(screen.x, ri(300)); // 400 - 100
    assert_rat_eq(screen.y, ri(250)); // 300 - 50
}

#[test]
fn camera_test_camera_with_scale() {
    let camera = Camera2D::new(v(0, 0), ri(2), v(800, 600));

    // World (10, 10) should be 20 pixels from screen center
    let screen = camera.world_to_screen(v(10, 10)).unwrap();
    assert_rat_eq(screen.x, ri(420)); // 400 + 10*2
    assert_rat_eq(screen.y, ri(320)); // 300 + 10*2

    // Roundtrip
    let world = camera.screen_to_world(screen).unwrap();
    assert_rat_eq(world.x, ri(10));
    assert_rat_eq(world.y, ri(10));
}

#[test]
fn camera_test_camera_world_bounds() {
    let camera = Camera2D::new(v(0, 0), ri(1), v(800, 600));

    let (min_x, min_y, max_x, max_y) = camera.world_bounds().unwrap();
    assert_rat_eq(min_x, ri(-400));
    assert_rat_eq(min_y, ri(-300));
    assert_rat_eq(max_x, ri(400));
    assert_rat_eq(max_y, ri(300));
}

#[test]
fn camera_test_camera_zoom_at_center() {
    let mut camera = Camera2D::new(v(0, 0), ri(1), v(800, 600));

    // Zoom in 2x at screen center
    assert!(camera.zoom_at(ri(2), v(400, 300)));

    // Center should remain unchanged
    assert_rat_eq(camera.center().x, ri(0));
    assert_rat_eq(camera.center().y, ri(0));
    assert_rat_eq(camera.scale(), ri(2));
}

#[test]
fn camera_test_camera_zoom_at_corner() {
    let mut camera = Camera2D::new(v(0, 0), ri(1), v(800, 600));

    // World position at top-left corner before zoom
    let corner_world_before = camera.screen_to_world(v(0, 0)).unwrap();

    // Zoom in 2x at top-left corner
    assert!(camera.zoom_at(ri(2), v(0, 0)));

    // World position at top-left corner should be the same
    let corner_world_after = camera.screen_to_world(v(0, 0)).unwrap();

    assert_rat_eq(corner_world_before.x, corner_world_after.x);
    assert_rat_eq(corner_world_before.y, corner_world_after.y);
}

#[test]
fn projection_test_identity_projection() {
    let proj = IdentityProjection;
    let world = v(100, 200);

    assert_eq!(proj.world_to_screen(world).unwrap(), world);
    assert_eq!(proj.screen_to_world(world).unwrap(), world);
}

#[test]
fn projection_test_camera_center_at_origin() {
    let camera = Camera2D::new(v(0, 0), ri(1), v(800, 600));

    let screen = camera.world_to_screen(v(0, 0)).unwrap();
    assert_rat_eq(screen.x, ri(400));
    assert_rat_eq(screen.y, ri(300));

    let world = camera.screen_to_world(v(400, 300)).unwrap();
    assert_rat_eq(world.x, ri(0));
    assert_rat_eq(world.y, ri(0));
}

#[test]
fn projection_test_camera_with_offset_center() {
    let camera = Camera2D::new(v(100, 50), ri(1), v(800, 600));

    let screen = camera.world_to_screen(v(100, 50)).unwrap();
    assert_rat_eq(screen.x, ri(400));
    assert_rat_eq(screen.y, ri(300));

    let screen = camera.world_to_screen(v(0, 0)).unwrap();
    assert_rat_eq(screen.x, ri(300));
    assert_rat_eq(screen.y, ri(250));
}

#[test]
fn projection_test_camera_with_scale() {
    let camera = Camera2D::new(v(0, 0), ri(2), v(800, 600));

    let screen = camera.world_to_screen(v(10, 10)).unwrap();
    assert_rat_eq(screen.x, ri(420));
    assert_rat_eq(screen.y, ri(320));

    let world = camera.screen_to_world(screen).unwrap();
    assert_rat_eq(world.x, ri(10));
    assert_rat_eq(world.y, ri(10));
}

#[test]
fn projection_test_camera_world_bounds() {
    let camera = Camera2D::new(v(0, 0), ri(1), v(800, 600));

    let (min_x, min_y, max_x, max_y) = camera.world_bounds().unwrap();
    assert_rat_eq(min_x, ri(-400));
    assert_rat_eq(min_y, ri(-300));
    assert_rat_eq(max_x, ri(400));
    assert_rat_eq(max_y, ri(300));
}

#[test]
fn projection_test_camera_zoom_at_center() {
    let mut camera = Camera2D::new(v(0, 0), ri(1), v(800, 600));

    assert!(camera.zoom_at(ri(2), v(400, 300)));

    assert_rat_eq(camera.center().x, ri(0));
    assert_rat_eq(camera.center().y, ri(0));
    assert_rat_eq(camera.scale(), ri(2));
}

#[test]
fn projection_test_camera_zoom_at_corner() {
    let mut camera = Camera2D::new(v(0, 0), ri(1), v(800, 600));

    let corner_world_before = camera.screen_to_world(v(0, 0)).unwrap();
    assert!(camera.zoom_at(ri(2), v(0, 0)));
    let corner_world_after = camera.screen_to_world(v(0, 0)).unwrap();

    assert_rat_eq(corner_world_before.x, corner_world_after.x);
    assert_rat_eq(corner_world_before.y, corner_world_after.y);
}

#[test]
fn round_trip_on_an_arbitrary_camera() {
    // an off-center camera with a fractional scale
    let camera = Camera2D::new(v(7, -3), Rat::new(3, 2), v(1024, 768));
    let p = v(123, 456);

    let world = camera.screen_to_world(p).unwrap();
    let back = camera.world_to_screen(world).unwrap();
    assert_rat_eq(back.x, p.x);
    assert_rat_eq(back.y, p.y);

    let w = v(-55, 91);
    let screen = camera.world_to_screen(w).unwrap();
    let back = camera.screen_to_world(screen).unwrap();
    assert_rat_eq(back.x, w.x);
    assert_rat_eq(back.y, w.y);
}

#[test]
fn zoom_at_with_fractional_factor_keeps_cursor() {
    let mut camera = Camera2D::new(v(12, 34), Rat::new(5, 4), v(800, 600));
    let cursor = v(211, 97);

    let before = camera.screen_to_world(cursor).unwrap();
    assert!(camera.zoom_at(Rat::new(11, 10), cursor));
    let after = camera.screen_to_world(cursor).unwrap();

    assert_rat_eq(before.x, after.x);
    assert_rat_eq(before.y, after.y);
}

#[test]
fn pan_moves_center_in_world_units() {
    let mut camera = Camera2D::new(v(0, 0), ri(2), v(800, 600));
    assert!(camera.pan(v(5, -7)));
    assert_rat_eq(camera.center().x, ri(5));
    assert_rat_eq(camera.center().y, ri(-7));

    // a screen-space pan divides by the scale
    assert!(camera.pan_screen(v(10, 20)));
    assert_rat_eq(camera.center().x, ri(0));
    assert_rat_eq(camera.center().y, ri(-17));
}

#[test]
fn controller_scroll_zooms_target_toward_cursor() {
    let camera = Camera2D::new(v(0, 0), ri(1), v(800, 600));
    let mut ctl = CameraController::new(camera);

    // cursor rests at the screen center: scrolling up zooms the target
    // by the sensitivity and keeps the target center fixed
    assert!(ctl.on_cursor_move(ri(400), ri(300)));
    assert!(ctl.on_scroll(ri(1)));
    assert_rat_eq(ctl.target_scale, Rat::new(11, 10));
    assert_rat_eq(ctl.target_center.x, ri(0));
    assert_rat_eq(ctl.target_center.y, ri(0));

    // scrolling down divides by the sensitivity again
    assert!(ctl.on_scroll(ri(-1)));
    assert_rat_eq(ctl.target_scale, ri(1));
}

#[test]
fn controller_drag_pans_target_against_target_scale() {
    let camera = Camera2D::new(v(0, 0), ri(2), v(800, 600));
    let mut ctl = CameraController::new(camera);

    assert!(ctl.on_cursor_move(ri(100), ri(100)));
    ctl.on_mouse_button(0, 1); // left press starts dragging
    assert!(ctl.on_cursor_move(ri(110), ri(80)));
    // delta (10, -20) divided by target scale 2
    assert_rat_eq(ctl.target_center.x, ri(-5));
    assert_rat_eq(ctl.target_center.y, ri(10));
    ctl.on_mouse_button(0, 0); // release stops dragging
    assert!(ctl.on_cursor_move(ri(500), ri(500)));
    assert_rat_eq(ctl.target_center.x, ri(-5));
    assert_rat_eq(ctl.target_center.y, ri(10));
}

#[test]
fn controller_update_snaps_when_smoothness_is_zero() {
    let camera = Camera2D::new(v(0, 0), ri(1), v(800, 600));
    let mut ctl = CameraController::new(camera);
    ctl.set_zoom_smoothness(ri(0));
    assert!(ctl.on_scroll(ri(1)));

    // any blend weight snaps straight to the target
    assert!(ctl.update(Rat::new(1, 4)));
    assert_rat_eq(ctl.camera().scale(), Rat::new(11, 10));
}

#[test]
fn controller_update_blends_toward_target() {
    let camera = Camera2D::new(v(0, 0), ri(1), v(800, 600));
    let mut ctl = CameraController::new(camera);
    assert!(ctl.on_scroll(ri(1)));

    // halfway blend: scale = 1 + (11/10 - 1) / 2 = 21/20
    assert!(ctl.update(Rat::new(1, 2)));
    assert_rat_eq(ctl.camera().scale(), Rat::new(21, 20));
}
