use planet_sketch::camera::{top_down_camera_controls, Camera, CameraKeys, Zoom};
use planet_sketch::common::Vec2i;

fn no_keys() -> CameraKeys {
    CameraKeys {
        pan_up: false,
        pan_down: false,
        pan_left: false,
        pan_right: false,
        zoom_in: false,
        zoom_out: false,
    }
}

#[test]
fn new_camera_zoom_tracks_screen() {
    let cam = Camera::new(1600, 1200);
    assert_eq!(cam.target, Vec2i { x: 0, y: 0 });
    assert_eq!(cam.zoom_x, Zoom { num: 1, den: 1600 });
    assert_eq!(cam.zoom_y, Zoom { num: 1, den: 1200 });
    assert!(cam.followed_pos.is_none());
    assert!(cam.followed_rot.is_none());
}

#[test]
fn screen_center_maps_to_target() {
    let mut cam = Camera::new(1600, 1200);
    cam.zoom_x = Zoom { num: 1, den: 800 };
    cam.zoom_y = Zoom { num: 1, den: 800 };
    let world = cam.screen_to_world(Vec2i { x: 800, y: 600 }, 1600, 1200);
    assert_eq!(world, Vec2i { x: 0, y: 0 });
}

#[test]
fn screen_to_world_scales_offsets() {
    let mut cam = Camera::new(1600, 1200);
    cam.zoom_x = Zoom { num: 1, den: 800 };
    cam.zoom_y = Zoom { num: 1, den: 800 };
    cam.target = Vec2i { x: 10, y: 20 };
    let world = cam.screen_to_world(Vec2i { x: 880, y: 660 }, 1600, 1200);
    // Horizontal: 80 px over an 800-px half screen of an 800-unit half
    // viewport; vertical: 60 px over 600 px of 800 units.
    assert_eq!(world, Vec2i { x: 90, y: 100 });
}

#[test]
fn world_to_screen_inverts_the_center() {
    let mut cam = Camera::new(1600, 1200);
    cam.zoom_x = Zoom { num: 1, den: 800 };
    cam.zoom_y = Zoom { num: 1, den: 600 };
    let screen = cam.world_to_screen(Vec2i { x: 0, y: 0 }, 1600, 1200);
    assert_eq!(screen, Vec2i { x: 800, y: 600 });
}

#[test]
fn round_trip_stays_within_one_unit() {
    let mut cam = Camera::new(1600, 1200);
    cam.zoom_x = Zoom { num: 1, den: 800 };
    cam.zoom_y = Zoom { num: 1, den: 600 };
    cam.target = Vec2i { x: -37, y: 1234 };
    for p in [
        Vec2i { x: 123, y: -457 },
        Vec2i { x: 0, y: 0 },
        Vec2i { x: -800, y: 599 },
        Vec2i { x: 31, y: -1 },
    ] {
        let screen = cam.world_to_screen(p, 1600, 1200);
        let back = cam.screen_to_world(screen, 1600, 1200);
        assert!((back.x - p.x).abs() <= 1, "x drifted: {p:?} -> {back:?}");
        assert!((back.y - p.y).abs() <= 1, "y drifted: {p:?} -> {back:?}");
    }
}

#[test]
fn viewport_is_two_over_zoom() {
    let mut cam = Camera::new(1600, 1200);
    cam.zoom_x = Zoom { num: 1, den: 800 };
    cam.zoom_y = Zoom { num: 1, den: 600 };
    assert_eq!(cam.viewport_size(), (1600, 1200));
    let rect = cam.viewport_rect();
    assert_eq!(rect.x, -800);
    assert_eq!(rect.y, -600);
    assert_eq!(rect.w, 1600);
    assert_eq!(rect.h, 1200);
}

#[test]
fn update_follows_the_target() {
    let mut cam = Camera::new(800, 600);
    cam.set_follow(Some(Vec2i { x: 42, y: -7 }), None);
    cam.update();
    assert_eq!(cam.target, Vec2i { x: 42, y: -7 });
    cam.unfollow();
    assert!(cam.followed_pos.is_none());
    assert!(cam.followed_rot.is_none());
    cam.target = Vec2i { x: 1, y: 2 };
    cam.update();
    assert_eq!(cam.target, Vec2i { x: 1, y: 2 });
}

#[test]
fn manual_pan_clears_follow_and_moves() {
    let mut cam = Camera::new(1600, 1200);
    cam.zoom_x = Zoom { num: 1, den: 800 };
    cam.set_follow(Some(Vec2i { x: 5, y: 5 }), None);
    let keys = CameraKeys { pan_up: true, ..no_keys() };
    top_down_camera_controls(&mut cam, &keys);
    // One pan step is a hundredth of the horizontal viewport: 800 / 100.
    assert_eq!(cam.target, Vec2i { x: 0, y: -8 });
    assert!(cam.followed_pos.is_none());
    assert!(cam.followed_rot.is_none());
}

#[test]
fn zoom_keys_scale_by_two_percent() {
    let mut cam = Camera::new(800, 600);
    let keys = CameraKeys { zoom_in: true, ..no_keys() };
    top_down_camera_controls(&mut cam, &keys);
    assert_eq!(cam.zoom_x, Zoom { num: 49, den: 40000 });
    assert_eq!(cam.zoom_y, Zoom { num: 49, den: 30000 });
    let out = CameraKeys { zoom_out: true, ..no_keys() };
    top_down_camera_controls(&mut cam, &out);
    assert_eq!(cam.zoom_x, Zoom { num: 2450, den: 1960000 });
}

#[test]
fn no_keys_change_nothing() {
    let mut cam = Camera::new(800, 600);
    cam.set_follow(Some(Vec2i { x: 9, y: 9 }), None);
    let before_target = cam.target;
    top_down_camera_controls(&mut cam, &no_keys());
    assert_eq!(cam.target, before_target);
    assert_eq!(cam.followed_pos, Some(Vec2i { x: 9, y: 9 }));
}
