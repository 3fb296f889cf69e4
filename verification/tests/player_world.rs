use planet_sketch::camera::CameraKeys;
use planet_sketch::common::Vec2i;
use planet_sketch::player::Player;
use planet_sketch::world::{InputState, World, NOISE_SIZE, PLANET_RADIUS, SURFACE_SAMPLES};

fn zero_grid() -> Vec<u8> {
    let side = NOISE_SIZE as usize;
    vec![0u8; side * side]
}

fn no_keys() -> CameraKeys {
    CameraKeys {
        pan_up: false,
        pan_down: false,
        pan_left: false,
        pan_right: false,
        zoom_in: false,
        zoom_out: false,
    }
}

#[test]
fn player_faces_outward_from_center() {
    let mut player = Player::new(Vec2i { x: 100, y: 0 }, 1024);
    assert_eq!(player.rotation, 0);
    player.update(Vec2i { x: 0, y: 0 });
    // Due east of the center is a quarter turn; outward-facing adds a
    // half turn.
    assert_eq!(player.rotation, 768);
    assert_eq!(player.pos, Vec2i { x: 100, y: 0 });
}

#[test]
fn player_facing_is_derived_from_position() {
    let mut player = Player::new(Vec2i { x: 0, y: -50 }, 1024);
    player.update(Vec2i { x: 0, y: 0 });
    assert_eq!(player.rotation, 0);
    // The same position relative to a shifted center gives the same
    // facing.
    let mut other = Player::new(Vec2i { x: 200, y: -30 }, 1024);
    other.update(Vec2i { x: 200, y: 20 });
    assert_eq!(other.rotation, 0);
}

#[test]
fn movement_is_relative_to_facing() {
    let mut player = Player::new(Vec2i { x: 10, y: 20 }, 1024);
    player.apply_speed(Vec2i { x: 3, y: 4 });
    assert_eq!(player.pos, Vec2i { x: 13, y: 24 });
    // A quarter-turn facing rotates the applied vector.
    let mut turned = Player::new(Vec2i { x: 0, y: 0 }, 1024);
    turned.update(Vec2i { x: 0, y: -100 });
    assert_eq!(turned.rotation, 512);
    turned.apply_speed(Vec2i { x: 0, y: 10 });
    assert_eq!(turned.pos, Vec2i { x: 0, y: -10 });
}

#[test]
fn world_setup_builds_planet_once() {
    let mut world = World::new(1600, 1200);
    assert!(world.planet.is_none());
    assert!(world.noise.is_none());
    world.setup(zero_grid());
    let planet = world.planet.as_ref().expect("setup builds the planet");
    assert_eq!(planet.heights.len(), SURFACE_SAMPLES as usize);
    assert_eq!(planet.radius, PLANET_RADIUS);
    let heights_before = planet.heights.clone();
    // A second setup changes nothing: both fields are memoized.
    let side = NOISE_SIZE as usize;
    world.setup(vec![9u8; side * side]);
    let planet_after = world.planet.as_ref().unwrap();
    assert_eq!(planet_after.heights, heights_before);
    assert_eq!(world.noise.as_ref().unwrap().get_point(123, 456), 0);
}

#[test]
fn regenerate_swaps_in_a_fresh_planet() {
    let mut world = World::new(1600, 1200);
    world.setup(zero_grid());
    let input = InputState { regenerate: true, camera_modifier: false, keys: no_keys() };
    world.input(&input);
    let planet = world.planet.as_ref().expect("regeneration keeps a planet");
    assert_eq!(planet.radius, PLANET_RADIUS);
    assert_eq!(planet.heights.len(), SURFACE_SAMPLES as usize);
    assert!(planet.heights.iter().all(|h| *h == PLANET_RADIUS));
}

#[test]
fn modifier_routes_keys_to_camera() {
    let mut world = World::new(1600, 1200);
    world.setup(zero_grid());
    let heights_before = world.planet.as_ref().unwrap().heights.clone();
    let input = InputState {
        regenerate: false,
        camera_modifier: true,
        keys: CameraKeys { pan_right: true, ..no_keys() },
    };
    world.input(&input);
    // One step of a 1/1600 zoom over 100: 16 world units.
    assert_eq!(world.main_camera.target, Vec2i { x: 16, y: 0 });
    assert_eq!(world.planet.as_ref().unwrap().heights, heights_before);
    // Without the modifier the same keys do nothing.
    let idle = InputState { regenerate: false, camera_modifier: false, keys: no_keys() };
    world.input(&idle);
    assert_eq!(world.main_camera.target, Vec2i { x: 16, y: 0 });
}

#[test]
fn world_update_applies_follow() {
    let mut world = World::new(800, 600);
    world.main_camera.set_follow(Some(Vec2i { x: 7, y: 8 }), None);
    world.update();
    assert_eq!(world.main_camera.target, Vec2i { x: 7, y: 8 });
}
