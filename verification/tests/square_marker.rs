use planet_sketch::common::Vec2i;
use planet_sketch::square::Square;

#[test]
fn builders_set_one_field_each() {
    let square = Square::new(Vec2i { x: 1700, y: 100 }, 1024);
    assert_eq!(square.center, Vec2i { x: 1700, y: 100 });
    assert_eq!(square.size, 25);
    assert_eq!(square.rotation, 0);
    let turned = square.rotated(300);
    assert_eq!(turned.rotation, 300);
    assert_eq!(turned.size, 25);
    let grown = turned.sized(40);
    assert_eq!(grown.size, 40);
    assert_eq!(grown.rotation, 300);
    assert_eq!(grown.center, Vec2i { x: 1700, y: 100 });
}

#[test]
fn corners_sit_half_a_side_out() {
    let corners = Square::corners(25);
    assert_eq!(corners[0], Vec2i { x: -12, y: -12 });
    assert_eq!(corners[1], Vec2i { x: 12, y: -12 });
    assert_eq!(corners[2], Vec2i { x: 12, y: 12 });
    assert_eq!(corners[3], Vec2i { x: -12, y: 12 });
}

#[test]
fn corners_rotate_with_the_facing() {
    let corners = Square::corners(25);
    // A quarter turn of a 1024-unit turn maps (x, y) to (-y, x).
    let turned = Square::rotate(corners, 256, 1024);
    assert_eq!(turned[0], Vec2i { x: 12, y: -12 });
    assert_eq!(turned[1], Vec2i { x: 12, y: 12 });
    assert_eq!(turned[2], Vec2i { x: -12, y: 12 });
    assert_eq!(turned[3], Vec2i { x: -12, y: -12 });
    // Rotating by nothing changes nothing.
    let same = Square::rotate(corners, 0, 1024);
    assert_eq!(same, corners);
}
