use breakout_core::collide::{detect, Side};
use breakout_core::geom::{clamp_i64, Vec2i};
use breakout_core::world::{Config, WallLocation};

fn v(x: i64, y: i64) -> Vec2i {
    Vec2i { x, y }
}

fn canonical_config() -> Config {
    Config {
        left_wall: -450,
        right_wall: 450,
        bottom_wall: -300,
        top_wall: 300,
        wall_thickness: 10,
        control_speed: 16,
        ball_start: v(0, -50),
        ball_extent: v(15, 15),
        brick_start: v(100, 100),
        brick_extent: v(50, 15),
        brick_velocity: v(360, 360),
    }
}

#[test]
fn detect_no_overlap_returns_none() {
    assert_eq!(detect(v(0, 0), v(10, 10), v(100, 0), v(10, 10)), None);
    assert_eq!(detect(v(0, 0), v(10, 10), v(0, 100), v(10, 10)), None);
}

#[test]
fn detect_touching_edges_do_not_collide() {
    // a's right edge exactly on b's left edge: no overlap, strict inequality
    assert_eq!(detect(v(0, 0), v(10, 10), v(20, 0), v(10, 10)), None);
}

#[test]
fn detect_zero_area_rectangles() {
    // two coincident points: empty overlap, no collision
    assert_eq!(detect(v(0, 0), v(0, 0), v(0, 0), v(0, 0)), None);
    // a point strictly inside a rectangle overlaps it, and no side fits
    assert_eq!(detect(v(0, 0), v(0, 0), v(0, 0), v(10, 10)), Some(Side::Inside));
}

#[test]
fn detect_left_side() {
    // A straddles B's left edge, y fully inside: x axis names the side
    assert_eq!(detect(v(451, 0), v(50, 15), v(505, 0), v(5, 150)), Some(Side::Left));
}

#[test]
fn detect_right_side() {
    assert_eq!(detect(v(-451, 0), v(50, 15), v(-505, 0), v(5, 150)), Some(Side::Right));
}

#[test]
fn detect_top_side() {
    assert_eq!(detect(v(0, -251), v(15, 50), v(0, -305), v(150, 5)), Some(Side::Top));
}

#[test]
fn detect_bottom_side() {
    assert_eq!(detect(v(0, 251), v(15, 50), v(0, 305), v(150, 5)), Some(Side::Bottom));
}

#[test]
fn detect_identical_rectangles_are_inside() {
    assert_eq!(detect(v(3, -4), v(5, 5), v(3, -4), v(5, 5)), Some(Side::Inside));
}

#[test]
fn detect_contained_rectangle_is_inside() {
    // B entirely inside A: neither axis names a side
    assert_eq!(detect(v(0, 0), v(50, 50), v(5, 5), v(2, 2)), Some(Side::Inside));
}

#[test]
fn detect_smaller_axis_depth_wins() {
    // x depth 2, y depth 4: x side
    assert_eq!(detect(v(-8, -6), v(5, 5), v(0, 0), v(5, 5)), Some(Side::Left));
    // x depth 4, y depth 2: y side
    assert_eq!(detect(v(-6, -8), v(5, 5), v(0, 0), v(5, 5)), Some(Side::Bottom));
}

#[test]
fn detect_equal_depths_prefer_x_axis() {
    // both depths 2
    assert_eq!(detect(v(-8, -8), v(5, 5), v(0, 0), v(5, 5)), Some(Side::Left));
}

#[test]
fn detect_negative_coordinates() {
    assert_eq!(detect(v(-1000, -1000), v(10, 10), v(-985, -1000), v(10, 100)), Some(Side::Left));
}

#[test]
fn wall_positions_from_canonical_constants() {
    let cfg = canonical_config();
    assert_eq!(WallLocation::Left.position(&cfg), v(-450, 0));
    assert_eq!(WallLocation::Right.position(&cfg), v(450, 0));
    assert_eq!(WallLocation::Bottom.position(&cfg), v(0, -300));
    assert_eq!(WallLocation::Top.position(&cfg), v(0, 300));
}

#[test]
fn wall_half_extents_from_canonical_constants() {
    let cfg = canonical_config();
    // vertical walls: half thickness across, (arena height + thickness) / 2 tall
    assert_eq!(WallLocation::Left.half_extent(&cfg), v(5, 305));
    assert_eq!(WallLocation::Right.half_extent(&cfg), v(5, 305));
    // horizontal walls: (arena width + thickness) / 2 wide, half thickness tall
    assert_eq!(WallLocation::Bottom.half_extent(&cfg), v(455, 5));
    assert_eq!(WallLocation::Top.half_extent(&cfg), v(455, 5));
}

#[test]
fn validate_accepts_canonical_config() {
    assert!(canonical_config().validate());
}

#[test]
fn validate_rejects_non_positive_arena() {
    let mut cfg = canonical_config();
    cfg.right_wall = cfg.left_wall;
    assert!(!cfg.validate());
    let mut cfg2 = canonical_config();
    cfg2.top_wall = -300;
    cfg2.bottom_wall = 300;
    assert!(!cfg2.validate());
}

#[test]
fn validate_rejects_negative_extent() {
    let mut cfg = canonical_config();
    cfg.ball_extent = v(-1, 15);
    assert!(!cfg.validate());
}

#[test]
fn clamp_inside_and_outside() {
    assert_eq!(clamp_i64(5, 0, 10), 5);
    assert_eq!(clamp_i64(-3, 0, 10), 0);
    assert_eq!(clamp_i64(42, 0, 10), 10);
    assert_eq!(clamp_i64(7, 7, 7), 7);
}
