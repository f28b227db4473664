use breakout_core::geom::{Vec2i, COORD_LIMIT, DT_LIMIT};
use breakout_core::systems::{
    integrate, move_controlled, resolve_collisions, reflect, tick, tick_ready, KeyState,
    TickError,
};
use breakout_core::collide::Side;
use breakout_core::world::{setup, Config, Entity, QueryError, World};

fn v(x: i64, y: i64) -> Vec2i {
    Vec2i { x, y }
}

fn no_keys() -> KeyState {
    KeyState { up: false, down: false, left: false, right: false }
}

fn canonical_config() -> Config {
    Config {
        left_wall: -450,
        right_wall: 450,
        bottom_wall: -300,
        top_wall: 300,
        wall_thickness: 10,
        control_speed: 16,
        ball_start: v(0, -50),
        ball_extent: v(15, 15),
        brick_start: v(100, 100),
        brick_extent: v(50, 15),
        brick_velocity: v(360, 360),
    }
}

fn wall_at(pos: Vec2i, extent: Vec2i) -> Entity {
    Entity { pos, extent, vel: None, collidable: true, kinetic: false, controlled: false }
}

fn brick_at(pos: Vec2i, extent: Vec2i, vel: Vec2i) -> Entity {
    Entity { pos, extent, vel: Some(vel), collidable: true, kinetic: true, controlled: false }
}

fn ball_at(pos: Vec2i, extent: Vec2i) -> Entity {
    Entity { pos, extent, vel: None, collidable: false, kinetic: false, controlled: true }
}

#[test]
fn integration_is_exact() {
    let mut w = World {
        entities: vec![
            Entity {
                pos: v(3, 4),
                extent: v(1, 1),
                vel: Some(v(5, -7)),
                collidable: false,
                kinetic: false,
                controlled: false,
            },
            wall_at(v(10, 10), v(2, 2)),
        ],
        cfg: canonical_config(),
    };
    integrate(&mut w, 2);
    assert_eq!(w.entities[0].pos, v(13, -10));
    assert_eq!(w.entities[0].vel, Some(v(5, -7)));
    assert_eq!(w.entities[1].pos, v(10, 10));
}

#[test]
fn left_contact_reflects_x_only() {
    // kinetic entity overlapping the wall's left edge with vx > 0
    let mut w = World {
        entities: vec![
            wall_at(v(505, 0), v(5, 150)),
            brick_at(v(451, 0), v(50, 15), v(100, 100)),
        ],
        cfg: canonical_config(),
    };
    let events = resolve_collisions(&mut w).unwrap();
    // one contact with the wall, one degenerate self-contact (Inside)
    assert_eq!(events.len(), 2);
    assert_eq!(w.entities[1].vel, Some(v(-100, 100)));
    // magnitude conserved
    assert_eq!((-100i64) * (-100) + 100 * 100, 100i64 * 100 + 100 * 100);
}

#[test]
fn moving_away_is_not_reflected_again() {
    // same overlap, but vx already negative: velocity untouched
    let mut w = World {
        entities: vec![
            wall_at(v(505, 0), v(5, 150)),
            brick_at(v(451, 0), v(50, 15), v(-100, 50)),
        ],
        cfg: canonical_config(),
    };
    let events = resolve_collisions(&mut w).unwrap();
    assert_eq!(events.len(), 2);
    assert_eq!(w.entities[1].vel, Some(v(-100, 50)));
}

#[test]
fn inside_contact_keeps_velocity() {
    // a small collidable box fully inside the kinetic entity
    let mut w = World {
        entities: vec![
            wall_at(v(0, 0), v(1, 1)),
            brick_at(v(0, 0), v(50, 15), v(7, 9)),
        ],
        cfg: canonical_config(),
    };
    let events = resolve_collisions(&mut w).unwrap();
    assert_eq!(events.len(), 2);
    assert_eq!(w.entities[1].vel, Some(v(7, 9)));
}

#[test]
fn reflect_flips_one_axis_sign() {
    assert_eq!(reflect(v(3, 4), Side::Left), v(-3, 4));
    assert_eq!(reflect(v(-3, 4), Side::Left), v(-3, 4));
    assert_eq!(reflect(v(-3, 4), Side::Right), v(3, 4));
    assert_eq!(reflect(v(3, -4), Side::Top), v(3, 4));
    assert_eq!(reflect(v(3, 4), Side::Bottom), v(3, -4));
    assert_eq!(reflect(v(3, 4), Side::Inside), v(3, 4));
}

#[test]
fn resolver_requires_exactly_one_kinetic_entity() {
    let mut none = World {
        entities: vec![wall_at(v(505, 0), v(5, 150))],
        cfg: canonical_config(),
    };
    assert_eq!(resolve_collisions(&mut none).unwrap_err(), QueryError::NoMatch);
    assert_eq!(none.entities[0].pos, v(505, 0));

    let mut two = World {
        entities: vec![
            brick_at(v(0, 0), v(50, 15), v(1, 1)),
            brick_at(v(200, 0), v(50, 15), v(1, 1)),
        ],
        cfg: canonical_config(),
    };
    assert_eq!(resolve_collisions(&mut two).unwrap_err(), QueryError::Multiple);
    assert_eq!(two.entities[0].vel, Some(v(1, 1)));
}

#[test]
fn mover_requires_exactly_one_controlled_entity() {
    let mut none = World {
        entities: vec![wall_at(v(505, 0), v(5, 150))],
        cfg: canonical_config(),
    };
    assert_eq!(move_controlled(&mut none, no_keys()).unwrap_err(), QueryError::NoMatch);

    let mut two = World {
        entities: vec![ball_at(v(0, 0), v(15, 15)), ball_at(v(1, 1), v(15, 15))],
        cfg: canonical_config(),
    };
    assert_eq!(move_controlled(&mut two, no_keys()).unwrap_err(), QueryError::Multiple);
    assert_eq!(two.entities[0].pos, v(0, 0));
}

#[test]
fn all_keys_released_leaves_position_unchanged() {
    // controlled entity at the arena center, no key held
    let cfg = canonical_config();
    let mut w = setup(&cfg);
    let events = tick(&mut w, no_keys(), 1).unwrap();
    assert_eq!(w.entities[4].pos, v(0, -50));
    // the kinetic entity still integrated and had its degenerate self-contact
    assert_eq!(w.entities[5].pos, v(460, 460));
    assert_eq!(events.len(), 1);
}

#[test]
fn held_key_clamps_at_the_boundary() {
    // controlled at (449, 0), half-width 15, right boundary 450, thickness 10:
    // one step right clamps x to 450 - 5 - 15 = 430
    let mut cfg = canonical_config();
    cfg.ball_start = v(449, 0);
    let mut w = setup(&cfg);
    let keys = KeyState { up: false, down: false, left: false, right: true };
    move_controlled(&mut w, keys).unwrap();
    assert_eq!(w.entities[4].pos, v(430, 0));
}

#[test]
fn diagonal_input_is_unnormalized() {
    let mut cfg = canonical_config();
    cfg.ball_start = v(0, 0);
    let mut w = setup(&cfg);
    let keys = KeyState { up: true, down: false, left: false, right: true };
    move_controlled(&mut w, keys).unwrap();
    // both axes get the full speed unit: faster diagonal traversal, preserved
    assert_eq!(w.entities[4].pos, v(16, 16));
}

#[test]
fn opposite_keys_cancel() {
    let mut cfg = canonical_config();
    cfg.ball_start = v(10, 20);
    let mut w = setup(&cfg);
    let keys = KeyState { up: true, down: true, left: true, right: true };
    move_controlled(&mut w, keys).unwrap();
    assert_eq!(w.entities[4].pos, v(10, 20));
}

#[test]
fn tick_integrates_before_resolving() {
    // the kinetic entity reaches the wall only through this tick's integration
    let mut w = World {
        entities: vec![
            wall_at(v(505, 0), v(5, 150)),
            ball_at(v(0, -50), v(15, 15)),
            brick_at(v(399, 0), v(50, 15), v(52, 0)),
        ],
        cfg: canonical_config(),
    };
    let events = tick(&mut w, no_keys(), 1).unwrap();
    assert_eq!(w.entities[2].pos, v(451, 0));
    assert_eq!(w.entities[2].vel, Some(v(-52, 0)));
    assert_eq!(events.len(), 2);
}

#[test]
fn tick_reports_the_failing_stage() {
    let cfg = canonical_config();
    let mut no_ball = setup(&cfg);
    no_ball.entities.remove(4);
    assert_eq!(
        tick(&mut no_ball, no_keys(), 1).unwrap_err(),
        TickError::Mover(QueryError::NoMatch)
    );
    // the integrator had already run when the mover failed
    assert_eq!(no_ball.entities[4].pos, v(460, 460));

    let mut no_brick = setup(&cfg);
    no_brick.entities.remove(5);
    assert_eq!(
        tick(&mut no_brick, no_keys(), 1).unwrap_err(),
        TickError::Resolver(QueryError::NoMatch)
    );
}

#[test]
fn tick_ready_gates_the_tick() {
    let cfg = canonical_config();
    let w = setup(&cfg);
    assert!(tick_ready(&w, 1));
    assert!(tick_ready(&w, 0));
    assert!(!tick_ready(&w, -1));
    assert!(!tick_ready(&w, DT_LIMIT + 1));

    // an integration step that would leave the coordinate range is refused
    let far = World {
        entities: vec![brick_at(v(COORD_LIMIT, 0), v(1, 1), v(1, 0))],
        cfg: canonical_config(),
    };
    assert!(!tick_ready(&far, 1));

    // a controlled entity too large for the arena is refused
    let huge = World {
        entities: vec![ball_at(v(0, 0), v(5000, 15))],
        cfg: canonical_config(),
    };
    assert!(!tick_ready(&huge, 1));
}

#[test]
fn long_run_keeps_ball_in_bounds_and_speed_magnitude() {
    let mut cfg = canonical_config();
    cfg.brick_velocity = v(6, 6);
    let mut w = setup(&cfg);
    let keys = KeyState { up: true, down: false, left: false, right: true };
    for _ in 0..200 {
        assert!(tick_ready(&w, 1));
        tick(&mut w, keys, 1).unwrap();
        let ball = &w.entities[4];
        assert!(-430 <= ball.pos.x && ball.pos.x <= 430);
        assert!(-280 <= ball.pos.y && ball.pos.y <= 280);
        let bv = w.entities[5].vel.unwrap();
        assert!(bv.x == 6 || bv.x == -6);
        assert!(bv.y == 6 || bv.y == -6);
    }
    // driven into the corner and held there
    assert_eq!(w.entities[4].pos, v(430, 280));
}

#[test]
fn setup_builds_the_canonical_world() {
    let cfg = canonical_config();
    assert!(cfg.validate());
    let w = setup(&cfg);
    assert_eq!(w.entities.len(), 6);
    for i in 0..4 {
        assert!(w.entities[i].collidable);
        assert!(w.entities[i].vel.is_none());
        assert!(!w.entities[i].kinetic);
        assert!(!w.entities[i].controlled);
    }
    assert_eq!(w.entities[0].pos, v(-450, 0));
    assert_eq!(w.entities[0].extent, v(5, 305));
    assert_eq!(w.entities[2].pos, v(0, -300));
    assert_eq!(w.entities[2].extent, v(455, 5));
    let ball = &w.entities[4];
    assert!(ball.controlled && !ball.collidable && !ball.kinetic && ball.vel.is_none());
    assert_eq!(ball.pos, v(0, -50));
    let brick = &w.entities[5];
    assert!(brick.kinetic && brick.collidable && !brick.controlled);
    assert_eq!(brick.vel, Some(v(360, 360)));
}
