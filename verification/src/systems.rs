//! The three per-tick systems and their fixed ordering: the velocity
//! integrator, the input-driven mover, and the collision resolver.

use vstd::prelude::*;
use crate::collide::{detect, detect_spec, Side};
use crate::geom::{clamp_i64, clamp_s, in_coord_range, vec2_wf, Vec2i, DT_LIMIT};
use crate::world::{
    count_marked, entity_wf, has_marker, lemma_count_pointwise, lemma_unique_marked, the_marked,
    Config, Entity, Marker, QueryError, World, find_unique,
};

verus! {

/// Which direction keys are held this tick (held state, not press edges).
#[derive(Clone, Copy, Debug)]
pub struct KeyState {
    pub up: bool,
    pub down: bool,
    pub left: bool,
    pub right: bool,
}

/// A collision happened this tick. Fire-and-forget: no payload.
#[derive(Clone, Copy, Debug)]
pub struct CollisionEvent;

/// Which per-tick stage hit a failed exactly-one-match expectation.
#[derive(Clone, Copy, Debug, PartialEq, Eq)]
pub enum TickError {
    /// The mover found no or several controlled entities.
    Mover(QueryError),
    /// The resolver found no or several kinetic entities.
    Resolver(QueryError),
}

// ---------------------------------------------------------------------------
// Velocity integrator
// ---------------------------------------------------------------------------

/// One integration step: position advanced by velocity times the tick
/// duration; entities without velocity are untouched.
pub open spec fn integrate_entity(e: Entity, dt: int) -> Entity {
    match e.vel {
        Option::Some(v) => Entity {
            pos: Vec2i { x: (e.pos.x + v.x * dt) as i64, y: (e.pos.y + v.y * dt) as i64 },
            ..e
        },
        Option::None => e,
    }
}

pub open spec fn integrate_seq(s: Seq<Entity>, dt: int) -> Seq<Entity> {
    s.map_values(|e: Entity| integrate_entity(e, dt))
}

/// Every integrated position stays in the coordinate range.
pub open spec fn integration_fits(s: Seq<Entity>, dt: int) -> bool {
    forall|i: int|
        0 <= i < s.len() && (#[trigger] s[i]).vel is Some ==> in_coord_range(
            s[i].pos.x + s[i].vel->0.x * dt,
        ) && in_coord_range(s[i].pos.y + s[i].vel->0.y * dt)
}

/// Advances every entity that has a velocity by exactly `velocity * dt`,
/// unconditionally and independent of collision state; everything else about
/// every entity is unchanged.
pub fn integrate(w: &mut World, dt: i64)
    requires
        old(w).wf(),
        0 <= dt <= DT_LIMIT,
        integration_fits(old(w).entities@, dt as int),
    ensures
        final(w).cfg == old(w).cfg,
        final(w).wf(),
        final(w).entities@.len() == old(w).entities@.len(),
        final(w).entities@ == integrate_seq(old(w).entities@, dt as int),
        forall|i: int|
            0 <= i < old(w).entities@.len() ==> #[trigger] final(w).entities@[i]
                == integrate_entity(old(w).entities@[i], dt as int),
        forall|i: int|
            0 <= i < old(w).entities@.len() && (#[trigger] old(w).entities@[i]).vel is Some ==> {
                &&& final(w).entities@[i].pos.x == old(w).entities@[i].pos.x + old(
                    w,
                ).entities@[i].vel->0.x * dt
                &&& final(w).entities@[i].pos.y == old(w).entities@[i].pos.y + old(
                    w,
                ).entities@[i].vel->0.y * dt
            },
{
    let n = w.entities.len();
    let mut i: usize = 0;
    while i < n
        invariant
            n == w.entities@.len(),
            n == old(w).entities@.len(),
            0 <= i <= n,
            w.cfg == old(w).cfg,
            old(w).wf(),
            0 <= dt <= DT_LIMIT,
            integration_fits(old(w).entities@, dt as int),
            forall|j: int|
                0 <= j < i ==> #[trigger] w.entities@[j] == integrate_entity(
                    old(w).entities@[j],
                    dt as int,
                ),
            forall|j: int| i <= j < n ==> #[trigger] w.entities@[j] == old(w).entities@[j],
        decreases n - i,
    {
        let e = w.entities[i];
        proof {
            assert(entity_wf(old(w).entities@[i as int]));
        }
        match e.vel {
            Some(v) => {
                let nx = e.pos.x + v.x * dt;
                let ny = e.pos.y + v.y * dt;
                w.entities[i] = Entity { pos: Vec2i { x: nx, y: ny }, ..e };
            },
            None => {},
        }
        i = i + 1;
    }
    proof {
        assert(w.entities@ =~= integrate_seq(old(w).entities@, dt as int));
        assert forall|k: int| 0 <= k < w.entities@.len() implies entity_wf(
            #[trigger] w.entities@[k],
        ) by {
            assert(entity_wf(old(w).entities@[k]));
        }
    }
}

// ---------------------------------------------------------------------------
// Input-driven mover
// ---------------------------------------------------------------------------

/// Held right minus held left: one unit of intended displacement per axis.
pub open spec fn dir_x(k: KeyState) -> int {
    (if k.right {
        1int
    } else {
        0int
    }) - (if k.left {
        1int
    } else {
        0int
    })
}

pub open spec fn dir_y(k: KeyState) -> int {
    (if k.up {
        1int
    } else {
        0int
    }) - (if k.down {
        1int
    } else {
        0int
    })
}

/// Lowest x the controlled entity's center may take: flush against the left
/// wall's inner face.
pub open spec fn lo_x(cfg: Config, e: Entity) -> int {
    cfg.left_wall + cfg.wall_thickness / 2 + e.extent.x
}

pub open spec fn hi_x(cfg: Config, e: Entity) -> int {
    cfg.right_wall - cfg.wall_thickness / 2 - e.extent.x
}

pub open spec fn lo_y(cfg: Config, e: Entity) -> int {
    cfg.bottom_wall + cfg.wall_thickness / 2 + e.extent.y
}

pub open spec fn hi_y(cfg: Config, e: Entity) -> int {
    cfg.top_wall - cfg.wall_thickness / 2 - e.extent.y
}

/// The arena leaves the entity room on both axes; with an entity too large
/// for the arena the clamp interval is empty and a move is a fatal
/// configuration error.
pub open spec fn bounds_ok(cfg: Config, e: Entity) -> bool {
    lo_x(cfg, e) <= hi_x(cfg, e) && lo_y(cfg, e) <= hi_y(cfg, e)
}

pub open spec fn control_bounds_ok(cfg: Config, s: Seq<Entity>) -> bool {
    forall|i: int| 0 <= i < s.len() && (#[trigger] s[i]).controlled ==> bounds_ok(cfg, s[i])
}

/// One mover step: the held directions scaled by the fixed speed constant
/// (not by the tick duration), added to the position, then clamped per axis
/// into the arena. Velocity is neither read nor written.
pub open spec fn move_entity(e: Entity, cfg: Config, k: KeyState) -> Entity {
    Entity {
        pos: Vec2i {
            x: clamp_s(
                e.pos.x + dir_x(k) * cfg.control_speed,
                lo_x(cfg, e),
                hi_x(cfg, e),
            ) as i64,
            y: clamp_s(
                e.pos.y + dir_y(k) * cfg.control_speed,
                lo_y(cfg, e),
                hi_y(cfg, e),
            ) as i64,
        },
        ..e
    }
}

pub open spec fn move_seq(s: Seq<Entity>, cfg: Config, k: KeyState) -> Seq<Entity> {
    if count_marked(s, Marker::Controlled) == 1 {
        let ci = the_marked(s, Marker::Controlled);
        s.update(ci, move_entity(s[ci], cfg, k))
    } else {
        s
    }
}

/// Moves the one controlled entity by the held keys and clamps it inside the
/// arena; every other entity, and the controlled entity's velocity (it has
/// none in the canonical layout), is untouched. Fails, changing nothing,
/// when the controlled entity is missing or not unique.
pub fn move_controlled(w: &mut World, keys: KeyState) -> (r: Result<(), QueryError>)
    requires
        old(w).wf(),
        control_bounds_ok(old(w).cfg, old(w).entities@),
    ensures
        final(w).cfg == old(w).cfg,
        final(w).wf(),
        match r {
            Ok(()) => count_marked(old(w).entities@, Marker::Controlled) == 1
                && final(w).entities@ == move_seq(old(w).entities@, old(w).cfg, keys) && ({
                let ci = the_marked(old(w).entities@, Marker::Controlled);
                let e = old(w).entities@[ci];
                &&& final(w).entities@[ci].pos.x == clamp_s(
                    e.pos.x + dir_x(keys) * old(w).cfg.control_speed,
                    lo_x(old(w).cfg, e),
                    hi_x(old(w).cfg, e),
                )
                &&& final(w).entities@[ci].pos.y == clamp_s(
                    e.pos.y + dir_y(keys) * old(w).cfg.control_speed,
                    lo_y(old(w).cfg, e),
                    hi_y(old(w).cfg, e),
                )
            }),
            Err(QueryError::NoMatch) => final(w).entities@ == old(w).entities@ && count_marked(
                old(w).entities@,
                Marker::Controlled,
            ) == 0,
            Err(QueryError::Multiple) => final(w).entities@ == old(w).entities@ && count_marked(
                old(w).entities@,
                Marker::Controlled,
            ) >= 2,
        },
{
    match find_unique(&w.entities, Marker::Controlled) {
        Err(qe) => Err(qe),
        Ok(ci) => {
            let e = w.entities[ci];
            proof {
                lemma_unique_marked(old(w).entities@, Marker::Controlled, ci as int);
                assert(bounds_ok(old(w).cfg, e));
            }
            let sp = w.cfg.control_speed;
            let step_x: i64 = if keys.right && !keys.left {
                sp
            } else if keys.left && !keys.right {
                -sp
            } else {
                0
            };
            let step_y: i64 = if keys.up && !keys.down {
                sp
            } else if keys.down && !keys.up {
                -sp
            } else {
                0
            };
            let half = w.cfg.wall_thickness / 2;
            let lox = w.cfg.left_wall + half + e.extent.x;
            let hix = w.cfg.right_wall - half - e.extent.x;
            let loy = w.cfg.bottom_wall + half + e.extent.y;
            let hiy = w.cfg.top_wall - half - e.extent.y;
            let nx = clamp_i64(e.pos.x + step_x, lox, hix);
            let ny = clamp_i64(e.pos.y + step_y, loy, hiy);
            w.entities[ci] = Entity { pos: Vec2i { x: nx, y: ny }, ..e };
            proof {
                let sp0 = old(w).cfg.control_speed as int;
                assert(1int * sp0 == sp0) by (nonlinear_arith);
                assert((-1int) * sp0 == -sp0) by (nonlinear_arith);
                assert(0int * sp0 == 0int) by (nonlinear_arith);
                assert(step_x == dir_x(keys) * sp0);
                assert(step_y == dir_y(keys) * sp0);
                assert(w.entities@ == move_seq(old(w).entities@, old(w).cfg, keys));
            }
            Ok(())
        },
    }
}

// ---------------------------------------------------------------------------
// Collision resolver
// ---------------------------------------------------------------------------

/// Reflection with the moving-into-the-contact guard: each side flips its
/// axis only when the velocity still points into the obstacle, so an entity
/// already moving away (a lingering overlap) is left alone; `Inside` never
/// reflects. A flip changes the sign of one component and nothing else.
pub open spec fn reflect_one(v: Vec2i, side: Side) -> Vec2i {
    match side {
        Side::Left => if v.x > 0 {
            Vec2i { x: (-v.x) as i64, y: v.y }
        } else {
            v
        },
        Side::Right => if v.x < 0 {
            Vec2i { x: (-v.x) as i64, y: v.y }
        } else {
            v
        },
        Side::Top => if v.y < 0 {
            Vec2i { x: v.x, y: (-v.y) as i64 }
        } else {
            v
        },
        Side::Bottom => if v.y > 0 {
            Vec2i { x: v.x, y: (-v.y) as i64 }
        } else {
            v
        },
        Side::Inside => v,
    }
}

/// Executable reflection, exactly `reflect_one`.
pub fn reflect(v: Vec2i, side: Side) -> (r: Vec2i)
    requires
        vec2_wf(v),
    ensures
        r == reflect_one(v, side),
        vec2_wf(r),
{
    match side {
        Side::Left => if v.x > 0 {
            Vec2i { x: -v.x, y: v.y }
        } else {
            v
        },
        Side::Right => if v.x < 0 {
            Vec2i { x: -v.x, y: v.y }
        } else {
            v
        },
        Side::Top => if v.y < 0 {
            Vec2i { x: v.x, y: -v.y }
        } else {
            v
        },
        Side::Bottom => if v.y > 0 {
            Vec2i { x: v.x, y: -v.y }
        } else {
            v
        },
        Side::Inside => v,
    }
}

/// The kinetic entity's contact with one other entity: only collidable
/// entities take part in collision tests.
pub open spec fn contact_of(b: Entity, e: Entity) -> Option<Side> {
    if e.collidable {
        detect_spec(b.pos, b.extent, e.pos, e.extent)
    } else {
        Option::None
    }
}

/// The kinetic velocity after resolving contacts against the entities of `s`
/// in order; each contact is evaluated against the velocity as already
/// flipped by earlier contacts of the same tick.
pub open spec fn resolve_vel(b: Entity, v0: Vec2i, s: Seq<Entity>) -> Vec2i
    decreases s.len(),
{
    if s.len() == 0 {
        v0
    } else {
        let v1 = resolve_vel(b, v0, s.drop_last());
        match contact_of(b, s.last()) {
            Option::Some(side) => reflect_one(v1, side),
            Option::None => v1,
        }
    }
}

/// How many contacts the kinetic entity has this tick: one notification is
/// emitted for each.
pub open spec fn contact_count(b: Entity, s: Seq<Entity>) -> nat
    decreases s.len(),
{
    if s.len() == 0 {
        0
    } else {
        contact_count(b, s.drop_last()) + (if contact_of(b, s.last()) is Some {
            1nat
        } else {
            0nat
        })
    }
}

pub open spec fn resolve_seq(s: Seq<Entity>) -> Seq<Entity> {
    if count_marked(s, Marker::Kinetic) == 1 {
        let ki = the_marked(s, Marker::Kinetic);
        let b = s[ki];
        if b.vel is Some {
            s.update(ki, Entity { vel: Some(resolve_vel(b, b.vel->0, s)), ..b })
        } else {
            s
        }
    } else {
        s
    }
}

pub open spec fn resolve_events(s: Seq<Entity>) -> nat {
    if count_marked(s, Marker::Kinetic) == 1 {
        contact_count(s[the_marked(s, Marker::Kinetic)], s)
    } else {
        0
    }
}

/// Runs the one kinetic entity against every collidable entity in arena
/// order, emits one notification per contact, and reflects the kinetic
/// velocity by impact side under the moving-into-the-contact guard.
/// Positions are only read; only the kinetic entity's velocity is written.
/// Fails, changing nothing, when the kinetic entity is missing or not
/// unique.
pub fn resolve_collisions(w: &mut World) -> (r: Result<Vec<CollisionEvent>, QueryError>)
    requires
        old(w).wf(),
    ensures
        final(w).cfg == old(w).cfg,
        final(w).wf(),
        match r {
            Ok(events) => count_marked(old(w).entities@, Marker::Kinetic) == 1
                && final(w).entities@ == resolve_seq(old(w).entities@)
                && events@.len() == resolve_events(
                old(w).entities@,
            ),
            Err(QueryError::NoMatch) => final(w).entities@ == old(w).entities@ && count_marked(
                old(w).entities@,
                Marker::Kinetic,
            ) == 0,
            Err(QueryError::Multiple) => final(w).entities@ == old(w).entities@ && count_marked(
                old(w).entities@,
                Marker::Kinetic,
            ) >= 2,
        },
{
    match find_unique(&w.entities, Marker::Kinetic) {
        Err(qe) => Err(qe),
        Ok(ki) => {
            let b = w.entities[ki];
            proof {
                assert(entity_wf(old(w).entities@[ki as int]));
            }
            let v0: Vec2i = match b.vel {
                Some(vv) => vv,
                None => unreached(),
            };
            let mut v = v0;
            let mut events: Vec<CollisionEvent> = Vec::new();
            let n = w.entities.len();
            let mut i: usize = 0;
            while i < n
                invariant
                    n == w.entities@.len(),
                    w.entities@ == old(w).entities@,
                    w.cfg == old(w).cfg,
                    old(w).wf(),
                    0 <= i <= n,
                    ki < n,
                    b == w.entities@[ki as int],
                    b.vel is Some,
                    v0 == b.vel->0,
                    vec2_wf(v),
                    v == resolve_vel(b, v0, w.entities@.take(i as int)),
                    events@.len() == contact_count(b, w.entities@.take(i as int)),
                decreases n - i,
            {
                let e = w.entities[i];
                if e.collidable {
                    match detect(b.pos, b.extent, e.pos, e.extent) {
                        Some(side) => {
                            events.push(CollisionEvent);
                            v = reflect(v, side);
                        },
                        None => {},
                    }
                }
                proof {
                    let s = w.entities@;
                    assert(s.take(i + 1).drop_last() =~= s.take(i as int));
                    assert(s.take(i + 1).last() == s[i as int]);
                }
                i = i + 1;
            }
            proof {
                assert(w.entities@.take(n as int) =~= old(w).entities@);
                lemma_unique_marked(old(w).entities@, Marker::Kinetic, ki as int);
            }
            w.entities[ki] = Entity { vel: Some(v), ..b };
            proof {
                assert(w.entities@ == resolve_seq(old(w).entities@));
            }
            Ok(events)
        },
    }
}

// ---------------------------------------------------------------------------
// Scheduler
// ---------------------------------------------------------------------------

pub open spec fn tick_seq(s: Seq<Entity>, cfg: Config, k: KeyState, dt: int) -> Seq<Entity> {
    resolve_seq(move_seq(integrate_seq(s, dt), cfg, k))
}

pub open spec fn tick_events(s: Seq<Entity>, cfg: Config, k: KeyState, dt: int) -> nat {
    resolve_events(move_seq(integrate_seq(s, dt), cfg, k))
}

/// Decides exactly whether the next tick's arithmetic stays inside the
/// coordinate range and the clamp intervals are nonempty: an embedder tests
/// this before calling `tick`.
pub fn tick_ready(w: &World, dt: i64) -> (b: bool)
    requires
        w.wf(),
    ensures
        b == (0 <= dt <= DT_LIMIT && integration_fits(w.entities@, dt as int) && control_bounds_ok(
            w.cfg,
            w.entities@,
        )),
{
    if !(0 <= dt && dt <= DT_LIMIT) {
        return false;
    }
    let limit: i64 = crate::geom::COORD_LIMIT;
    let n = w.entities.len();
    let mut i: usize = 0;
    while i < n
        invariant
            n == w.entities@.len(),
            0 <= i <= n,
            w.wf(),
            0 <= dt <= DT_LIMIT,
            limit == crate::geom::COORD_LIMIT,
            forall|j: int|
                0 <= j < i && (#[trigger] w.entities@[j]).vel is Some ==> in_coord_range(
                    w.entities@[j].pos.x + w.entities@[j].vel->0.x * dt,
                ) && in_coord_range(w.entities@[j].pos.y + w.entities@[j].vel->0.y * dt),
            forall|j: int|
                0 <= j < i && (#[trigger] w.entities@[j]).controlled ==> bounds_ok(
                    w.cfg,
                    w.entities@[j],
                ),
        decreases n - i,
    {
        let e = w.entities[i];
        proof {
            assert(entity_wf(w.entities@[i as int]));
        }
        match e.vel {
            Some(v) => {
                proof {
                    assert((-(crate::geom::COORD_LIMIT as int)) * (DT_LIMIT as int) <= (
                    v.x as int) * (dt as int) <= (crate::geom::COORD_LIMIT as int) * (
                    DT_LIMIT as int)) by (nonlinear_arith)
                        requires
                            -(crate::geom::COORD_LIMIT as int) <= v.x as int <= crate::geom::COORD_LIMIT as int,
                            0 <= dt as int <= DT_LIMIT as int,
                    ;
                    assert((-(crate::geom::COORD_LIMIT as int)) * (DT_LIMIT as int) <= (
                    v.y as int) * (dt as int) <= (crate::geom::COORD_LIMIT as int) * (
                    DT_LIMIT as int)) by (nonlinear_arith)
                        requires
                            -(crate::geom::COORD_LIMIT as int) <= v.y as int <= crate::geom::COORD_LIMIT as int,
                            0 <= dt as int <= DT_LIMIT as int,
                    ;
                }
                let nx = e.pos.x + v.x * dt;
                let ny = e.pos.y + v.y * dt;
                if !(-limit <= nx && nx <= limit && -limit <= ny && ny <= limit) {
                    return false;
                }
            },
            None => {},
        }
        if e.controlled {
            let half = w.cfg.wall_thickness / 2;
            let lox = w.cfg.left_wall + half + e.extent.x;
            let hix = w.cfg.right_wall - half - e.extent.x;
            let loy = w.cfg.bottom_wall + half + e.extent.y;
            let hiy = w.cfg.top_wall - half - e.extent.y;
            if lox > hix || loy > hiy {
                return false;
            }
        }
        i = i + 1;
    }
    true
}

/// One fixed tick: integrator, then mover, then resolver, in that order,
/// unconditionally. No entity is created or destroyed. On a failed
/// exactly-one-match expectation the tick stops where the original would
/// have aborted: after the stages already run.
pub fn tick(w: &mut World, keys: KeyState, dt: i64) -> (r: Result<Vec<CollisionEvent>, TickError>)
    requires
        old(w).wf(),
        0 <= dt <= DT_LIMIT,
        integration_fits(old(w).entities@, dt as int),
        control_bounds_ok(old(w).cfg, old(w).entities@),
    ensures
        final(w).cfg == old(w).cfg,
        final(w).wf(),
        match r {
            Ok(events) => count_marked(old(w).entities@, Marker::Controlled) == 1 && count_marked(
                old(w).entities@,
                Marker::Kinetic,
            ) == 1 && final(w).entities@ == tick_seq(old(w).entities@, old(w).cfg, keys, dt as int)
                && events@.len() == tick_events(old(w).entities@, old(w).cfg, keys, dt as int),
            Err(TickError::Mover(qe)) => final(w).entities@ == integrate_seq(
                old(w).entities@,
                dt as int,
            ) && (qe == QueryError::NoMatch <==> count_marked(
                old(w).entities@,
                Marker::Controlled,
            ) == 0) && (qe == QueryError::Multiple <==> count_marked(
                old(w).entities@,
                Marker::Controlled,
            ) >= 2),
            Err(TickError::Resolver(qe)) => count_marked(old(w).entities@, Marker::Controlled)
                == 1 && final(w).entities@ == move_seq(
                integrate_seq(old(w).entities@, dt as int),
                old(w).cfg,
                keys,
            ) && (qe == QueryError::NoMatch <==> count_marked(
                old(w).entities@,
                Marker::Kinetic,
            ) == 0) && (qe == QueryError::Multiple <==> count_marked(
                old(w).entities@,
                Marker::Kinetic,
            ) >= 2),
        },
{
    integrate(w, dt);
    let ghost s1 = w.entities@;
    proof {
        lemma_count_pointwise(old(w).entities@, s1, Marker::Controlled);
        lemma_count_pointwise(old(w).entities@, s1, Marker::Kinetic);
        assert forall|i: int|
            0 <= i < s1.len() && (#[trigger] s1[i]).controlled implies bounds_ok(
            old(w).cfg,
            s1[i],
        ) by {
            assert(s1[i] == integrate_entity(old(w).entities@[i], dt as int));
            assert(bounds_ok(old(w).cfg, old(w).entities@[i]));
        }
        assert(control_bounds_ok(w.cfg, s1));
    }
    match move_controlled(w, keys) {
        Err(qe) => Err(TickError::Mover(qe)),
        Ok(()) => {
            let ghost s2 = w.entities@;
            proof {
                assert(s2 == move_seq(s1, old(w).cfg, keys));
                assert(count_marked(s1, Marker::Controlled) == 1);
                crate::world::lemma_the_marked_valid(s1, Marker::Controlled);
                let ci = the_marked(s1, Marker::Controlled);
                assert(s2 == s1.update(ci, move_entity(s1[ci], old(w).cfg, keys)));
                assert forall|i: int| 0 <= i < s1.len() implies has_marker(
                    s1[i],
                    Marker::Kinetic,
                ) == has_marker(#[trigger] s2[i], Marker::Kinetic) by {
                    if i != ci {
                        assert(s2[i] == s1[i]);
                    }
                }
                lemma_count_pointwise(s1, s2, Marker::Kinetic);
            }
            match resolve_collisions(w) {
                Ok(events) => Ok(events),
                Err(qe) => Err(TickError::Resolver(qe)),
            }
        },
    }
}

} // verus!
