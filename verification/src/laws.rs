//! The general laws of the simulation, stated and proved over the same spec
//! functions the systems' contracts use.

use vstd::prelude::*;
use crate::collide::Side;
use crate::geom::{clamp_s, vec2_wf, Vec2i};
use crate::systems::{
    bounds_ok, contact_of, dir_x, dir_y, hi_x, hi_y, lo_x, lo_y, move_entity, reflect_one,
    resolve_vel, KeyState,
};
use crate::world::{entity_wf, Config, Entity};

verus! {

/// Reflection conserves the velocity's magnitude: after any single resolved
/// contact the squared speed is unchanged, each component keeps its absolute
/// value, and at most one component changes sign.
pub proof fn lemma_reflection_conserves_magnitude(v: Vec2i, side: Side)
    requires
        vec2_wf(v),
    ensures
        ({
            let w = reflect_one(v, side);
            &&& w.x * w.x + w.y * w.y == v.x * v.x + v.y * v.y
            &&& w.x == v.x || w.x == -v.x
            &&& w.y == v.y || w.y == -v.y
            &&& w.x == v.x || w.y == v.y
        }),
{
    let w = reflect_one(v, side);
    assert((-(v.x as int)) * (-(v.x as int)) == v.x * v.x) by (nonlinear_arith);
    assert((-(v.y as int)) * (-(v.y as int)) == v.y * v.y) by (nonlinear_arith);
}

/// The kinetic entity's speed magnitude is conserved across a whole
/// resolution pass, however many contacts it resolves: each component keeps
/// its absolute value, so the squared speed is invariant.
pub proof fn lemma_resolution_conserves_magnitude(b: Entity, v0: Vec2i, s: Seq<Entity>)
    requires
        vec2_wf(v0),
    ensures
        ({
            let w = resolve_vel(b, v0, s);
            &&& w.x == v0.x || w.x == -v0.x
            &&& w.y == v0.y || w.y == -v0.y
            &&& w.x * w.x + w.y * w.y == v0.x * v0.x + v0.y * v0.y
            &&& vec2_wf(w)
        }),
    decreases s.len(),
{
    assert((-(v0.x as int)) * (-(v0.x as int)) == v0.x * v0.x) by (nonlinear_arith);
    assert((-(v0.y as int)) * (-(v0.y as int)) == v0.y * v0.y) by (nonlinear_arith);
    if s.len() > 0 {
        lemma_resolution_conserves_magnitude(b, v0, s.drop_last());
        let v1 = resolve_vel(b, v0, s.drop_last());
        match contact_of(b, s.last()) {
            Option::Some(side) => {
                lemma_reflection_conserves_magnitude(v1, side);
            },
            Option::None => {},
        }
    }
}

/// No double reflection: a contact whose side the velocity already points
/// away from leaves the velocity unchanged.
pub proof fn lemma_no_double_reflection(v: Vec2i)
    ensures
        v.x <= 0 ==> reflect_one(v, Side::Left) == v,
        v.x >= 0 ==> reflect_one(v, Side::Right) == v,
        v.y >= 0 ==> reflect_one(v, Side::Top) == v,
        v.y <= 0 ==> reflect_one(v, Side::Bottom) == v,
{
}

/// An `Inside` classification never mutates velocity.
pub proof fn lemma_inside_keeps_velocity(v: Vec2i)
    ensures
        reflect_one(v, Side::Inside) == v,
{
}

/// Clamp correctness at the mover: the moved position never leaves the
/// per-axis boundary interval, and a displacement driving the entity past a
/// boundary lands it exactly on the boundary value (the wall coordinate
/// minus half the wall thickness minus the half-extent, and symmetrically
/// for the lower bounds).
pub proof fn lemma_move_clamps(e: Entity, cfg: Config, keys: KeyState)
    requires
        cfg.wf(),
        entity_wf(e),
        bounds_ok(cfg, e),
    ensures
        ({
            let m = move_entity(e, cfg, keys);
            &&& lo_x(cfg, e) <= m.pos.x <= hi_x(cfg, e)
            &&& lo_y(cfg, e) <= m.pos.y <= hi_y(cfg, e)
            &&& e.pos.x + dir_x(keys) * cfg.control_speed > hi_x(cfg, e) ==> m.pos.x == hi_x(
                cfg,
                e,
            )
            &&& e.pos.x + dir_x(keys) * cfg.control_speed < lo_x(cfg, e) ==> m.pos.x == lo_x(
                cfg,
                e,
            )
            &&& e.pos.y + dir_y(keys) * cfg.control_speed > hi_y(cfg, e) ==> m.pos.y == hi_y(
                cfg,
                e,
            )
            &&& e.pos.y + dir_y(keys) * cfg.control_speed < lo_y(cfg, e) ==> m.pos.y == lo_y(
                cfg,
                e,
            )
            &&& lo_x(cfg, e) <= e.pos.x + dir_x(keys) * cfg.control_speed <= hi_x(cfg, e)
                ==> m.pos.x == e.pos.x + dir_x(keys) * cfg.control_speed
            &&& lo_y(cfg, e) <= e.pos.y + dir_y(keys) * cfg.control_speed <= hi_y(cfg, e)
                ==> m.pos.y == e.pos.y + dir_y(keys) * cfg.control_speed
        }),
{
    let cx = clamp_s(e.pos.x + dir_x(keys) * cfg.control_speed, lo_x(cfg, e), hi_x(cfg, e));
    let cy = clamp_s(e.pos.y + dir_y(keys) * cfg.control_speed, lo_y(cfg, e), hi_y(cfg, e));
    assert(-crate::geom::COORD_LIMIT <= lo_x(cfg, e));
    assert(hi_x(cfg, e) <= crate::geom::COORD_LIMIT);
    assert(-crate::geom::COORD_LIMIT <= lo_y(cfg, e));
    assert(hi_y(cfg, e) <= crate::geom::COORD_LIMIT);
    assert(move_entity(e, cfg, keys).pos.x == cx);
    assert(move_entity(e, cfg, keys).pos.y == cy);
}

} // verus!
