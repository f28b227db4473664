//! The entity arena: per-entity spatial state with capability markers, the
//! arena configuration, the walls, the initial world, and the
//! exactly-one-match query that the mover and the resolver rely on.

use vstd::prelude::*;
use crate::geom::{in_coord_range, vec2_nonneg, vec2_wf, Vec2i};

verus! {

/// One entity: spatial state plus capability markers. Walls are collidable
/// and carry no velocity; the single kinetic entity ("brick") is collidable
/// and its velocity is reflected on contact; the single controlled entity
/// ("ball") is driven by input instead of velocity.
#[derive(Clone, Copy, Debug, PartialEq, Eq)]
pub struct Entity {
    /// Center of the entity's rectangle.
    pub pos: Vec2i,
    /// Half-width and half-height of the entity's rectangle.
    pub extent: Vec2i,
    /// Units per tick-duration unit; absent on static entities.
    pub vel: Option<Vec2i>,
    /// Takes part in collision tests.
    pub collidable: bool,
    /// The one entity whose velocity collision response mutates.
    pub kinetic: bool,
    /// The one entity moved directly by input.
    pub controlled: bool,
}

pub open spec fn entity_wf(e: Entity) -> bool {
    &&& vec2_wf(e.pos)
    &&& vec2_wf(e.extent)
    &&& vec2_nonneg(e.extent)
    &&& (e.vel is Some ==> vec2_wf(e.vel->0))
    &&& (e.kinetic ==> e.vel is Some)
}

/// The world constants, built once at startup: arena boundaries (x of the
/// left/right walls, y of the bottom/top walls), wall thickness, the speed a
/// held key imparts to the controlled entity, and the starting state of the
/// controlled and the kinetic entity.
#[derive(Clone, Copy, Debug, PartialEq, Eq)]
pub struct Config {
    pub left_wall: i64,
    pub right_wall: i64,
    pub bottom_wall: i64,
    pub top_wall: i64,
    pub wall_thickness: i64,
    pub control_speed: i64,
    pub ball_start: Vec2i,
    pub ball_extent: Vec2i,
    pub brick_start: Vec2i,
    pub brick_extent: Vec2i,
    pub brick_velocity: Vec2i,
}

impl Config {
    /// A usable configuration: the arena has positive width and height
    /// (anything else is a fatal setup error), sizes and speeds are
    /// nonnegative, and every scalar lies in the coordinate range.
    pub open spec fn wf(self) -> bool {
        &&& self.right_wall > self.left_wall
        &&& self.top_wall > self.bottom_wall
        &&& self.wall_thickness >= 0
        &&& self.control_speed >= 0
        &&& self.right_wall - self.left_wall + self.wall_thickness <= 2 * crate::geom::COORD_LIMIT
        &&& self.top_wall - self.bottom_wall + self.wall_thickness <= 2 * crate::geom::COORD_LIMIT
        &&& in_coord_range(self.left_wall as int)
        &&& in_coord_range(self.right_wall as int)
        &&& in_coord_range(self.bottom_wall as int)
        &&& in_coord_range(self.top_wall as int)
        &&& in_coord_range(self.wall_thickness as int)
        &&& in_coord_range(self.control_speed as int)
        &&& vec2_wf(self.ball_start)
        &&& vec2_wf(self.ball_extent)
        &&& vec2_nonneg(self.ball_extent)
        &&& vec2_wf(self.brick_start)
        &&& vec2_wf(self.brick_extent)
        &&& vec2_nonneg(self.brick_extent)
        &&& vec2_wf(self.brick_velocity)
    }

    /// The fail-fast gate of setup: decides exactly whether this
    /// configuration is usable.
    pub fn validate(&self) -> (b: bool)
        ensures
            b == self.wf(),
    {
        let limit: i64 = crate::geom::COORD_LIMIT;
        if !(self.right_wall > self.left_wall && self.top_wall > self.bottom_wall) {
            return false;
        }
        if !(self.wall_thickness >= 0 && self.control_speed >= 0) {
            return false;
        }
        if !(-limit <= self.left_wall && self.right_wall <= limit) {
            return false;
        }
        if !(-limit <= self.bottom_wall && self.top_wall <= limit) {
            return false;
        }
        if !(self.wall_thickness <= limit && self.control_speed <= limit) {
            return false;
        }
        if !(self.right_wall - self.left_wall + self.wall_thickness <= 2 * limit) {
            return false;
        }
        if !(self.top_wall - self.bottom_wall + self.wall_thickness <= 2 * limit) {
            return false;
        }
        vec2_in_range(&self.ball_start) && vec2_in_range(&self.ball_extent) && self.ball_extent.x
            >= 0 && self.ball_extent.y >= 0 && vec2_in_range(&self.brick_start) && vec2_in_range(
            &self.brick_extent,
        ) && self.brick_extent.x >= 0 && self.brick_extent.y >= 0 && vec2_in_range(
            &self.brick_velocity,
        )
    }
}

fn vec2_in_range(v: &Vec2i) -> (b: bool)
    ensures
        b == vec2_wf(*v),
{
    let limit: i64 = crate::geom::COORD_LIMIT;
    -limit <= v.x && v.x <= limit && -limit <= v.y && v.y <= limit
}

/// Which of the four arena walls.
#[derive(Clone, Copy, Debug, PartialEq, Eq)]
pub enum WallLocation {
    Left,
    Right,
    Bottom,
    Top,
}

pub open spec fn wall_center(loc: WallLocation, cfg: Config) -> Vec2i {
    match loc {
        WallLocation::Left => Vec2i { x: cfg.left_wall, y: 0 },
        WallLocation::Right => Vec2i { x: cfg.right_wall, y: 0 },
        WallLocation::Bottom => Vec2i { x: 0, y: cfg.bottom_wall },
        WallLocation::Top => Vec2i { x: 0, y: cfg.top_wall },
    }
}

/// Half-extent of a wall: half its thickness across, and half the arena
/// dimension plus half the thickness along, so adjacent walls meet flush at
/// the corners (integer halves, rounded toward zero).
pub open spec fn wall_half_extent(loc: WallLocation, cfg: Config) -> Vec2i {
    let half_across = (cfg.wall_thickness / 2) as i64;
    let half_tall = ((cfg.top_wall - cfg.bottom_wall + cfg.wall_thickness) / 2) as i64;
    let half_wide = ((cfg.right_wall - cfg.left_wall + cfg.wall_thickness) / 2) as i64;
    match loc {
        WallLocation::Left => Vec2i { x: half_across, y: half_tall },
        WallLocation::Right => Vec2i { x: half_across, y: half_tall },
        WallLocation::Bottom => Vec2i { x: half_wide, y: half_across },
        WallLocation::Top => Vec2i { x: half_wide, y: half_across },
    }
}

impl WallLocation {
    /// Center of this wall: on its boundary coordinate, centered on the
    /// other axis.
    pub fn position(self, cfg: &Config) -> (r: Vec2i)
        requires
            cfg.wf(),
        ensures
            r == wall_center(self, *cfg),
    {
        match self {
            WallLocation::Left => Vec2i { x: cfg.left_wall, y: 0 },
            WallLocation::Right => Vec2i { x: cfg.right_wall, y: 0 },
            WallLocation::Bottom => Vec2i { x: 0, y: cfg.bottom_wall },
            WallLocation::Top => Vec2i { x: 0, y: cfg.top_wall },
        }
    }

    /// Half-extent of this wall's rectangle.
    pub fn half_extent(self, cfg: &Config) -> (r: Vec2i)
        requires
            cfg.wf(),
        ensures
            r == wall_half_extent(self, *cfg),
            vec2_wf(r),
            vec2_nonneg(r),
    {
        let half_across = cfg.wall_thickness / 2;
        match self {
            WallLocation::Left | WallLocation::Right => {
                let half_tall = (cfg.top_wall - cfg.bottom_wall + cfg.wall_thickness) / 2;
                Vec2i { x: half_across, y: half_tall }
            },
            WallLocation::Bottom | WallLocation::Top => {
                let half_wide = (cfg.right_wall - cfg.left_wall + cfg.wall_thickness) / 2;
                Vec2i { x: half_wide, y: half_across }
            },
        }
    }
}

/// A wall entity: collidable, static, never moved after creation.
pub open spec fn wall_entity(loc: WallLocation, cfg: Config) -> Entity {
    Entity {
        pos: wall_center(loc, cfg),
        extent: wall_half_extent(loc, cfg),
        vel: None,
        collidable: true,
        kinetic: false,
        controlled: false,
    }
}

/// The controlled entity as created at setup: input-driven, not collidable
/// in the canonical layout, without a velocity.
pub open spec fn ball_entity(cfg: Config) -> Entity {
    Entity {
        pos: cfg.ball_start,
        extent: cfg.ball_extent,
        vel: None,
        collidable: false,
        kinetic: false,
        controlled: true,
    }
}

/// The kinetic entity as created at setup: collidable, carrying the initial
/// diagonal velocity.
pub open spec fn brick_entity(cfg: Config) -> Entity {
    Entity {
        pos: cfg.brick_start,
        extent: cfg.brick_extent,
        vel: Some(cfg.brick_velocity),
        collidable: true,
        kinetic: true,
        controlled: false,
    }
}

/// The two capability markers a singleton query can ask for.
#[derive(Clone, Copy, Debug, PartialEq, Eq)]
pub enum Marker {
    Kinetic,
    Controlled,
}

pub open spec fn has_marker(e: Entity, m: Marker) -> bool {
    match m {
        Marker::Kinetic => e.kinetic,
        Marker::Controlled => e.controlled,
    }
}

/// How many entities of the sequence carry the marker.
pub open spec fn count_marked(s: Seq<Entity>, m: Marker) -> nat
    decreases s.len(),
{
    if s.len() == 0 {
        0
    } else {
        count_marked(s.drop_last(), m) + (if has_marker(s.last(), m) {
            1nat
        } else {
            0nat
        })
    }
}

/// The index of the marked entity; meaningful when exactly one is marked.
pub open spec fn the_marked(s: Seq<Entity>, m: Marker) -> int {
    choose|i: int| 0 <= i < s.len() && has_marker(s[i], m)
}

/// Failure of an exactly-one-match query: a fatal configuration error, not a
/// recoverable runtime fault.
#[derive(Clone, Copy, Debug, PartialEq, Eq)]
pub enum QueryError {
    /// No entity carries the requested marker.
    NoMatch,
    /// More than one entity carries the requested marker.
    Multiple,
}

/// Appending one entity raises each marker count by one exactly when the
/// entity carries the marker.
pub proof fn lemma_counts_push(s: Seq<Entity>, e: Entity)
    ensures
        count_marked(s.push(e), Marker::Kinetic) == count_marked(s, Marker::Kinetic) + (
        if e.kinetic {
            1nat
        } else {
            0nat
        }),
        count_marked(s.push(e), Marker::Controlled) == count_marked(s, Marker::Controlled) + (
        if e.controlled {
            1nat
        } else {
            0nat
        }),
{
    assert(s.push(e).drop_last() =~= s);
    assert(s.push(e).last() == e);
}

pub proof fn lemma_count_take_step(s: Seq<Entity>, m: Marker, i: int)
    requires
        0 <= i < s.len(),
    ensures
        count_marked(s.take(i + 1), m) == count_marked(s.take(i), m) + (if has_marker(s[i], m) {
            1nat
        } else {
            0nat
        }),
{
    assert(s.take(i + 1).drop_last() =~= s.take(i));
    assert(s.take(i + 1).last() == s[i]);
}

/// A marked entity among the first `i + 1` makes their count positive.
pub proof fn lemma_marked_gives_count(s: Seq<Entity>, m: Marker, i: int)
    requires
        0 <= i < s.len(),
        has_marker(s[i], m),
    ensures
        count_marked(s, m) >= 1,
    decreases s.len(),
{
    if i == s.len() - 1 {
    } else {
        assert(s.drop_last()[i] == s[i]);
        lemma_marked_gives_count(s.drop_last(), m, i);
    }
}

/// Two distinct marked entities make the count at least two.
pub proof fn lemma_two_marked(s: Seq<Entity>, m: Marker, i: int, j: int)
    requires
        0 <= i < s.len(),
        0 <= j < s.len(),
        i != j,
        has_marker(s[i], m),
        has_marker(s[j], m),
    ensures
        count_marked(s, m) >= 2,
    decreases s.len(),
{
    let hi = if i < j {
        j
    } else {
        i
    };
    let lo = if i < j {
        i
    } else {
        j
    };
    if hi == s.len() - 1 {
        lemma_marked_gives_count(s.drop_last(), m, lo);
    } else {
        assert(s.drop_last()[lo] == s[lo]);
        assert(s.drop_last()[hi] == s[hi]);
        lemma_two_marked(s.drop_last(), m, lo, hi);
    }
}

/// A positive count names a marked entity.
pub proof fn lemma_count_pos_exists(s: Seq<Entity>, m: Marker)
    requires
        count_marked(s, m) >= 1,
    ensures
        exists|i: int| 0 <= i < s.len() && has_marker(#[trigger] s[i], m),
    decreases s.len(),
{
    if has_marker(s.last(), m) {
        assert(has_marker(s[s.len() - 1], m));
    } else {
        lemma_count_pos_exists(s.drop_last(), m);
        let i = choose|i: int|
            0 <= i < s.drop_last().len() && has_marker(#[trigger] s.drop_last()[i], m);
        assert(has_marker(s[i], m));
    }
}

/// With exactly one entity marked, `the_marked` is a valid, marked index.
pub proof fn lemma_the_marked_valid(s: Seq<Entity>, m: Marker)
    requires
        count_marked(s, m) == 1,
    ensures
        0 <= the_marked(s, m) < s.len(),
        has_marker(s[the_marked(s, m)], m),
{
    lemma_count_pos_exists(s, m);
}

/// With exactly one entity marked, `the_marked` is its index, and any marked
/// index equals it.
pub proof fn lemma_unique_marked(s: Seq<Entity>, m: Marker, i: int)
    requires
        0 <= i < s.len(),
        has_marker(s[i], m),
        count_marked(s, m) == 1,
    ensures
        the_marked(s, m) == i,
{
    assert(0 <= i < s.len() && has_marker(s[i], m));
    let w = the_marked(s, m);
    assert(0 <= w < s.len() && has_marker(s[w], m));
    if w != i {
        lemma_two_marked(s, m, i, w);
    }
}

/// Sequences whose entities carry the same markers pointwise have the same
/// counts.
pub proof fn lemma_count_pointwise(s1: Seq<Entity>, s2: Seq<Entity>, m: Marker)
    requires
        s1.len() == s2.len(),
        forall|i: int|
            0 <= i < s1.len() ==> has_marker(s1[i], m) == has_marker(#[trigger] s2[i], m),
    ensures
        count_marked(s1, m) == count_marked(s2, m),
    decreases s1.len(),
{
    if s1.len() > 0 {
        assert(forall|i: int|
            0 <= i < s1.drop_last().len() ==> has_marker(s1.drop_last()[i], m) == has_marker(
                #[trigger] s2.drop_last()[i],
                m,
            ));
        lemma_count_pointwise(s1.drop_last(), s2.drop_last(), m);
        assert(has_marker(s1.last(), m) == has_marker(s2[s1.len() - 1], m));
    }
}

/// The explicit exactly-one-match query: the index of the one entity with the
/// marker, or which way the expectation failed.
pub fn find_unique(entities: &Vec<Entity>, m: Marker) -> (r: Result<usize, QueryError>)
    ensures
        match r {
            Ok(i) => i < entities@.len() && has_marker(entities@[i as int], m) && count_marked(
                entities@,
                m,
            ) == 1,
            Err(QueryError::NoMatch) => count_marked(entities@, m) == 0,
            Err(QueryError::Multiple) => count_marked(entities@, m) >= 2,
        },
{
    let n = entities.len();
    let mut found: Option<usize> = None;
    let mut cnt: usize = 0;
    let mut i: usize = 0;
    while i < n
        invariant
            n == entities@.len(),
            0 <= i <= n,
            cnt <= i,
            cnt == count_marked(entities@.take(i as int), m),
            found is Some <==> cnt >= 1,
            found is Some ==> found->0 < i && has_marker(entities@[found->0 as int], m),
        decreases n - i,
    {
        proof {
            lemma_count_take_step(entities@, m, i as int);
        }
        let e = entities[i];
        let marked = match m {
            Marker::Kinetic => e.kinetic,
            Marker::Controlled => e.controlled,
        };
        if marked {
            cnt = cnt + 1;
            if found.is_none() {
                found = Some(i);
            }
        }
        i = i + 1;
    }
    proof {
        assert(entities@.take(n as int) =~= entities@);
    }
    if cnt == 0 {
        Err(QueryError::NoMatch)
    } else if cnt >= 2 {
        Err(QueryError::Multiple)
    } else {
        match found {
            Some(k) => Ok(k),
            None => unreached(),
        }
    }
}

/// The whole simulation state: the entity arena and the configuration it was
/// built from.
pub struct World {
    pub entities: Vec<Entity>,
    pub cfg: Config,
}

impl World {
    pub open spec fn wf(self) -> bool {
        &&& self.cfg.wf()
        &&& forall|i: int| 0 <= i < self.entities@.len() ==> entity_wf(#[trigger] self.entities@[i])
    }
}

/// Builds the initial world from a usable configuration: the four walls, the
/// controlled entity, and the kinetic entity, in that order, and nothing
/// else. Entities are neither created nor destroyed afterwards.
pub fn setup(cfg: &Config) -> (w: World)
    requires
        cfg.wf(),
    ensures
        w.wf(),
        w.cfg == *cfg,
        w.entities@.len() == 6,
        w.entities@[0] == wall_entity(WallLocation::Left, *cfg),
        w.entities@[1] == wall_entity(WallLocation::Right, *cfg),
        w.entities@[2] == wall_entity(WallLocation::Bottom, *cfg),
        w.entities@[3] == wall_entity(WallLocation::Top, *cfg),
        w.entities@[4] == ball_entity(*cfg),
        w.entities@[5] == brick_entity(*cfg),
        count_marked(w.entities@, Marker::Kinetic) == 1,
        count_marked(w.entities@, Marker::Controlled) == 1,
{
    let mut entities: Vec<Entity> = Vec::new();
    let ghost t0 = entities@;
    entities.push(make_wall(WallLocation::Left, cfg));
    let ghost t1 = entities@;
    entities.push(make_wall(WallLocation::Right, cfg));
    let ghost t2 = entities@;
    entities.push(make_wall(WallLocation::Bottom, cfg));
    let ghost t3 = entities@;
    entities.push(make_wall(WallLocation::Top, cfg));
    let ghost t4 = entities@;
    entities.push(
        Entity {
            pos: cfg.ball_start,
            extent: cfg.ball_extent,
            vel: None,
            collidable: false,
            kinetic: false,
            controlled: true,
        },
    );
    let ghost t5 = entities@;
    entities.push(
        Entity {
            pos: cfg.brick_start,
            extent: cfg.brick_extent,
            vel: Some(cfg.brick_velocity),
            collidable: true,
            kinetic: true,
            controlled: false,
        },
    );
    proof {
        lemma_counts_push(t0, t1.last());
        lemma_counts_push(t1, t2.last());
        lemma_counts_push(t2, t3.last());
        lemma_counts_push(t3, t4.last());
        lemma_counts_push(t4, t5.last());
        lemma_counts_push(t5, entities@.last());
    }
    World { entities, cfg: *cfg }
}

fn make_wall(loc: WallLocation, cfg: &Config) -> (e: Entity)
    requires
        cfg.wf(),
    ensures
        e == wall_entity(loc, *cfg),
        entity_wf(e),
{
    Entity {
        pos: loc.position(cfg),
        extent: loc.half_extent(cfg),
        vel: None,
        collidable: true,
        kinetic: false,
        controlled: false,
    }
}

} // verus!
