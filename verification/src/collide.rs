//! Axis-aligned collision detection between two rectangles given as center
//! and half-extent, classifying the contact by the side of the second
//! rectangle that the first one overlaps.

use vstd::prelude::*;
use crate::geom::{vec2_wf, Vec2i};

verus! {

/// How rectangle A touches rectangle B: the side of B that A overlaps, or
/// `Inside` when no single side can be named (degenerate or fully contained
/// overlap). `Inside` is a contact that a resolver must treat as a no-op.
#[derive(Clone, Copy, Debug, PartialEq, Eq)]
pub enum Side {
    Left,
    Right,
    Top,
    Bottom,
    Inside,
}

/// The x-axis classification: `Left`/`Right` with the penetration depth when
/// A straddles exactly one vertical edge of B, else nothing.
pub open spec fn x_contact(a_pos: Vec2i, a_ext: Vec2i, b_pos: Vec2i, b_ext: Vec2i) -> Option<
    (Side, int),
> {
    let a_min = a_pos.x - a_ext.x;
    let a_max = a_pos.x + a_ext.x;
    let b_min = b_pos.x - b_ext.x;
    let b_max = b_pos.x + b_ext.x;
    if a_min < b_min && a_max > b_min && a_max < b_max {
        Some((Side::Left, a_max - b_min))
    } else if a_min > b_min && a_min < b_max && a_max > b_max {
        Some((Side::Right, b_max - a_min))
    } else {
        None
    }
}

/// The y-axis classification: `Bottom`/`Top` with the penetration depth when
/// A straddles exactly one horizontal edge of B, else nothing.
pub open spec fn y_contact(a_pos: Vec2i, a_ext: Vec2i, b_pos: Vec2i, b_ext: Vec2i) -> Option<
    (Side, int),
> {
    let a_min = a_pos.y - a_ext.y;
    let a_max = a_pos.y + a_ext.y;
    let b_min = b_pos.y - b_ext.y;
    let b_max = b_pos.y + b_ext.y;
    if a_min < b_min && a_max > b_min && a_max < b_max {
        Some((Side::Bottom, a_max - b_min))
    } else if a_min > b_min && a_min < b_max && a_max > b_max {
        Some((Side::Top, b_max - a_min))
    } else {
        None
    }
}

pub open spec fn rects_overlap(a_pos: Vec2i, a_ext: Vec2i, b_pos: Vec2i, b_ext: Vec2i) -> bool {
    &&& a_pos.x - a_ext.x < b_pos.x + b_ext.x
    &&& a_pos.x + a_ext.x > b_pos.x - b_ext.x
    &&& a_pos.y - a_ext.y < b_pos.y + b_ext.y
    &&& a_pos.y + a_ext.y > b_pos.y - b_ext.y
}

/// The detector's contract: `None` without overlap; with overlap, the side of
/// the axis with the smaller penetration depth (the x side on a tie), and
/// `Inside` when neither axis names a side.
pub open spec fn detect_spec(a_pos: Vec2i, a_ext: Vec2i, b_pos: Vec2i, b_ext: Vec2i) -> Option<
    Side,
> {
    if !rects_overlap(a_pos, a_ext, b_pos, b_ext) {
        None
    } else {
        match (x_contact(a_pos, a_ext, b_pos, b_ext), y_contact(a_pos, a_ext, b_pos, b_ext)) {
            (Option::None, Option::None) => Some(Side::Inside),
            (Option::Some(xc), Option::None) => Some(xc.0),
            (Option::None, Option::Some(yc)) => Some(yc.0),
            (Option::Some(xc), Option::Some(yc)) => if yc.1 < xc.1 {
                Some(yc.0)
            } else {
                Some(xc.0)
            },
        }
    }
}

/// Classifies the overlap of rectangle A (center `a_pos`, half-extent `a_ext`)
/// with rectangle B. Pure and deterministic; handles zero-area rectangles
/// (they overlap nothing) and negative coordinates.
pub fn detect(a_pos: Vec2i, a_ext: Vec2i, b_pos: Vec2i, b_ext: Vec2i) -> (r: Option<Side>)
    requires
        vec2_wf(a_pos),
        vec2_wf(a_ext),
        vec2_wf(b_pos),
        vec2_wf(b_ext),
    ensures
        r == detect_spec(a_pos, a_ext, b_pos, b_ext),
{
    let a_min_x = a_pos.x - a_ext.x;
    let a_max_x = a_pos.x + a_ext.x;
    let b_min_x = b_pos.x - b_ext.x;
    let b_max_x = b_pos.x + b_ext.x;
    let a_min_y = a_pos.y - a_ext.y;
    let a_max_y = a_pos.y + a_ext.y;
    let b_min_y = b_pos.y - b_ext.y;
    let b_max_y = b_pos.y + b_ext.y;
    if !(a_min_x < b_max_x && a_max_x > b_min_x && a_min_y < b_max_y && a_max_y > b_min_y) {
        return None;
    }
    let x_hit: Option<(Side, i64)> = if a_min_x < b_min_x && a_max_x > b_min_x && a_max_x
        < b_max_x {
        Some((Side::Left, a_max_x - b_min_x))
    } else if a_min_x > b_min_x && a_min_x < b_max_x && a_max_x > b_max_x {
        Some((Side::Right, b_max_x - a_min_x))
    } else {
        None
    };
    let y_hit: Option<(Side, i64)> = if a_min_y < b_min_y && a_max_y > b_min_y && a_max_y
        < b_max_y {
        Some((Side::Bottom, a_max_y - b_min_y))
    } else if a_min_y > b_min_y && a_min_y < b_max_y && a_max_y > b_max_y {
        Some((Side::Top, b_max_y - a_min_y))
    } else {
        None
    };
    match (x_hit, y_hit) {
        (Option::None, Option::None) => Some(Side::Inside),
        (Option::Some((sx, _)), Option::None) => Some(sx),
        (Option::None, Option::Some((sy, _))) => Some(sy),
        (Option::Some((sx, dx)), Option::Some((sy, dy))) => if dy < dx {
            Some(sy)
        } else {
            Some(sx)
        },
    }
}

} // verus!
