//! Points and vectors of the plane, and the display-side geometry records.
//!
//! A `Vec2` serves as both a point and a vector: a pair of fixed-point
//! scalars with no ownership semantics. Every operation mirrors an exact
//! spec-level model over the scalar models of [`crate::fx`].

use vstd::prelude::*;

verus! {

use crate::fx::{
    fx_add, fx_add_s, fx_sub, fx_sub_s, fx_neg, fx_neg_s, fx_mul, fx_mul_s, fx_div, fx_div_s,
    fx_sqrt, fx_sqrt_s, fx_abs, fx_abs_s, fx_sin, fx_sin_s, fx_cos, fx_cos_s,
};

/// Distances whose coordinates are both at most this raw bound (about 1e-6
/// world units) count as zero; a contact with so small a penetration vector
/// is ignored rather than risking a degenerate normal.
pub const EPS_RAW: i64 = 4096;

#[derive(Clone, Copy, PartialEq, Eq, Structural, Debug)]
pub struct Vec2 {
    pub x: i64,
    pub y: i64,
}

pub open spec fn v_zero() -> Vec2 {
    Vec2 { x: 0, y: 0 }
}

pub open spec fn v_add_s(a: Vec2, b: Vec2) -> Vec2 {
    Vec2 { x: fx_add_s(a.x as int, b.x as int) as i64, y: fx_add_s(a.y as int, b.y as int) as i64 }
}

pub open spec fn v_sub_s(a: Vec2, b: Vec2) -> Vec2 {
    Vec2 { x: fx_sub_s(a.x as int, b.x as int) as i64, y: fx_sub_s(a.y as int, b.y as int) as i64 }
}

pub open spec fn v_neg_s(a: Vec2) -> Vec2 {
    Vec2 { x: fx_neg_s(a.x as int) as i64, y: fx_neg_s(a.y as int) as i64 }
}

pub open spec fn v_scale_s(a: Vec2, k: int) -> Vec2 {
    Vec2 { x: fx_mul_s(a.x as int, k) as i64, y: fx_mul_s(a.y as int, k) as i64 }
}

pub open spec fn v_dot_s(a: Vec2, b: Vec2) -> int {
    fx_add_s(fx_mul_s(a.x as int, b.x as int), fx_mul_s(a.y as int, b.y as int))
}

pub open spec fn v_cross_s(a: Vec2, b: Vec2) -> int {
    fx_sub_s(fx_mul_s(a.x as int, b.y as int), fx_mul_s(a.y as int, b.x as int))
}

/// Rotation by a quarter turn counterclockwise.
pub open spec fn v_perp_s(a: Vec2) -> Vec2 {
    Vec2 { x: fx_neg_s(a.y as int) as i64, y: a.x }
}

pub open spec fn v_norm_s(a: Vec2) -> int {
    fx_sqrt_s(fx_add_s(fx_mul_s(a.x as int, a.x as int), fx_mul_s(a.y as int, a.y as int)))
}

/// The unit vector of `a`; the zero vector when `a` has zero norm.
pub open spec fn v_unit_s(a: Vec2) -> Vec2 {
    let n = v_norm_s(a);
    Vec2 { x: fx_div_s(a.x as int, n) as i64, y: fx_div_s(a.y as int, n) as i64 }
}

pub open spec fn v_near_zero_s(a: Vec2) -> bool {
    fx_abs_s(a.x as int) <= EPS_RAW as int && fx_abs_s(a.y as int) <= EPS_RAW as int
}

/// Rotation of `a` by `angle` radians counterclockwise.
pub open spec fn v_rotate_s(a: Vec2, angle: int) -> Vec2 {
    let c = fx_cos_s(angle);
    let s = fx_sin_s(angle);
    Vec2 {
        x: fx_sub_s(fx_mul_s(a.x as int, c), fx_mul_s(a.y as int, s)) as i64,
        y: fx_add_s(fx_mul_s(a.x as int, s), fx_mul_s(a.y as int, c)) as i64,
    }
}

impl Vec2 {
    pub fn zero() -> (r: Vec2)
        ensures
            r == v_zero(),
    {
        Vec2 { x: 0, y: 0 }
    }

    pub fn add(self, other: Vec2) -> (r: Vec2)
        ensures
            r == v_add_s(self, other),
    {
        Vec2 { x: fx_add(self.x, other.x), y: fx_add(self.y, other.y) }
    }

    pub fn sub(self, other: Vec2) -> (r: Vec2)
        ensures
            r == v_sub_s(self, other),
    {
        Vec2 { x: fx_sub(self.x, other.x), y: fx_sub(self.y, other.y) }
    }

    pub fn neg(self) -> (r: Vec2)
        ensures
            r == v_neg_s(self),
    {
        Vec2 { x: fx_neg(self.x), y: fx_neg(self.y) }
    }

    pub fn scale(self, k: i64) -> (r: Vec2)
        ensures
            r == v_scale_s(self, k as int),
    {
        Vec2 { x: fx_mul(self.x, k), y: fx_mul(self.y, k) }
    }

    /// The vector from `self` to `other`.
    pub fn to(self, other: Vec2) -> (r: Vec2)
        ensures
            r == v_sub_s(other, self),
    {
        other.sub(self)
    }

    pub fn dot(self, other: Vec2) -> (r: i64)
        ensures
            r as int == v_dot_s(self, other),
    {
        fx_add(fx_mul(self.x, other.x), fx_mul(self.y, other.y))
    }

    pub fn cross(self, other: Vec2) -> (r: i64)
        ensures
            r as int == v_cross_s(self, other),
    {
        fx_sub(fx_mul(self.x, other.y), fx_mul(self.y, other.x))
    }

    pub fn perpendicular(self) -> (r: Vec2)
        ensures
            r == v_perp_s(self),
    {
        Vec2 { x: fx_neg(self.y), y: self.x }
    }

    pub fn norm(self) -> (r: i64)
        ensures
            r as int == v_norm_s(self),
            r >= 0,
    {
        fx_sqrt(fx_add(fx_mul(self.x, self.x), fx_mul(self.y, self.y)))
    }

    pub fn unit(self) -> (r: Vec2)
        ensures
            r == v_unit_s(self),
    {
        let n = self.norm();
        Vec2 { x: fx_div(self.x, n), y: fx_div(self.y, n) }
    }

    pub fn is_close_enough_to(self, other: Vec2) -> (r: bool)
        ensures
            r == v_near_zero_s(v_sub_s(self, other)),
    {
        let d = self.sub(other);
        fx_abs(d.x) <= EPS_RAW && fx_abs(d.y) <= EPS_RAW
    }

    pub fn rotate_by(self, angle: i64) -> (r: Vec2)
        ensures
            r == v_rotate_s(self, angle as int),
    {
        let c = fx_cos(angle);
        let s = fx_sin(angle);
        Vec2 {
            x: fx_sub(fx_mul(self.x, c), fx_mul(self.y, s)),
            y: fx_add(fx_mul(self.x, s), fx_mul(self.y, c)),
        }
    }
}

/// A circle as the display layer sees it.
#[derive(Clone, Debug)]
pub struct Circle {
    pub center: Vec2,
    pub radius: i64,
}

/// A polygon as the display layer sees it: its ordered vertex loop.
#[derive(Clone, Debug)]
pub struct Polygon {
    pub vertices: Vec<Vec2>,
}

} // verus!
