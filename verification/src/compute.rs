//! Collision computations: the contact descriptor, the rigid-body impulse
//! formula, the convex-overlap test, and the convex-hull builder.
//!
//! The overlap test works on support evaluations along a finite set of
//! candidate separating axes (the edge normals of the polygons involved, the
//! centre-difference axis, and circle-to-vertex axes): if some axis strictly
//! separates the support points the shapes are reported disjoint, otherwise
//! the axis of least overlap yields the penetration vector and the two
//! supporting points that produced it.

use vstd::prelude::*;

verus! {

use crate::fx::{
    FX_ONE, fx_add, fx_add_s, fx_mul, fx_mul_s, fx_div, fx_div_s, fx_neg, fx_neg_s, fx_sub_s,
};
use crate::geometry::{
    Vec2, v_zero, v_add_s, v_sub_s, v_neg_s, v_scale_s, v_dot_s, v_cross_s, v_perp_s, v_unit_s,
    v_near_zero_s,
};
use crate::shape::{
    Shape, ShapeModel, CollisionData, Bounded, shape_support_s, Polygon, MAX_POLY_VERTS,
    poly_includes_s, poly_side_s,
};

/// A contact between two overlapping shapes: the penetration vector (the
/// minimal translation that separates them, over the tested axes) and the
/// two supporting points that produced it.
#[derive(Clone, Copy, PartialEq, Eq, Structural, Debug)]
pub struct Contact {
    pub point: Vec2,
    pub from_first: Vec2,
    pub from_second: Vec2,
}

/// The 2D rigid-body impulse magnitude: relative closing speed along the
/// normal scaled by the restitution factor, divided by the sum of inverse
/// masses and the inverse-inertia-weighted angular terms.
pub open spec fn impulse_s(
    first: CollisionData,
    second: CollisionData,
    first_offset: Vec2,
    second_offset: Vec2,
    normal: Vec2,
    relative_velocity: Vec2,
    factor: int,
) -> int {
    let num = fx_mul_s(fx_neg_s(v_dot_s(relative_velocity, normal)), factor);
    let c1 = v_cross_s(first_offset, normal);
    let c2 = v_cross_s(second_offset, normal);
    let denom = fx_add_s(
        fx_add_s(first.inv_mass as int, second.inv_mass as int),
        fx_add_s(
            fx_mul_s(fx_mul_s(c1, c1), first.inv_inertia as int),
            fx_mul_s(fx_mul_s(c2, c2), second.inv_inertia as int),
        ),
    );
    fx_div_s(num, denom)
}

pub fn impulse(
    first: CollisionData,
    second: CollisionData,
    first_offset: Vec2,
    second_offset: Vec2,
    normal: Vec2,
    relative_velocity: Vec2,
    factor: i64,
) -> (r: i64)
    ensures
        r as int == impulse_s(
            first,
            second,
            first_offset,
            second_offset,
            normal,
            relative_velocity,
            factor as int,
        ),
{
    let num = fx_mul(fx_neg(relative_velocity.dot(normal)), factor);
    let c1 = first_offset.cross(normal);
    let c2 = second_offset.cross(normal);
    let denom = fx_add(
        fx_add(first.inv_mass, second.inv_mass),
        fx_add(
            fx_mul(fx_mul(c1, c1), first.inv_inertia),
            fx_mul(fx_mul(c2, c2), second.inv_inertia),
        ),
    );
    fx_div(num, denom)
}

/// The polygon vertices of a shape model; empty for a circle.
pub open spec fn pverts(m: ShapeModel) -> Seq<Vec2> {
    match m {
        ShapeModel::Circle { .. } => Seq::empty(),
        ShapeModel::Polygon { verts, .. } => verts,
    }
}

/// The polygon whose vertices supply circle-to-vertex axes, when exactly one
/// of the two shapes is a circle; empty otherwise.
pub open spec fn cp_verts(a: ShapeModel, b: ShapeModel) -> Seq<Vec2> {
    if a.is_circle() && !b.is_circle() {
        pverts(b)
    } else if b.is_circle() && !a.is_circle() {
        pverts(a)
    } else {
        Seq::empty()
    }
}

/// The circle centre those circle-to-vertex axes start from.
pub open spec fn cp_center(a: ShapeModel, b: ShapeModel) -> Vec2 {
    if a.is_circle() {
        a.data().centroid
    } else {
        b.data().centroid
    }
}

/// The outward-or-inward normal of the polygon edge that starts at vertex `i`.
pub open spec fn poly_edge_axis_s(verts: Seq<Vec2>, i: int) -> Vec2 {
    let a = verts[i];
    let b = verts[if i + 1 == verts.len() as int {
        0int
    } else {
        i + 1
    }];
    v_perp_s(v_sub_s(b, a))
}

pub open spec fn num_axes_s(a: ShapeModel, b: ShapeModel) -> int {
    2 + 2 * pverts(a).len() as int + 2 * pverts(b).len() as int + 2 * cp_verts(a, b).len() as int
}

/// The candidate separating axis with index `k`: the centre-difference axis,
/// every polygon edge normal, and every circle-to-vertex axis, each in both
/// orientations.
pub open spec fn axis_at_s(a: ShapeModel, b: ShapeModel, k: int) -> Vec2 {
    let ca = v_sub_s(b.data().centroid, a.data().centroid);
    let la = pverts(a).len() as int;
    let lb = pverts(b).len() as int;
    if k == 0 {
        ca
    } else if k == 1 {
        v_neg_s(ca)
    } else if k < 2 + 2 * la {
        let e = poly_edge_axis_s(pverts(a), (k - 2) / 2);
        if (k - 2) % 2 == 0 {
            e
        } else {
            v_neg_s(e)
        }
    } else if k < 2 + 2 * la + 2 * lb {
        let e = poly_edge_axis_s(pverts(b), (k - 2 - 2 * la) / 2);
        if (k - 2 - 2 * la) % 2 == 0 {
            e
        } else {
            v_neg_s(e)
        }
    } else {
        let i = (k - 2 - 2 * la - 2 * lb) / 2;
        let e = v_sub_s(cp_verts(a, b)[i], cp_center(a, b));
        if (k - 2 - 2 * la - 2 * lb) % 2 == 0 {
            e
        } else {
            v_neg_s(e)
        }
    }
}

/// The detector's state after scanning a prefix of the axis list.
pub enum DetectState {
    Separated,
    Empty,
    Best { h: int, u: Vec2, s1: Vec2, s2: Vec2 },
}

pub open spec fn detect_prefix_s(a: ShapeModel, b: ShapeModel, n: int) -> DetectState
    decreases n,
{
    if n <= 0 {
        DetectState::Empty
    } else {
        let prev = detect_prefix_s(a, b, n - 1);
        if prev is Separated {
            DetectState::Separated
        } else {
            let axis = axis_at_s(a, b, n - 1);
            if v_near_zero_s(axis) {
                prev
            } else {
                let u = v_unit_s(axis);
                let s1 = shape_support_s(a, u);
                let s2 = shape_support_s(b, v_neg_s(u));
                let h = v_dot_s(v_sub_s(s1, s2), u);
                if h < 0 {
                    DetectState::Separated
                } else {
                    match prev {
                        DetectState::Empty => DetectState::Best { h, u, s1, s2 },
                        DetectState::Best { h: h0, .. } => if h < h0 {
                            DetectState::Best { h, u, s1, s2 }
                        } else {
                            prev
                        },
                        DetectState::Separated => prev,
                    }
                }
            }
        }
    }
}

/// The contact the detector reports: `None` when some axis separates the
/// shapes (or no usable axis exists), otherwise the least-overlap axis
/// scaled by its overlap, with the supporting points that produced it.
pub open spec fn collision_s(a: ShapeModel, b: ShapeModel) -> Option<Contact> {
    match detect_prefix_s(a, b, num_axes_s(a, b)) {
        DetectState::Best { h, u, s1, s2 } => Some(
            Contact { point: v_scale_s(u, h), from_first: s1, from_second: s2 },
        ),
        _ => None,
    }
}

proof fn lemma_separated_stays(a: ShapeModel, b: ShapeModel, m: int, n: int)
    requires
        0 <= m <= n,
        detect_prefix_s(a, b, m) is Separated,
    ensures
        detect_prefix_s(a, b, n) is Separated,
    decreases n - m,
{
    if m < n {
        lemma_separated_stays(a, b, m, n - 1);
    }
}

fn num_verts(s: &Shape) -> (r: usize)
    ensures
        r as int == pverts(s@).len(),
{
    match s {
        Shape::Circle(_) => 0,
        Shape::Polygon(p) => p.vertices.len(),
    }
}

/// The candidate axis with index `k`, evaluated on the live shapes.
fn axis_at(a: &Shape, b: &Shape, k: usize) -> (r: Vec2)
    requires
        k < num_axes_s(a@, b@),
        pverts(a@).len() <= MAX_POLY_VERTS,
        pverts(b@).len() <= MAX_POLY_VERTS,
    ensures
        r == axis_at_s(a@, b@, k as int),
{
    let la = num_verts(a);
    let lb = num_verts(b);
    if k == 0 {
        b.data().centroid.sub(a.data().centroid)
    } else if k == 1 {
        b.data().centroid.sub(a.data().centroid).neg()
    } else if k < 2 + 2 * la {
        let i = (k - 2) / 2;
        let e = match a {
            Shape::Polygon(p) => {
                let v1 = p.vertices[i];
                let v2 = if i + 1 == p.vertices.len() {
                    p.vertices[0]
                } else {
                    p.vertices[i + 1]
                };
                v2.sub(v1).perpendicular()
            },
            Shape::Circle(_) => Vec2::zero(),
        };
        if (k - 2) % 2 == 0 {
            e
        } else {
            e.neg()
        }
    } else if k < 2 + 2 * la + 2 * lb {
        let i = (k - 2 - 2 * la) / 2;
        let e = match b {
            Shape::Polygon(p) => {
                let v1 = p.vertices[i];
                let v2 = if i + 1 == p.vertices.len() {
                    p.vertices[0]
                } else {
                    p.vertices[i + 1]
                };
                v2.sub(v1).perpendicular()
            },
            Shape::Circle(_) => Vec2::zero(),
        };
        if (k - 2 - 2 * la) % 2 == 0 {
            e
        } else {
            e.neg()
        }
    } else {
        let i = (k - 2 - 2 * la - 2 * lb) / 2;
        let center = match a {
            Shape::Circle(_) => a.data().centroid,
            Shape::Polygon(_) => b.data().centroid,
        };
        let e = match (a, b) {
            (Shape::Circle(_), Shape::Polygon(p)) => p.vertices[i].sub(center),
            (Shape::Polygon(p), Shape::Circle(_)) => p.vertices[i].sub(center),
            _ => Vec2::zero(),
        };
        if (k - 2 - 2 * la - 2 * lb) % 2 == 0 {
            e
        } else {
            e.neg()
        }
    }
}

/// Determines whether two convex shapes overlap; on overlap returns the
/// contact descriptor, on separation (or when every candidate axis is
/// degenerate) returns `None`.
pub fn collision(a: &Shape, b: &Shape) -> (r: Option<Contact>)
    requires
        a@.wf(),
        b@.wf(),
    ensures
        r == collision_s(a@, b@),
{
    let la = num_verts(a);
    let lb = num_verts(b);
    let a_is_circle = match a {
        Shape::Circle(_) => true,
        Shape::Polygon(_) => false,
    };
    let b_is_circle = match b {
        Shape::Circle(_) => true,
        Shape::Polygon(_) => false,
    };
    let lc = if a_is_circle && !b_is_circle {
        lb
    } else if b_is_circle && !a_is_circle {
        la
    } else {
        0
    };
    let total: usize = 2 + 2 * la + 2 * lb + 2 * lc;
    let mut found = false;
    let mut best_h: i64 = 0;
    let mut best_u = Vec2::zero();
    let mut best_s1 = Vec2::zero();
    let mut best_s2 = Vec2::zero();
    let mut k: usize = 0;
    while k < total
        invariant
            a@.wf(),
            b@.wf(),
            total as int == num_axes_s(a@, b@),
            0 <= k <= total,
            detect_prefix_s(a@, b@, k as int) == (if found {
                DetectState::Best {
                    h: best_h as int,
                    u: best_u,
                    s1: best_s1,
                    s2: best_s2,
                }
            } else {
                DetectState::Empty
            }),
        decreases total - k,
    {
        let axis = axis_at(a, b, k);
        if !axis.is_close_enough_to(Vec2::zero()) {
            let u = axis.unit();
            let s1 = a.support_vector(u);
            let s2 = b.support_vector(u.neg());
            let h = s1.sub(s2).dot(u);
            if h < 0 {
                proof {
                    lemma_separated_stays(a@, b@, k as int + 1, total as int);
                }
                return None;
            }
            if !found || h < best_h {
                found = true;
                best_h = h;
                best_u = u;
                best_s1 = s1;
                best_s2 = s2;
            }
        }
        k += 1;
    }
    if found {
        Some(Contact { point: best_u.scale(best_h), from_first: best_s1, from_second: best_s2 })
    } else {
        None
    }
}

/// Largest number of vertices the hull builder hands out.
pub const HULL_MAX_VERTS: usize = 24;

pub open spec fn lex_le_s(a: Vec2, b: Vec2) -> bool {
    a.x < b.x || (a.x == b.x && a.y <= b.y)
}

fn lex_le(a: Vec2, b: Vec2) -> (r: bool)
    ensures
        r == lex_le_s(a, b),
{
    a.x < b.x || (a.x == b.x && a.y <= b.y)
}

fn sort_points(points: &Vec<Vec2>) -> (r: Vec<Vec2>)
    ensures
        r@.len() == points@.len(),
        forall|k: int| 0 <= k < r@.len() ==> points@.contains(#[trigger] r@[k]),
{
    let mut r: Vec<Vec2> = Vec::new();
    let mut i: usize = 0;
    while i < points.len()
        invariant
            0 <= i <= points@.len(),
            r@.len() == i,
            forall|k: int| 0 <= k < r@.len() ==> points@.contains(#[trigger] r@[k]),
        decreases points@.len() - i,
    {
        let p = points[i];
        let mut idx: usize = 0;
        let mut j: usize = 0;
        while j < r.len()
            invariant
                0 <= idx <= j <= r@.len(),
            decreases r@.len() - j,
        {
            if lex_le(r[j], p) {
                idx = j + 1;
            }
            j += 1;
        }
        let ghost r_before = r@;
        r.insert(idx, p);
        proof {
            assert(points@.contains(p)) by {
                assert(points@[i as int] == p);
            }
            assert forall|k: int| 0 <= k < r@.len() implies points@.contains(#[trigger] r@[k]) by {
                if k < idx {
                    assert(r@[k] == r_before[k]);
                } else if k == idx {
                    assert(r@[k] == p);
                } else {
                    assert(r@[k] == r_before[k - 1]);
                }
            }
        }
        i += 1;
    }
    r
}

/// One chain of the hull walk over an ordered point run: pops turn-inward
/// vertices before each push.
fn half_chain(pts: &Vec<Vec2>) -> (r: Vec<Vec2>)
    ensures
        forall|k: int| 0 <= k < r@.len() ==> pts@.contains(#[trigger] r@[k]),
        pts@.len() > 0 ==> r@.len() > 0,
        r@.len() <= pts@.len(),
{
    let mut st: Vec<Vec2> = Vec::new();
    let mut i: usize = 0;
    while i < pts.len()
        invariant
            0 <= i <= pts@.len(),
            st@.len() <= i,
            forall|k: int| 0 <= k < st@.len() ==> pts@.contains(#[trigger] st@[k]),
            i > 0 ==> st@.len() > 0,
        decreases pts@.len() - i,
    {
        let p = pts[i];
        while st.len() >= 2 && st[st.len() - 1].sub(st[st.len() - 2]).cross(
            p.sub(st[st.len() - 2]),
        ) <= 0
            invariant
                st@.len() <= i,
                forall|k: int| 0 <= k < st@.len() ==> pts@.contains(#[trigger] st@[k]),
            decreases st@.len(),
        {
            st.pop();
        }
        st.push(p);
        proof {
            assert(pts@.contains(p)) by {
                assert(pts@[i as int] == p);
            }
        }
        i += 1;
    }
    st
}

pub open spec fn hull_wf_s(input: Seq<Vec2>, out: Seq<Vec2>) -> bool {
    &&& out.len() <= HULL_MAX_VERTS
    &&& input.len() > 0 ==> out.len() > 0
    &&& input.len() == 0 ==> out.len() == 0
}

/// The four corners of an axis-aligned box, counterclockwise.
pub open spec fn box_corners_s(min_x: i64, max_x: i64, min_y: i64, max_y: i64) -> Seq<Vec2> {
    seq![
        Vec2 { x: min_x, y: min_y },
        Vec2 { x: max_x, y: min_y },
        Vec2 { x: max_x, y: max_y },
        Vec2 { x: min_x, y: max_y },
    ]
}

/// An axis-aligned box contains every point within its bounds (each of the
/// four edge cross products keeps a nonnegative sign, saturation included).
proof fn lemma_box_includes(min_x: i64, max_x: i64, min_y: i64, max_y: i64, p: Vec2)
    requires
        min_x <= p.x <= max_x,
        min_y <= p.y <= max_y,
    ensures
        poly_includes_s(box_corners_s(min_x, max_x, min_y, max_y), p),
{
    let c = box_corners_s(min_x, max_x, min_y, max_y);
    let right = fx_sub_s(max_x as int, min_x as int);
    let up = fx_sub_s(max_y as int, min_y as int);
    let px0 = fx_sub_s(p.x as int, min_x as int);
    let px1 = fx_sub_s(p.x as int, max_x as int);
    let py0 = fx_sub_s(p.y as int, min_y as int);
    let py1 = fx_sub_s(p.y as int, max_y as int);
    assert(poly_side_s(c, p, 0) >= 0) by {
        crate::fx::lemma_fx_mul_signs(right, py0);
        crate::fx::lemma_fx_mul_signs(0, px0);
    }
    assert(poly_side_s(c, p, 1) >= 0) by {
        crate::fx::lemma_fx_mul_signs(0, py0);
        crate::fx::lemma_fx_mul_signs(up, px1);
    }
    assert(poly_side_s(c, p, 2) >= 0) by {
        crate::fx::lemma_fx_mul_signs(fx_sub_s(min_x as int, max_x as int), py1);
        crate::fx::lemma_fx_mul_signs(0, px1);
    }
    assert(poly_side_s(c, p, 3) >= 0) by {
        crate::fx::lemma_fx_mul_signs(0, py1);
        crate::fx::lemma_fx_mul_signs(fx_sub_s(min_y as int, max_y as int), px0);
    }
    assert(forall|i: int| 0 <= i < c.len() ==> #[trigger] poly_side_s(c, p, i) >= 0);
}

/// Builds a bounded convex polygon enclosing an arbitrary finite point
/// sequence. A monotone-chain hull walk over the sorted points is tried
/// first; its result is kept only if it respects the vertex cap and, by an
/// explicit check, contains every input point. Otherwise the axis-aligned
/// bounding box of the input stands in: four corners, proven to enclose
/// every input point. Either way the result contains the whole input.
pub fn hull(points: &Vec<Vec2>) -> (r: Polygon)
    requires
        points@.len() <= MAX_POLY_VERTS,
    ensures
        hull_wf_s(points@, r.vertices@),
        forall|q: int|
            0 <= q < points@.len() ==> poly_includes_s(r.vertices@, #[trigger] points@[q]),
        (forall|k: int|
            0 <= k < r.vertices@.len() ==> points@.contains(#[trigger] r.vertices@[k]))
            || r.vertices@.len() == 4,
        r.data == crate::shape::default_data_s(crate::shape::verts_centroid_s(r.vertices@)),
{
    if points.len() == 0 {
        return Polygon::new(Vec::new());
    }
    let candidate: Vec<Vec2>;
    let sorted = sort_points(points);
    if sorted.len() <= 2 {
        candidate = sorted;
    } else {
        let lower = half_chain(&sorted);
        let mut rev: Vec<Vec2> = Vec::new();
        let mut i: usize = sorted.len();
        while i > 0
            invariant
                0 <= i <= sorted@.len(),
                rev@.len() == sorted@.len() - i,
                forall|k: int| 0 <= k < rev@.len() ==> sorted@.contains(#[trigger] rev@[k]),
            decreases i,
        {
            i -= 1;
            let v = sorted[i];
            rev.push(v);
            proof {
                assert(sorted@.contains(v)) by {
                    assert(sorted@[i as int] == v);
                }
            }
        }
        let upper = half_chain(&rev);
        let mut out: Vec<Vec2> = Vec::new();
        let mut j: usize = 0;
        while j < lower.len() - 1
            invariant
                lower@.len() >= 1,
                0 <= j <= lower@.len() - 1,
                out@.len() == j,
                forall|k: int| 0 <= k < lower@.len() ==> sorted@.contains(#[trigger] lower@[k]),
                forall|k: int| 0 <= k < out@.len() ==> sorted@.contains(#[trigger] out@[k]),
            decreases lower@.len() - j,
        {
            out.push(lower[j]);
            proof {
                assert(sorted@.contains(lower@[j as int]));
            }
            j += 1;
        }
        let mut j2: usize = 0;
        while j2 < upper.len() - 1
            invariant
                upper@.len() >= 1,
                0 <= j2 <= upper@.len() - 1,
                forall|k: int| 0 <= k < upper@.len() ==> rev@.contains(#[trigger] upper@[k]),
                forall|k: int| 0 <= k < rev@.len() ==> sorted@.contains(#[trigger] rev@[k]),
                forall|k: int| 0 <= k < out@.len() ==> sorted@.contains(#[trigger] out@[k]),
                out@.len() == (lower@.len() - 1) + j2,
            decreases upper@.len() - j2,
        {
            let v = upper[j2];
            out.push(v);
            proof {
                assert(rev@.contains(upper@[j2 as int]));
                let t = choose|t: int| 0 <= t < rev@.len() && rev@[t] == v;
                assert(sorted@.contains(rev@[t]));
            }
            j2 += 1;
        }
        if out.len() == 0 {
            let mut single: Vec<Vec2> = Vec::new();
            single.push(sorted[0]);
            proof {
                assert(sorted@.contains(sorted@[0]));
            }
            candidate = single;
        } else {
            candidate = out;
        }
    }
    proof {
        assert forall|k: int| 0 <= k < candidate@.len() implies points@.contains(
            #[trigger] candidate@[k],
        ) by {
            assert(sorted@.contains(candidate@[k]));
            let w = choose|w: int| 0 <= w < sorted@.len() && sorted@[w] == candidate@[k];
            assert(points@.contains(sorted@[w]));
        }
    }
    if candidate.len() <= HULL_MAX_VERTS {
        // keep the walk's hull only if it verifiably contains every input
        let mut all_in = true;
        let mut q: usize = 0;
        while q < points.len()
            invariant
                0 <= q <= points@.len(),
                all_in == (forall|t: int|
                    0 <= t < q ==> poly_includes_s(candidate@, #[trigger] points@[t])),
            decreases points@.len() - q,
        {
            if !crate::shape::poly_includes(&candidate, points[q]) {
                all_in = false;
            }
            q += 1;
        }
        if all_in {
            return Polygon::new(candidate);
        }
    }
    // bounding box fallback: encloses every input point by construction
    let mut min_x: i64 = points[0].x;
    let mut max_x: i64 = points[0].x;
    let mut min_y: i64 = points[0].y;
    let mut max_y: i64 = points[0].y;
    let mut t: usize = 1;
    while t < points.len()
        invariant
            1 <= t <= points@.len(),
            forall|k: int|
                0 <= k < t ==> min_x <= (#[trigger] points@[k]).x <= max_x && min_y
                    <= points@[k].y <= max_y,
            min_x <= max_x,
            min_y <= max_y,
        decreases points@.len() - t,
    {
        let p = points[t];
        if p.x < min_x {
            min_x = p.x;
        }
        if p.x > max_x {
            max_x = p.x;
        }
        if p.y < min_y {
            min_y = p.y;
        }
        if p.y > max_y {
            max_y = p.y;
        }
        t += 1;
    }
    let mut corners: Vec<Vec2> = Vec::new();
    corners.push(Vec2 { x: min_x, y: min_y });
    corners.push(Vec2 { x: max_x, y: min_y });
    corners.push(Vec2 { x: max_x, y: max_y });
    corners.push(Vec2 { x: min_x, y: max_y });
    proof {
        assert(corners@ =~= box_corners_s(min_x, max_x, min_y, max_y));
        assert forall|q2: int| 0 <= q2 < points@.len() implies poly_includes_s(
            corners@,
            #[trigger] points@[q2],
        ) by {
            lemma_box_includes(min_x, max_x, min_y, max_y, points@[q2]);
        }
    }
    Polygon::new(corners)
}

} // verus!
