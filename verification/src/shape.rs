//! The shape model: circles and polygons with embedded kinematic state.
//!
//! A static body carries zero inverse mass and zero inverse rotational
//! inertia (the fixed-point stand-in for infinite mass), so no impulse or
//! positional correction ever moves it.

use vstd::prelude::*;

verus! {

use crate::fx::{
    FX_ONE, fx_add, fx_add_s, fx_mul, fx_mul_s, fx_div, fx_div_s, fx_neg_s, fx_sub_s, fx_sub,
    fx_min, fx_min_s,
};
use crate::geometry::{
    Vec2, v_zero, v_add_s, v_sub_s, v_neg_s, v_scale_s, v_dot_s, v_cross_s, v_perp_s, v_unit_s,
    v_rotate_s, v_norm_s, v_near_zero_s,
};
use crate::compute::{Contact, impulse, impulse_s, collision, collision_s};

/// Scales a gravity multiplier and a time step (microseconds) into a change
/// of vertical velocity; negative, so gravity pulls toward smaller `y`.
pub const GRAVITY_COEFFICIENT: i64 = -42134;

/// Scales velocity and a time step into a positional change per tick.
pub const MOVEMENT_COEFFICIENT: i64 = 171799;

/// Largest vertex count a polygon may carry (keeps index arithmetic small).
pub const MAX_POLY_VERTS: usize = 100000;

/// Per-shape kinematic and mass state.
#[derive(Clone, Copy, PartialEq, Eq, Structural, Debug)]
pub struct CollisionData {
    pub centroid: Vec2,
    /// Inverse mass; zero for a static body.
    pub inv_mass: i64,
    /// Inverse rotational inertia; zero for a static body.
    pub inv_inertia: i64,
    pub velocity: Vec2,
    pub angular_velocity: i64,
    /// Accumulated rotation, consulted by shape-relative point references.
    pub rotation: i64,
}

pub open spec fn data_wf(d: CollisionData) -> bool {
    d.inv_mass >= 0 && d.inv_inertia >= 0
}

/// A static body: both inverse terms are zero, so nothing ever moves it.
pub open spec fn data_static(d: CollisionData) -> bool {
    d.inv_mass == 0 && d.inv_inertia == 0
}

pub open spec fn default_data_s(centroid: Vec2) -> CollisionData {
    CollisionData {
        centroid,
        inv_mass: FX_ONE,
        inv_inertia: FX_ONE,
        velocity: v_zero(),
        angular_velocity: 0,
        rotation: 0,
    }
}

#[derive(Clone, Debug)]
pub struct Circle {
    pub radius: i64,
    pub data: CollisionData,
}

#[derive(Clone, Debug)]
pub struct Polygon {
    pub vertices: Vec<Vec2>,
    pub data: CollisionData,
}

/// A convex shape of the simulation: the tagged variant the engine and the
/// resolution code match on.
#[derive(Clone, Debug)]
pub enum Shape {
    Circle(Circle),
    Polygon(Polygon),
}

/// The mathematical model of a shape: its geometry as a sequence plus its
/// kinematic state.
#[verifier::ext_equal]
pub enum ShapeModel {
    Circle { radius: i64, data: CollisionData },
    Polygon { verts: Seq<Vec2>, data: CollisionData },
}

impl View for Shape {
    type V = ShapeModel;

    open spec fn view(&self) -> ShapeModel {
        match self {
            Shape::Circle(c) => ShapeModel::Circle { radius: c.radius, data: c.data },
            Shape::Polygon(p) => ShapeModel::Polygon { verts: p.vertices@, data: p.data },
        }
    }
}

impl ShapeModel {
    pub open spec fn data(self) -> CollisionData {
        match self {
            ShapeModel::Circle { data, .. } => data,
            ShapeModel::Polygon { data, .. } => data,
        }
    }

    pub open spec fn with_data(self, d: CollisionData) -> ShapeModel {
        match self {
            ShapeModel::Circle { radius, .. } => ShapeModel::Circle { radius, data: d },
            ShapeModel::Polygon { verts, .. } => ShapeModel::Polygon { verts, data: d },
        }
    }

    pub open spec fn is_circle(self) -> bool {
        self is Circle
    }

    pub open spec fn wf(self) -> bool {
        data_wf(self.data()) && match self {
            ShapeModel::Circle { .. } => true,
            ShapeModel::Polygon { verts, .. } => verts.len() <= MAX_POLY_VERTS,
        }
    }
}

/// The support point of a circle: the boundary point farthest in `d`.
pub open spec fn circle_support_s(center: Vec2, radius: i64, d: Vec2) -> Vec2 {
    v_add_s(center, v_scale_s(v_unit_s(d), radius as int))
}

/// Containment in a circle: squared distance at most squared radius.
pub open spec fn circle_includes_s(center: Vec2, radius: i64, p: Vec2) -> bool {
    let d = v_sub_s(p, center);
    fx_add_s(fx_mul_s(d.x as int, d.x as int), fx_mul_s(d.y as int, d.y as int)) <= fx_mul_s(
        radius as int,
        radius as int,
    )
}

/// Index of the first vertex among the first `n` whose dot product with `d`
/// is maximal.
pub open spec fn poly_support_idx_s(verts: Seq<Vec2>, d: Vec2, n: int) -> int
    decreases n,
{
    if n <= 1 {
        0
    } else {
        let prev = poly_support_idx_s(verts, d, n - 1);
        if v_dot_s(verts[n - 1], d) > v_dot_s(verts[prev], d) {
            n - 1
        } else {
            prev
        }
    }
}

pub open spec fn poly_support_s(verts: Seq<Vec2>, d: Vec2) -> Vec2 {
    if verts.len() == 0 {
        v_zero()
    } else {
        verts[poly_support_idx_s(verts, d, verts.len() as int)]
    }
}

/// Signed side of `p` relative to the polygon edge that starts at vertex `i`.
pub open spec fn poly_side_s(verts: Seq<Vec2>, p: Vec2, i: int) -> int {
    let a = verts[i];
    let b = verts[if i + 1 == verts.len() as int {
        0int
    } else {
        i + 1
    }];
    v_cross_s(v_sub_s(b, a), v_sub_s(p, a))
}

/// Containment in a convex polygon: `p` lies on one side of every edge,
/// whichever the winding of the vertex loop.
pub open spec fn poly_includes_s(verts: Seq<Vec2>, p: Vec2) -> bool {
    verts.len() > 0 && ((forall|i: int| 0 <= i < verts.len() ==> #[trigger] poly_side_s(verts, p, i) >= 0)
        || (forall|i: int| 0 <= i < verts.len() ==> #[trigger] poly_side_s(verts, p, i) <= 0))
}

pub open spec fn shape_support_s(m: ShapeModel, d: Vec2) -> Vec2 {
    match m {
        ShapeModel::Circle { radius, data } => circle_support_s(data.centroid, radius, d),
        ShapeModel::Polygon { verts, .. } => poly_support_s(verts, d),
    }
}

pub open spec fn shape_includes_s(m: ShapeModel, p: Vec2) -> bool {
    match m {
        ShapeModel::Circle { radius, data } => circle_includes_s(data.centroid, radius, p),
        ShapeModel::Polygon { verts, .. } => poly_includes_s(verts, p),
    }
}

/// Rotation of a single vertex around the centroid `c` by `a` radians.
pub open spec fn rotate_vertex_s(c: Vec2, a: int, v: Vec2) -> Vec2 {
    v_add_s(c, v_rotate_s(v_sub_s(v, c), a))
}

/// Rotation of a whole shape around its centroid: geometry turns, the
/// accumulated rotation grows, the centroid stays.
pub open spec fn shape_rotate_s(m: ShapeModel, a: int) -> ShapeModel {
    let d = m.data();
    let d2 = CollisionData { rotation: fx_add_s(d.rotation as int, a) as i64, ..d };
    match m {
        ShapeModel::Circle { radius, .. } => ShapeModel::Circle { radius, data: d2 },
        ShapeModel::Polygon { verts, .. } => ShapeModel::Polygon {
            verts: verts.map(|i: int, v: Vec2| rotate_vertex_s(d.centroid, a, v)),
            data: d2,
        },
    }
}

/// Translation of a whole shape: geometry and centroid move together.
pub open spec fn shape_translate_s(m: ShapeModel, t: Vec2) -> ShapeModel {
    let d = m.data();
    let d2 = CollisionData { centroid: v_add_s(d.centroid, t), ..d };
    match m {
        ShapeModel::Circle { radius, .. } => ShapeModel::Circle { radius, data: d2 },
        ShapeModel::Polygon { verts, .. } => ShapeModel::Polygon {
            verts: verts.map(|i: int, v: Vec2| v_add_s(v, t)),
            data: d2,
        },
    }
}

/// One integration step: gravity into velocity, then rotation by the angular
/// velocity and translation by the (pre-gravity) linear velocity, both scaled
/// by the movement coefficient and the time step.
pub open spec fn shape_update_s(m: ShapeModel, dt: int, gravity_multiplier: int) -> ShapeModel {
    let d = m.data();
    let v0 = d.velocity;
    let dv = Vec2 {
        x: 0,
        y: fx_mul_s(fx_mul_s(gravity_multiplier, GRAVITY_COEFFICIENT as int), dt) as i64,
    };
    let d1 = CollisionData { velocity: v_add_s(v0, dv), ..d };
    let m1 = m.with_data(d1);
    let m2 = shape_rotate_s(
        m1,
        fx_mul_s(fx_mul_s(d.angular_velocity as int, MOVEMENT_COEFFICIENT as int), dt),
    );
    shape_translate_s(m2, v_scale_s(v0, fx_mul_s(MOVEMENT_COEFFICIENT as int, dt)))
}

/// Effective restitution is the restitution multiplier scaled by this: 0.2.
pub const RESTITUTION: i64 = 858993459;

/// The sliding threshold: a static friction impulse beyond
/// `normal_impulse * friction_multiplier * 1e-4` makes the contact slide.
pub const FRICTION_THRESHOLD: i64 = 429497;

/// The dynamic friction coefficient grows with 50 times the penetration.
pub const FRICTION_SCALE: i64 = 214748364800;

/// Positional correction per tick is capped at `1e-6 * time_step`.
pub const CORRECTION_RATE: i64 = 4295;

/// The first body of a contact receives an impulse `j` along `-n`.
pub open spec fn impulsed_first_s(d: CollisionData, n: Vec2, offset: Vec2, j: int) -> CollisionData {
    CollisionData {
        velocity: v_sub_s(d.velocity, v_scale_s(n, fx_mul_s(j, d.inv_mass as int))),
        angular_velocity: fx_sub_s(
            d.angular_velocity as int,
            fx_mul_s(fx_mul_s(j, v_cross_s(offset, n)), d.inv_inertia as int),
        ) as i64,
        ..d
    }
}

/// The second body receives the opposite impulse along `n`.
pub open spec fn impulsed_second_s(d: CollisionData, n: Vec2, offset: Vec2, j: int) -> CollisionData {
    CollisionData {
        velocity: v_add_s(d.velocity, v_scale_s(n, fx_mul_s(j, d.inv_mass as int))),
        angular_velocity: fx_add_s(
            d.angular_velocity as int,
            fx_mul_s(fx_mul_s(j, v_cross_s(offset, n)), d.inv_inertia as int),
        ) as i64,
        ..d
    }
}

/// The friction tier policy: a static friction bound past the sliding
/// threshold makes the contact slide (dynamic friction, if enabled, with a
/// penetration-scaled coefficient capped at one); otherwise the contact
/// sticks (the static impulse, if enabled).
pub open spec fn friction_impulse_s(
    d1: CollisionData,
    d2: CollisionData,
    o1: Vec2,
    o2: Vec2,
    fnormal: Vec2,
    rv: Vec2,
    imp: int,
    pen: int,
    fm: int,
    sf: bool,
    df: bool,
) -> int {
    let sfi = impulse_s(d1, d2, o1, o2, fnormal, rv, FX_ONE as int);
    if sfi > fx_mul_s(fx_mul_s(imp, fm), FRICTION_THRESHOLD as int) {
        if df {
            impulse_s(
                d1,
                d2,
                o1,
                o2,
                fnormal,
                rv,
                fx_min_s(fx_mul_s(fx_mul_s(FRICTION_SCALE as int, pen), fm), FX_ONE as int),
            )
        } else {
            0
        }
    } else {
        if sf {
            sfi
        } else {
            0
        }
    }
}

/// The velocity pass of contact resolution: the normal impulse, applied only
/// when the bodies approach along the normal, followed by the friction
/// impulse along the contact tangent.
#[verifier::opaque]
pub open spec fn resolve_vel_s(
    d1: CollisionData,
    d2: CollisionData,
    c: Contact,
    rm: int,
    fm: int,
    sf: bool,
    df: bool,
) -> (CollisionData, CollisionData) {
    let o1 = v_sub_s(c.from_first, d1.centroid);
    let o2 = v_sub_s(c.from_second, d2.centroid);
    let n = v_unit_s(c.point);
    let v1 = v_sub_s(d1.velocity, v_perp_s(v_scale_s(o1, d1.angular_velocity as int)));
    let v2 = v_sub_s(d2.velocity, v_perp_s(v_scale_s(o2, d2.angular_velocity as int)));
    let rv = v_sub_s(v2, v1);
    let imp = impulse_s(
        d1,
        d2,
        o1,
        o2,
        n,
        rv,
        fx_add_s(fx_mul_s(rm, RESTITUTION as int), FX_ONE as int),
    );
    if imp > 0 {
        let fnormal = v_neg_s(v_perp_s(n));
        let pen = v_norm_s(c.point);
        let fimp = friction_impulse_s(d1, d2, o1, o2, fnormal, rv, imp, pen, fm, sf, df);
        let d1a = impulsed_first_s(d1, n, o1, imp);
        let d2a = impulsed_second_s(d2, n, o2, imp);
        (impulsed_first_s(d1a, fnormal, o1, fimp), impulsed_second_s(d2a, fnormal, o2, fimp))
    } else {
        (d1, d2)
    }
}

/// Positional correction: both bodies move apart along the contact normal by
/// at most the penetration (capped by the correction rate), split in
/// proportion to their inverse masses; a body of infinite mass gets a zero
/// share and does not move.
pub open spec fn correction_s(d1: CollisionData, d2: CollisionData, point: Vec2, dt: int) -> (
    Vec2,
    Vec2,
) {
    let n = v_unit_s(point);
    let translation = v_scale_s(
        n,
        fx_min_s(v_norm_s(point), fx_mul_s(CORRECTION_RATE as int, dt)),
    );
    let isum = fx_add_s(d1.inv_mass as int, d2.inv_mass as int);
    (
        v_neg_s(v_scale_s(translation, fx_div_s(d1.inv_mass as int, isum))),
        v_scale_s(translation, fx_div_s(d2.inv_mass as int, isum)),
    )
}

/// One full resolution pass over a contact: velocities, then position.
#[verifier::opaque]
pub open spec fn full_resolve_s(
    a: ShapeModel,
    b: ShapeModel,
    c: Contact,
    dt: int,
    rm: int,
    fm: int,
    sf: bool,
    df: bool,
) -> (ShapeModel, ShapeModel) {
    let (nd1, nd2) = resolve_vel_s(a.data(), b.data(), c, rm, fm, sf, df);
    let (t1, t2) = correction_s(nd1, nd2, c.point, dt);
    (shape_translate_s(a.with_data(nd1), t1), shape_translate_s(b.with_data(nd2), t2))
}

/// Detection plus resolution: no contact, or a contact whose penetration is
/// numerically indistinguishable from zero, leaves both shapes unchanged.
#[verifier::opaque]
pub open spec fn collide_s(
    a: ShapeModel,
    b: ShapeModel,
    dt: int,
    rm: int,
    fm: int,
    sf: bool,
    df: bool,
) -> (ShapeModel, ShapeModel) {
    match collision_s(a, b) {
        Option::None => (a, b),
        Option::Some(c) => if v_near_zero_s(c.point) {
            (a, b)
        } else {
            full_resolve_s(a, b, c, dt, rm, fm, sf, df)
        },
    }
}

/// Re-wrapping a shape with its own kinematic state changes nothing.
pub proof fn lemma_with_data_self(m: ShapeModel)
    ensures
        m.with_data(m.data()) == m,
{
    match m {
        ShapeModel::Circle { .. } => {},
        ShapeModel::Polygon { .. } => {},
    }
}

/// An impulse applied to a static body leaves its state unchanged.
pub proof fn lemma_impulse_static(d: CollisionData, n: Vec2, offset: Vec2, j: int)
    requires
        data_static(d),
    ensures
        impulsed_first_s(d, n, offset, j) == d,
        impulsed_second_s(d, n, offset, j) == d,
{
    crate::fx::lemma_fx_mul_zero(j);
    assert(v_scale_s(n, 0) == v_zero());
    assert(v_sub_s(d.velocity, v_zero()) == d.velocity);
    assert(v_add_s(d.velocity, v_zero()) == d.velocity);
    crate::fx::lemma_fx_mul_zero(fx_mul_s(j, v_cross_s(offset, n)));
}

/// The velocity pass never changes a static body (its inverse terms are
/// zero, so every impulse contribution vanishes).
pub proof fn lemma_resolve_vel_static(
    d1: CollisionData,
    d2: CollisionData,
    c: Contact,
    rm: int,
    fm: int,
    sf: bool,
    df: bool,
)
    ensures
        data_static(d1) ==> resolve_vel_s(d1, d2, c, rm, fm, sf, df).0 == d1,
        data_static(d2) ==> resolve_vel_s(d1, d2, c, rm, fm, sf, df).1 == d2,
{
    reveal(resolve_vel_s);
    let o1 = v_sub_s(c.from_first, d1.centroid);
    let o2 = v_sub_s(c.from_second, d2.centroid);
    let n = v_unit_s(c.point);
    let fnormal = v_neg_s(v_perp_s(n));
    if data_static(d1) {
        lemma_impulse_static(d1, n, o1, 0);
        assert forall|j: int| #[trigger] impulsed_first_s(d1, n, o1, j) == d1 by {
            lemma_impulse_static(d1, n, o1, j);
        }
        assert forall|j: int| #[trigger] impulsed_first_s(d1, fnormal, o1, j) == d1 by {
            lemma_impulse_static(d1, fnormal, o1, j);
        }
    }
    if data_static(d2) {
        assert forall|j: int| #[trigger] impulsed_second_s(d2, n, o2, j) == d2 by {
            lemma_impulse_static(d2, n, o2, j);
        }
        assert forall|j: int| #[trigger] impulsed_second_s(d2, fnormal, o2, j) == d2 by {
            lemma_impulse_static(d2, fnormal, o2, j);
        }
    }
}

/// Positional correction hands a zero translation to a body of infinite
/// mass.
pub proof fn lemma_correction_static(d1: CollisionData, d2: CollisionData, point: Vec2, dt: int)
    ensures
        d1.inv_mass == 0 ==> correction_s(d1, d2, point, dt).0 == v_zero(),
        d2.inv_mass == 0 ==> correction_s(d1, d2, point, dt).1 == v_zero(),
{
    let n = v_unit_s(point);
    let translation = v_scale_s(
        n,
        fx_min_s(v_norm_s(point), fx_mul_s(CORRECTION_RATE as int, dt)),
    );
    let isum = fx_add_s(d1.inv_mass as int, d2.inv_mass as int);
    if d1.inv_mass == 0 {
        assert(fx_div_s(0, isum) == 0);
        crate::fx::lemma_fx_mul_zero(translation.x as int);
        crate::fx::lemma_fx_mul_zero(translation.y as int);
        assert(v_scale_s(translation, 0) == v_zero());
    }
    if d2.inv_mass == 0 {
        assert(fx_div_s(0, isum) == 0);
        crate::fx::lemma_fx_mul_zero(translation.x as int);
        crate::fx::lemma_fx_mul_zero(translation.y as int);
        assert(v_scale_s(translation, 0) == v_zero());
    }
}

/// A full resolution pass leaves a static body exactly where it was.
pub proof fn lemma_full_resolve_static(
    a: ShapeModel,
    b: ShapeModel,
    c: Contact,
    dt: int,
    rm: int,
    fm: int,
    sf: bool,
    df: bool,
)
    ensures
        data_static(a.data()) ==> full_resolve_s(a, b, c, dt, rm, fm, sf, df).0 == a,
        data_static(b.data()) ==> full_resolve_s(a, b, c, dt, rm, fm, sf, df).1 == b,
{
    reveal(full_resolve_s);
    lemma_resolve_vel_static(a.data(), b.data(), c, rm, fm, sf, df);
    let (nd1, nd2) = resolve_vel_s(a.data(), b.data(), c, rm, fm, sf, df);
    lemma_correction_static(nd1, nd2, c.point, dt);
    if data_static(a.data()) {
        lemma_translate_zero(a.with_data(nd1));
        lemma_with_data_self(a);
    }
    if data_static(b.data()) {
        lemma_translate_zero(b.with_data(nd2));
        lemma_with_data_self(b);
    }
}

/// Translating by the zero vector changes nothing.
pub proof fn lemma_translate_zero(m: ShapeModel)
    ensures
        shape_translate_s(m, v_zero()) == m,
{
    let t = v_zero();
    match m {
        ShapeModel::Circle { radius, data } => {
            assert(v_add_s(data.centroid, t) == data.centroid);
        },
        ShapeModel::Polygon { verts, data } => {
            assert(v_add_s(data.centroid, t) == data.centroid);
            assert(verts.map(|i: int, v: Vec2| v_add_s(v, t)) =~= verts);
            assert(shape_translate_s(m, t) =~= m);
        },
    }
}

/// The capability set every convex shape offers: an extremal point in a
/// direction and an exact containment test.
pub trait Bounded {
    spec fn spec_support(&self, direction: Vec2) -> Vec2;

    spec fn spec_includes(&self, point: Vec2) -> bool;

    fn support_vector(&self, direction: Vec2) -> (r: Vec2)
        ensures
            r == self.spec_support(direction),
    ;

    fn includes(&self, point: Vec2) -> (r: bool)
        ensures
            r == self.spec_includes(point),
    ;
}

fn poly_support_vector(vertices: &Vec<Vec2>, direction: Vec2) -> (r: Vec2)
    ensures
        r == poly_support_s(vertices@, direction),
{
    if vertices.len() == 0 {
        return Vec2::zero();
    }
    let mut best: usize = 0;
    let mut best_dot: i64 = vertices[0].dot(direction);
    let mut i: usize = 1;
    while i < vertices.len()
        invariant
            1 <= i <= vertices@.len(),
            0 <= best < i,
            best as int == poly_support_idx_s(vertices@, direction, i as int),
            best_dot as int == v_dot_s(vertices@[best as int], direction),
        decreases vertices@.len() - i,
    {
        let d = vertices[i].dot(direction);
        if d > best_dot {
            best = i;
            best_dot = d;
        }
        i += 1;
    }
    vertices[best]
}

pub(crate) fn poly_includes(vertices: &Vec<Vec2>, point: Vec2) -> (r: bool)
    ensures
        r == poly_includes_s(vertices@, point),
{
    if vertices.len() == 0 {
        return false;
    }
    let mut all_nonneg = true;
    let mut all_nonpos = true;
    let n = vertices.len();
    let mut i: usize = 0;
    while i < n
        invariant
            0 <= i <= n,
            n == vertices@.len(),
            all_nonneg == (forall|j: int|
                0 <= j < i ==> #[trigger] poly_side_s(vertices@, point, j) >= 0),
            all_nonpos == (forall|j: int|
                0 <= j < i ==> #[trigger] poly_side_s(vertices@, point, j) <= 0),
        decreases n - i,
    {
        let a = vertices[i];
        let b = if i + 1 == n {
            vertices[0]
        } else {
            vertices[i + 1]
        };
        let side = b.sub(a).cross(point.sub(a));
        proof {
            assert(side as int == poly_side_s(vertices@, point, i as int));
        }
        if side < 0 {
            all_nonneg = false;
        }
        if side > 0 {
            all_nonpos = false;
        }
        i += 1;
    }
    all_nonneg || all_nonpos
}

impl Bounded for Circle {
    open spec fn spec_support(&self, direction: Vec2) -> Vec2 {
        circle_support_s(self.data.centroid, self.radius, direction)
    }

    open spec fn spec_includes(&self, point: Vec2) -> bool {
        circle_includes_s(self.data.centroid, self.radius, point)
    }

    fn support_vector(&self, direction: Vec2) -> (r: Vec2) {
        self.data.centroid.add(direction.unit().scale(self.radius))
    }

    fn includes(&self, point: Vec2) -> (r: bool) {
        let d = point.sub(self.data.centroid);
        fx_add(fx_mul(d.x, d.x), fx_mul(d.y, d.y)) <= fx_mul(self.radius, self.radius)
    }
}

impl Bounded for Polygon {
    open spec fn spec_support(&self, direction: Vec2) -> Vec2 {
        poly_support_s(self.vertices@, direction)
    }

    open spec fn spec_includes(&self, point: Vec2) -> bool {
        poly_includes_s(self.vertices@, point)
    }

    fn support_vector(&self, direction: Vec2) -> (r: Vec2) {
        poly_support_vector(&self.vertices, direction)
    }

    fn includes(&self, point: Vec2) -> (r: bool) {
        poly_includes(&self.vertices, point)
    }
}

impl Bounded for Shape {
    open spec fn spec_support(&self, direction: Vec2) -> Vec2 {
        shape_support_s(self@, direction)
    }

    open spec fn spec_includes(&self, point: Vec2) -> bool {
        shape_includes_s(self@, point)
    }

    fn support_vector(&self, direction: Vec2) -> (r: Vec2) {
        match self {
            Shape::Circle(c) => c.support_vector(direction),
            Shape::Polygon(p) => p.support_vector(direction),
        }
    }

    fn includes(&self, point: Vec2) -> (r: bool) {
        match self {
            Shape::Circle(c) => c.includes(point),
            Shape::Polygon(p) => p.includes(point),
        }
    }
}

impl Circle {
    /// A circle at `center` with the default dynamic kinematic state.
    pub fn new(center: Vec2, radius: i64) -> (r: Circle)
        ensures
            r.radius == radius,
            r.data == default_data_s(center),
    {
        Circle { radius, data: default_data_s_exec(center) }
    }
}

fn default_data_s_exec(centroid: Vec2) -> (d: CollisionData)
    ensures
        d == default_data_s(centroid),
{
    CollisionData {
        centroid,
        inv_mass: FX_ONE,
        inv_inertia: FX_ONE,
        velocity: Vec2::zero(),
        angular_velocity: 0,
        rotation: 0,
    }
}

/// Average of a vertex sequence: the centroid a fresh polygon starts with.
pub open spec fn verts_sum_s(verts: Seq<Vec2>, n: int) -> Vec2
    decreases n,
{
    if n <= 0 {
        v_zero()
    } else {
        v_add_s(verts_sum_s(verts, n - 1), verts[n - 1])
    }
}

pub open spec fn verts_centroid_s(verts: Seq<Vec2>) -> Vec2 {
    if verts.len() == 0 {
        v_zero()
    } else {
        let s = verts_sum_s(verts, verts.len() as int);
        let n_fx = (verts.len() * (FX_ONE as int));
        Vec2 {
            x: fx_div_s(s.x as int, n_fx) as i64,
            y: fx_div_s(s.y as int, n_fx) as i64,
        }
    }
}

impl Polygon {
    /// A polygon over the given vertex loop, centred at the vertex average,
    /// with the default dynamic kinematic state.
    pub fn new(vertices: Vec<Vec2>) -> (r: Polygon)
        requires
            vertices@.len() <= MAX_POLY_VERTS,
        ensures
            r.vertices == vertices,
            r.data == default_data_s(verts_centroid_s(vertices@)),
    {
        let n = vertices.len();
        let centroid: Vec2 = if n == 0 {
            Vec2::zero()
        } else {
            let mut s = Vec2::zero();
            let mut i: usize = 0;
            while i < n
                invariant
                    0 <= i <= n,
                    n == vertices@.len(),
                    s == verts_sum_s(vertices@, i as int),
                decreases n - i,
            {
                s = s.add(vertices[i]);
                i += 1;
            }
            let n_fx: i64 = (n as i64) * FX_ONE;
            Vec2 { x: fx_div(s.x, n_fx), y: fx_div(s.y, n_fx) }
        };
        Polygon { vertices, data: default_data_s_exec(centroid) }
    }
}

impl Shape {
    pub fn data(&self) -> (d: CollisionData)
        ensures
            d == self@.data(),
    {
        match self {
            Shape::Circle(c) => c.data,
            Shape::Polygon(p) => p.data,
        }
    }

    pub fn set_data(&mut self, d: CollisionData)
        ensures
            final(self)@ == old(self)@.with_data(d),
    {
        match self {
            Shape::Circle(c) => {
                c.data = d;
            },
            Shape::Polygon(p) => {
                p.data = d;
            },
        }
    }

    /// Rotates the geometry around the centroid and books the angle.
    pub fn rotate(&mut self, angle: i64)
        ensures
            final(self)@ == shape_rotate_s(old(self)@, angle as int),
    {
        match self {
            Shape::Circle(c) => {
                c.data.rotation = fx_add(c.data.rotation, angle);
            },
            Shape::Polygon(p) => {
                let c = p.data.centroid;
                let n = p.vertices.len();
                let mut i: usize = 0;
                while i < n
                    invariant
                        0 <= i <= n,
                        n == p.vertices@.len(),
                        p.data == old(self)@.data(),
                        c == p.data.centroid,
                        forall|j: int|
                            0 <= j < i ==> p.vertices@[j] == rotate_vertex_s(
                                c,
                                angle as int,
                                old(self)@->Polygon_verts[j],
                            ),
                        forall|j: int|
                            i <= j < n ==> p.vertices@[j] == old(self)@->Polygon_verts[j],
                    decreases n - i,
                {
                    let v = p.vertices[i];
                    let rotated = c.add(v.sub(c).rotate_by(angle));
                    p.vertices.set(i, rotated);
                    i += 1;
                }
                p.data.rotation = fx_add(p.data.rotation, angle);
                proof {
                    assert(p.vertices@ =~= old(self)@->Polygon_verts.map(
                        |j: int, v: Vec2| rotate_vertex_s(c, angle as int, v),
                    ));
                }
            },
        }
    }

    /// Moves the geometry and the centroid together.
    pub fn translate(&mut self, t: Vec2)
        ensures
            final(self)@ == shape_translate_s(old(self)@, t),
    {
        match self {
            Shape::Circle(c) => {
                c.data.centroid = c.data.centroid.add(t);
            },
            Shape::Polygon(p) => {
                let n = p.vertices.len();
                let mut i: usize = 0;
                while i < n
                    invariant
                        0 <= i <= n,
                        n == p.vertices@.len(),
                        p.data == old(self)@.data(),
                        forall|j: int|
                            0 <= j < i ==> p.vertices@[j] == v_add_s(
                                old(self)@->Polygon_verts[j],
                                t,
                            ),
                        forall|j: int|
                            i <= j < n ==> p.vertices@[j] == old(self)@->Polygon_verts[j],
                    decreases n - i,
                {
                    let v = p.vertices[i];
                    p.vertices.set(i, v.add(t));
                    i += 1;
                }
                p.data.centroid = p.data.centroid.add(t);
                proof {
                    assert(p.vertices@ =~= old(self)@->Polygon_verts.map(
                        |j: int, v: Vec2| v_add_s(v, t),
                    ));
                }
            },
        }
    }

    /// Resolves a contact between `self` and `other` in one impulse pass:
    /// the normal impulse, the tiered friction impulse, then positional
    /// correction split in proportion to the inverse masses.
    #[verifier::rlimit(100)]
    pub fn resolve_collision_with(
        &mut self,
        other: &mut Shape,
        collision: Contact,
        microseconds: i64,
        restitution_mulipiler: i64,
        friction_mulipiler: i64,
        static_friction_enabled: bool,
        dynamic_friction_enabled: bool,
    )
        ensures
            ({
                let (m1, m2) = full_resolve_s(
                    old(self)@,
                    old(other)@,
                    collision,
                    microseconds as int,
                    restitution_mulipiler as int,
                    friction_mulipiler as int,
                    static_friction_enabled,
                    dynamic_friction_enabled,
                );
                final(self)@ == m1 && final(other)@ == m2
            }),
            data_static(old(self)@.data()) ==> final(self)@ == old(self)@,
            data_static(old(other)@.data()) ==> final(other)@ == old(other)@,
            final(self)@.data().inv_mass == old(self)@.data().inv_mass,
            final(self)@.data().inv_inertia == old(self)@.data().inv_inertia,
            final(other)@.data().inv_mass == old(other)@.data().inv_mass,
            final(other)@.data().inv_inertia == old(other)@.data().inv_inertia,
            old(self)@.wf() ==> final(self)@.wf(),
            old(other)@.wf() ==> final(other)@.wf(),
            (final(self)@ is Circle) == (old(self)@ is Circle),
            (final(other)@ is Circle) == (old(other)@ is Circle),
    {
        proof {
            reveal(resolve_vel_s);
            reveal(full_resolve_s);
        }
        let d1 = self.data();
        let d2 = other.data();
        let first_offset = d1.centroid.to(collision.from_first);
        let second_offset = d2.centroid.to(collision.from_second);
        let normal = collision.point.unit();
        let first_velocity = d1.velocity.sub(
            first_offset.scale(d1.angular_velocity).perpendicular(),
        );
        let second_velocity = d2.velocity.sub(
            second_offset.scale(d2.angular_velocity).perpendicular(),
        );
        let relative_velocity = second_velocity.sub(first_velocity);
        let restitution = fx_mul(restitution_mulipiler, RESTITUTION);
        let imp = impulse(
            d1,
            d2,
            first_offset,
            second_offset,
            normal,
            relative_velocity,
            fx_add(restitution, FX_ONE),
        );
        let mut nd1 = d1;
        let mut nd2 = d2;
        if imp > 0 {
            let friction_normal = normal.perpendicular().neg();
            let sfi = impulse(
                d1,
                d2,
                first_offset,
                second_offset,
                friction_normal,
                relative_velocity,
                FX_ONE,
            );
            let pen = collision.point.norm();
            let fimp = if sfi > fx_mul(fx_mul(imp, friction_mulipiler), FRICTION_THRESHOLD) {
                if dynamic_friction_enabled {
                    impulse(
                        d1,
                        d2,
                        first_offset,
                        second_offset,
                        friction_normal,
                        relative_velocity,
                        fx_min(fx_mul(fx_mul(FRICTION_SCALE, pen), friction_mulipiler), FX_ONE),
                    )
                } else {
                    0
                }
            } else {
                if static_friction_enabled {
                    sfi
                } else {
                    0
                }
            };
            nd1.velocity = nd1.velocity.sub(normal.scale(fx_mul(imp, nd1.inv_mass)));
            nd1.angular_velocity = fx_sub(
                nd1.angular_velocity,
                fx_mul(fx_mul(imp, first_offset.cross(normal)), nd1.inv_inertia),
            );
            nd2.velocity = nd2.velocity.add(normal.scale(fx_mul(imp, nd2.inv_mass)));
            nd2.angular_velocity = fx_add(
                nd2.angular_velocity,
                fx_mul(fx_mul(imp, second_offset.cross(normal)), nd2.inv_inertia),
            );
            nd1.velocity = nd1.velocity.sub(friction_normal.scale(fx_mul(fimp, nd1.inv_mass)));
            nd1.angular_velocity = fx_sub(
                nd1.angular_velocity,
                fx_mul(fx_mul(fimp, first_offset.cross(friction_normal)), nd1.inv_inertia),
            );
            nd2.velocity = nd2.velocity.add(friction_normal.scale(fx_mul(fimp, nd2.inv_mass)));
            nd2.angular_velocity = fx_add(
                nd2.angular_velocity,
                fx_mul(fx_mul(fimp, second_offset.cross(friction_normal)), nd2.inv_inertia),
            );
        }
        self.set_data(nd1);
        other.set_data(nd2);
        let translation = normal.scale(
            fx_min(collision.point.norm(), fx_mul(CORRECTION_RATE, microseconds)),
        );
        let isum = fx_add(nd1.inv_mass, nd2.inv_mass);
        self.translate(translation.scale(fx_div(nd1.inv_mass, isum)).neg());
        other.translate(translation.scale(fx_div(nd2.inv_mass, isum)));
        proof {
            lemma_full_resolve_static(
                old(self)@,
                old(other)@,
                collision,
                microseconds as int,
                restitution_mulipiler as int,
                friction_mulipiler as int,
                static_friction_enabled,
                dynamic_friction_enabled,
            );
        }
    }

    /// Runs collision detection against `other` and, on a contact whose
    /// penetration is not negligible, resolves it.
    pub fn collide(
        &mut self,
        other: &mut Shape,
        microseconds: i64,
        restitution_mulipiler: i64,
        friction_mulipiler: i64,
        static_friction_enabled: bool,
        dynamic_friction_enabled: bool,
    )
        requires
            old(self)@.wf(),
            old(other)@.wf(),
        ensures
            ({
                let (m1, m2) = collide_s(
                    old(self)@,
                    old(other)@,
                    microseconds as int,
                    restitution_mulipiler as int,
                    friction_mulipiler as int,
                    static_friction_enabled,
                    dynamic_friction_enabled,
                );
                final(self)@ == m1 && final(other)@ == m2
            }),
            data_static(old(self)@.data()) ==> final(self)@ == old(self)@,
            data_static(old(other)@.data()) ==> final(other)@ == old(other)@,
            final(self)@.wf(),
            final(other)@.wf(),
            final(self)@.data().inv_mass == old(self)@.data().inv_mass,
            final(self)@.data().inv_inertia == old(self)@.data().inv_inertia,
            final(other)@.data().inv_mass == old(other)@.data().inv_mass,
            final(other)@.data().inv_inertia == old(other)@.data().inv_inertia,
            (final(self)@ is Circle) == (old(self)@ is Circle),
            (final(other)@ is Circle) == (old(other)@ is Circle),
    {
        proof {
            reveal(collide_s);
        }
        let c = collision(self, other);
        match c {
            Option::None => {},
            Option::Some(contact) => {
                if contact.point.is_close_enough_to(Vec2::zero()) {
                    proof {
                        assert(v_sub_s(contact.point, v_zero()) == contact.point);
                    }
                } else {
                    proof {
                        assert(v_sub_s(contact.point, v_zero()) == contact.point);
                    }
                    self.resolve_collision_with(
                        other,
                        contact,
                        microseconds,
                        restitution_mulipiler,
                        friction_mulipiler,
                        static_friction_enabled,
                        dynamic_friction_enabled,
                    );
                }
            },
        }
    }

    /// One integration step of the per-tick pipeline.
    pub fn update_position(&mut self, microseconds: i64, gravity_multiplier: i64)
        ensures
            final(self)@ == shape_update_s(old(self)@, microseconds as int, gravity_multiplier as int),
            old(self)@.wf() ==> final(self)@.wf(),
            (final(self)@ is Circle) == (old(self)@ is Circle),
            final(self)@.data().inv_mass == old(self)@.data().inv_mass,
            final(self)@.data().inv_inertia == old(self)@.data().inv_inertia,
    {
        let d = self.data();
        let dv = Vec2 { x: 0, y: fx_mul(fx_mul(gravity_multiplier, GRAVITY_COEFFICIENT), microseconds) };
        let mut d1 = d;
        d1.velocity = d.velocity.add(dv);
        self.set_data(d1);
        self.rotate(fx_mul(fx_mul(d.angular_velocity, MOVEMENT_COEFFICIENT), microseconds));
        self.translate(d.velocity.scale(fx_mul(MOVEMENT_COEFFICIENT, microseconds)));
    }
}

} // verus!
