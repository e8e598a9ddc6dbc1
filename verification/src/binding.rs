//! The binding subsystem: hinge and rigid joints, pending (unbound) anchor
//! points awaiting a partner shape, and shape-relative point references that
//! stay valid while the shape moves and turns.
//!
//! Joint enforcement reuses the collision-resolution primitive: the gap
//! between a pair of corresponding reference points is treated as a
//! zero-restitution pinned contact driven toward zero every tick.

use vstd::prelude::*;

verus! {

use crate::fx::{fx_sub, fx_sub_s};
use crate::geometry::{Vec2, v_add_s, v_sub_s, v_neg_s, v_scale_s, v_rotate_s, v_near_zero_s};
use crate::shape::{
    Shape, ShapeModel, Bounded, shape_includes_s, full_resolve_s, data_static,
};
use crate::compute::Contact;

/// Horizontal distance between the two reference points a rigid joint pins;
/// the second pair is what removes relative rotation.
pub const RIGID_SPAN: i64 = 429496730;

/// A shape-relative coordinate: the offset from the centroid and the
/// shape's accumulated rotation, both taken at creation time. Resolving it
/// against the shape's live state returns the current world point.
#[derive(Clone, Copy, PartialEq, Eq, Structural, Debug)]
pub struct PointOnShape {
    pub offset: Vec2,
    pub rotation: i64,
}

pub open spec fn point_ref_of_s(m: ShapeModel, world: Vec2) -> PointOnShape {
    PointOnShape { offset: v_sub_s(world, m.data().centroid), rotation: m.data().rotation }
}

pub open spec fn point_ref_on_s(r: PointOnShape, m: ShapeModel) -> Vec2 {
    v_add_s(
        m.data().centroid,
        v_rotate_s(r.offset, fx_sub_s(m.data().rotation as int, r.rotation as int)),
    )
}

impl PointOnShape {
    /// Records the world point `world` relative to the shape's current state.
    pub fn of(shape: &Shape, world: Vec2) -> (r: PointOnShape)
        ensures
            r == point_ref_of_s(shape@, world),
    {
        let d = shape.data();
        PointOnShape { offset: world.sub(d.centroid), rotation: d.rotation }
    }

    /// Resolves the reference to a world point given the shape's live state.
    pub fn on(&self, shape: &Shape) -> (p: Vec2)
        ensures
            p == point_ref_on_s(*self, shape@),
    {
        let d = shape.data();
        d.centroid.add(self.offset.rotate_by(fx_sub(d.rotation, self.rotation)))
    }
}

/// A pending anchor on one shape, awaiting a partner to complete a binding.
#[derive(Clone, Copy, PartialEq, Eq, Structural, Debug)]
pub enum Unbound {
    Hinge(PointOnShape),
    Rigid(PointOnShape),
}

impl Unbound {
    pub fn new_hinge(shape: &Shape, at: Vec2) -> (r: Unbound)
        ensures
            r == Unbound::Hinge(point_ref_of_s(shape@, at)),
    {
        Unbound::Hinge(PointOnShape::of(shape, at))
    }

    pub fn new_rigid(shape: &Shape, at: Vec2) -> (r: Unbound)
        ensures
            r == Unbound::Rigid(point_ref_of_s(shape@, at)),
    {
        Unbound::Rigid(PointOnShape::of(shape, at))
    }
}

/// An established joint between two shapes: the owning side's references and
/// the partner side's. A hinge pins one point pair; a rigid joint pins two,
/// approximating a weld.
#[derive(Clone, Copy, PartialEq, Eq, Structural, Debug)]
pub enum Binding {
    Hinge { first: PointOnShape, second: PointOnShape },
    Rigid {
        first1: PointOnShape,
        first2: PointOnShape,
        second1: PointOnShape,
        second2: PointOnShape,
    },
}

/// An anchor binds to a partner shape exactly when the anchor's resolved
/// world point lies on that shape (the same containment test `includes`
/// uses). A rigid anchor gains a second reference pair a fixed span away.
pub open spec fn try_bind_s(own: ShapeModel, unbound: Unbound, target: ShapeModel) -> Option<
    Binding,
> {
    match unbound {
        Unbound::Hinge(p) => {
            let w = point_ref_on_s(p, own);
            if shape_includes_s(target, w) {
                Option::Some(Binding::Hinge { first: p, second: point_ref_of_s(target, w) })
            } else {
                Option::None
            }
        },
        Unbound::Rigid(p) => {
            let w = point_ref_on_s(p, own);
            if shape_includes_s(target, w) {
                let w2 = v_add_s(w, Vec2 { x: RIGID_SPAN, y: 0 });
                Option::Some(
                    Binding::Rigid {
                        first1: p,
                        first2: point_ref_of_s(own, w2),
                        second1: point_ref_of_s(target, w),
                        second2: point_ref_of_s(target, w2),
                    },
                )
            } else {
                Option::None
            }
        },
    }
}

/// One pinned point pair enforced as a zero-restitution contact: the gap
/// from the owning side's point to the partner's point becomes the
/// penetration vector (negated, so resolution drives the points together);
/// a negligible gap is left alone.
#[verifier::opaque]
pub open spec fn enforce_pair_s(
    a: ShapeModel,
    b: ShapeModel,
    pa: PointOnShape,
    pb: PointOnShape,
    dt: int,
    fm: int,
    sf: bool,
    df: bool,
) -> (ShapeModel, ShapeModel) {
    let wa = point_ref_on_s(pa, a);
    let wb = point_ref_on_s(pb, b);
    let gap = v_sub_s(wb, wa);
    if v_near_zero_s(gap) {
        (a, b)
    } else {
        full_resolve_s(
            a,
            b,
            Contact { point: v_neg_s(gap), from_first: wa, from_second: wb },
            dt,
            0,
            fm,
            sf,
            df,
        )
    }
}

#[verifier::opaque]
pub open spec fn enforce_s(
    bind: Binding,
    a: ShapeModel,
    b: ShapeModel,
    dt: int,
    fm: int,
    sf: bool,
    df: bool,
) -> (ShapeModel, ShapeModel) {
    match bind {
        Binding::Hinge { first, second } => enforce_pair_s(a, b, first, second, dt, fm, sf, df),
        Binding::Rigid { first1, first2, second1, second2 } => {
            let (a1, b1) = enforce_pair_s(a, b, first1, second1, dt, fm, sf, df);
            enforce_pair_s(a1, b1, first2, second2, dt, fm, sf, df)
        },
    }
}

impl Binding {
    /// Attempts to complete the pending anchor `unbound` of `own` against
    /// the shape `target`.
    pub fn try_bind(own: &Shape, unbound: Unbound, target: &Shape) -> (r: Option<Binding>)
        ensures
            r == try_bind_s(own@, unbound, target@),
    {
        match unbound {
            Unbound::Hinge(p) => {
                let w = p.on(own);
                if target.includes(w) {
                    Some(Binding::Hinge { first: p, second: PointOnShape::of(target, w) })
                } else {
                    None
                }
            },
            Unbound::Rigid(p) => {
                let w = p.on(own);
                if target.includes(w) {
                    let w2 = w.add(Vec2 { x: RIGID_SPAN, y: 0 });
                    Some(
                        Binding::Rigid {
                            first1: p,
                            first2: PointOnShape::of(own, w2),
                            second1: PointOnShape::of(target, w),
                            second2: PointOnShape::of(target, w2),
                        },
                    )
                } else {
                    None
                }
            },
        }
    }

    fn enforce_pair(
        pa: PointOnShape,
        pb: PointOnShape,
        first: &mut Shape,
        second: &mut Shape,
        microseconds: i64,
        friction_mulipiler: i64,
        static_friction_enabled: bool,
        dynamic_friction_enabled: bool,
    )
        ensures
            ({
                let (m1, m2) = enforce_pair_s(
                    old(first)@,
                    old(second)@,
                    pa,
                    pb,
                    microseconds as int,
                    friction_mulipiler as int,
                    static_friction_enabled,
                    dynamic_friction_enabled,
                );
                final(first)@ == m1 && final(second)@ == m2
            }),
            data_static(old(first)@.data()) ==> final(first)@ == old(first)@,
            data_static(old(second)@.data()) ==> final(second)@ == old(second)@,
            old(first)@.wf() ==> final(first)@.wf(),
            old(second)@.wf() ==> final(second)@.wf(),
            final(first)@.data().inv_mass == old(first)@.data().inv_mass,
            final(first)@.data().inv_inertia == old(first)@.data().inv_inertia,
            final(second)@.data().inv_mass == old(second)@.data().inv_mass,
            final(second)@.data().inv_inertia == old(second)@.data().inv_inertia,
            (final(first)@ is Circle) == (old(first)@ is Circle),
            (final(second)@ is Circle) == (old(second)@ is Circle),
    {
        proof {
            reveal(enforce_pair_s);
        }
        let wa = pa.on(first);
        let wb = pb.on(second);
        let gap = wb.sub(wa);
        if gap.is_close_enough_to(Vec2::zero()) {
            proof {
                assert(v_sub_s(gap, crate::geometry::v_zero()) == gap);
            }
        } else {
            proof {
                assert(v_sub_s(gap, crate::geometry::v_zero()) == gap);
            }
            first.resolve_collision_with(
                second,
                Contact { point: gap.neg(), from_first: wa, from_second: wb },
                microseconds,
                0,
                friction_mulipiler,
                static_friction_enabled,
                dynamic_friction_enabled,
            );
        }
    }

    /// Enforces the joint between its two shapes for one tick.
    pub fn enforce(
        &self,
        first: &mut Shape,
        second: &mut Shape,
        microseconds: i64,
        friction_mulipiler: i64,
        static_friction_enabled: bool,
        dynamic_friction_enabled: bool,
    )
        ensures
            ({
                let (m1, m2) = enforce_s(
                    *self,
                    old(first)@,
                    old(second)@,
                    microseconds as int,
                    friction_mulipiler as int,
                    static_friction_enabled,
                    dynamic_friction_enabled,
                );
                final(first)@ == m1 && final(second)@ == m2
            }),
            data_static(old(first)@.data()) ==> final(first)@ == old(first)@,
            data_static(old(second)@.data()) ==> final(second)@ == old(second)@,
            old(first)@.wf() ==> final(first)@.wf(),
            old(second)@.wf() ==> final(second)@.wf(),
            final(first)@.data().inv_mass == old(first)@.data().inv_mass,
            final(first)@.data().inv_inertia == old(first)@.data().inv_inertia,
            final(second)@.data().inv_mass == old(second)@.data().inv_mass,
            final(second)@.data().inv_inertia == old(second)@.data().inv_inertia,
            (final(first)@ is Circle) == (old(first)@ is Circle),
            (final(second)@ is Circle) == (old(second)@ is Circle),
    {
        proof {
            reveal(enforce_s);
        }
        match self {
            Binding::Hinge { first: pa, second: pb } => {
                Binding::enforce_pair(
                    *pa,
                    *pb,
                    first,
                    second,
                    microseconds,
                    friction_mulipiler,
                    static_friction_enabled,
                    dynamic_friction_enabled,
                );
            },
            Binding::Rigid { first1, first2, second1, second2 } => {
                Binding::enforce_pair(
                    *first1,
                    *second1,
                    first,
                    second,
                    microseconds,
                    friction_mulipiler,
                    static_friction_enabled,
                    dynamic_friction_enabled,
                );
                Binding::enforce_pair(
                    *first2,
                    *second2,
                    first,
                    second,
                    microseconds,
                    friction_mulipiler,
                    static_friction_enabled,
                    dynamic_friction_enabled,
                );
            },
        }
    }
}

} // verus!
