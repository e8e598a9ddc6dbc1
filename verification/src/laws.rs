//! Conservation laws of the resolution pass.
//!
//! The companion laws live beside the code they govern: that a static body
//! is never moved by a resolution pass is `shape::lemma_full_resolve_static`,
//! and that positional correction hands a body of infinite mass a zero
//! translation is `shape::lemma_correction_static`.

use vstd::prelude::*;

verus! {

use crate::fx::{FX_ONE, fx_add_s, fx_mul_s, abs_i, lemma_fx_mul_zero};
use crate::geometry::{Vec2, v_zero, v_unit_s, v_sub_s, v_add_s, v_perp_s, v_scale_s};
use crate::shape::{CollisionData, resolve_vel_s, RESTITUTION};
use crate::compute::{Contact, impulse_s};

/// The velocity change the normal impulse hands the first body (the second
/// receives its exact opposite when the inverse masses agree).
pub open spec fn normal_kick_s(d1: CollisionData, d2: CollisionData, c: Contact, rm: int) -> Vec2 {
    let o1 = v_sub_s(c.from_first, d1.centroid);
    let o2 = v_sub_s(c.from_second, d2.centroid);
    let n = v_unit_s(c.point);
    let v1 = v_sub_s(d1.velocity, v_perp_s(v_scale_s(o1, d1.angular_velocity as int)));
    let v2 = v_sub_s(d2.velocity, v_perp_s(v_scale_s(o2, d2.angular_velocity as int)));
    let rv = v_sub_s(v2, v1);
    let imp = impulse_s(
        d1,
        d2,
        o1,
        o2,
        n,
        rv,
        fx_add_s(fx_mul_s(rm, RESTITUTION as int), FX_ONE as int),
    );
    v_scale_s(n, fx_mul_s(imp, d1.inv_mass as int))
}

/// Law: in a head-on resolution pass between two free bodies of equal
/// inverse mass, with both friction toggles off, the velocity changes are
/// exactly opposite, so total linear momentum is conserved exactly — for
/// every restitution multiplier. The magnitude bounds only rule out
/// saturation of the fixed-point range.
pub proof fn lemma_momentum_conserved(
    d1: CollisionData,
    d2: CollisionData,
    c: Contact,
    rm: int,
    fm: int,
)
    requires
        d1.inv_mass == d2.inv_mass,
        abs_i(d1.velocity.x as int) < 0x2000000000000000,
        abs_i(d1.velocity.y as int) < 0x2000000000000000,
        abs_i(d2.velocity.x as int) < 0x2000000000000000,
        abs_i(d2.velocity.y as int) < 0x2000000000000000,
        abs_i(normal_kick_s(d1, d2, c, rm).x as int) < 0x2000000000000000,
        abs_i(normal_kick_s(d1, d2, c, rm).y as int) < 0x2000000000000000,
    ensures
        ({
            let (r1, r2) = resolve_vel_s(d1, d2, c, rm, fm, false, false);
            r1.velocity.x + r2.velocity.x == d1.velocity.x + d2.velocity.x
                && r1.velocity.y + r2.velocity.y == d1.velocity.y + d2.velocity.y
        }),
{
    reveal(resolve_vel_s);
    let s = normal_kick_s(d1, d2, c, rm);
    let n = v_unit_s(c.point);
    let fnormal = crate::geometry::v_neg_s(v_perp_s(n));
    assert forall|j: int| true implies #[trigger] fx_mul_s(0, j) == 0 by {
        lemma_fx_mul_zero(j);
    }
    assert forall|v: Vec2| true implies #[trigger] v_scale_s(v, 0) == v_zero() by {
        lemma_fx_mul_zero(v.x as int);
        lemma_fx_mul_zero(v.y as int);
    }
    assert forall|v: Vec2| true implies #[trigger] v_sub_s(v, v_zero()) == v by {}
    assert forall|v: Vec2| true implies #[trigger] v_add_s(v, v_zero()) == v by {}
}

} // verus!
