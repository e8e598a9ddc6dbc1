//! Engine orchestration: entity storage, the per-tick pipeline, and the
//! mutation operations (add, erase, bind).
//!
//! The entity store is an arena: bindings and render side-lists hold stable
//! integer handles rather than references, and "does this handle still
//! resolve" replaces a weak-reference liveness check. Dead handles are
//! pruned lazily, the next time they are consulted.

use vstd::prelude::*;

verus! {

use crate::fx::{FX_ONE, fx_abs, fx_abs_s, fx_add, fx_add_s, fx_sub, fx_sub_s};
use crate::geometry::{self, Vec2, v_zero, v_add_s, v_scale_s};
use crate::shape::{
    Shape, ShapeModel, CollisionData, Circle, Polygon, Bounded, data_static, data_wf,
    shape_includes_s, shape_update_s, MAX_POLY_VERTS, default_data_s, verts_centroid_s,
};
use crate::binding::{Binding, Unbound, try_bind_s, point_ref_of_s, point_ref_on_s};
use crate::levels::Level;

/// Radius of the main ball.
pub const BALL_RADIUS: i64 = 429496730;

/// Half the side length of the square polygon a flag position expands
/// into; the square (side 0.1) is centered on the flag position.
pub const FLAG_HALF: i64 = 214748365;

/// One half, as a fixed-point scalar (for binding midpoints).
pub const FX_HALF: i64 = 2147483648;

/// Horizontal bound: a ball beyond it (in absolute value) respawns.
pub const HORIZONTAL_BOUND: i64 = 21474836480;

/// Vertical lower bound: entities fallen below it are removed (the ball
/// respawns instead).
pub const LOWER_BOUND: i64 = -21474836480;

/// A render color: three channels, each below 65536.
#[derive(Clone, Copy, PartialEq, Eq, Structural, Debug)]
pub struct Color {
    pub r: u32,
    pub g: u32,
    pub b: u32,
}

/// Relies on rand::Rng::gen_range (through rand::thread_rng) returning a
/// uniform value inside the half-open range it is given.
#[verifier::external_body]
fn random_color_component() -> (r: u32)
    ensures
        r < 65536,
{
    rand::Rng::gen_range(&mut rand::thread_rng(), 0u32..65536u32)
}

/// A shape record paired with the persistent render color assigned to it
/// when it entered the engine.
#[derive(Clone, Debug)]
pub struct WithColor<S> {
    pub color: Color,
    pub shape: S,
}

impl<S> WithColor<S> {
    /// Wraps a shape record with a freshly drawn random color.
    pub fn new(shape: S) -> (r: WithColor<S>)
        ensures
            r.shape == shape,
            r.color.r < 65536 && r.color.g < 65536 && r.color.b < 65536,
    {
        let color = Color {
            r: random_color_component(),
            g: random_color_component(),
            b: random_color_component(),
        };
        WithColor { color, shape }
    }
}

/// The snapshot handed to the display layer after every tick.
pub struct DisplayMessage {
    pub polygons: Vec<WithColor<geometry::Polygon>>,
    pub circles: Vec<WithColor<geometry::Circle>>,
    pub flags: Vec<geometry::Polygon>,
    pub rigid_bindings: Vec<Vec2>,
    pub hinges: Vec<Vec2>,
    pub unbound_rigid_bindings: Vec<Vec2>,
    pub unbound_hinges: Vec<Vec2>,
}

/// Creation-time flags of an entity.
pub struct EntityCfg {
    pub is_erasable: bool,
    pub is_bindable: bool,
    pub is_static: bool,
}

impl Default for EntityCfg {
    /// A user-added shape: dynamic, bindable, erasable.
    fn default() -> (r: EntityCfg)
        ensures
            r.is_erasable && r.is_bindable && !r.is_static,
    {
        EntityCfg { is_erasable: true, is_bindable: true, is_static: false }
    }
}

/// One entity of the world: its shape, its stable handle, its established
/// bindings (each with the partner's handle) and its pending anchors.
pub struct Entity {
    pub shape: Shape,
    pub id: u64,
    pub bindings: Vec<(Binding, u64)>,
    pub unbound: Vec<Unbound>,
    pub is_erasable: bool,
    pub is_bindable: bool,
    pub is_static: bool,
}

/// Field-wise sameness of two entities (their vectors compared as
/// sequences).
pub open spec fn entity_like(a: Entity, b: Entity) -> bool {
    &&& a.shape@ == b.shape@
    &&& a.id == b.id
    &&& a.bindings@ == b.bindings@
    &&& a.unbound@ == b.unbound@
    &&& a.is_erasable == b.is_erasable
    &&& a.is_bindable == b.is_bindable
    &&& a.is_static == b.is_static
}

/// A well-formed entity: its shape is well formed and, when it is marked
/// static, its inverse mass and inertia are zero.
pub open spec fn entity_ok(e: Entity) -> bool {
    e.shape@.wf() && (e.is_static ==> data_static(e.shape@.data()))
}

/// Folding a shape's pending anchors against a freshly added shape: anchors
/// whose point lies on the new shape become bindings (in order), the rest
/// stay pending.
pub open spec fn try_bind_fold_s(
    own: ShapeModel,
    unbound: Seq<Unbound>,
    bindings: Seq<(Binding, u64)>,
    target: ShapeModel,
    tid: u64,
    n: int,
) -> (Seq<Unbound>, Seq<(Binding, u64)>)
    decreases n,
{
    if n <= 0 {
        (Seq::empty(), bindings)
    } else {
        let (ru, rb) = try_bind_fold_s(own, unbound, bindings, target, tid, n - 1);
        match try_bind_s(own, unbound[n - 1], target) {
            Option::Some(b) => (ru, rb.push((b, tid))),
            Option::None => (ru.push(unbound[n - 1]), rb),
        }
    }
}

pub proof fn lemma_try_bind_fold(
    own: ShapeModel,
    unbound: Seq<Unbound>,
    bindings: Seq<(Binding, u64)>,
    target: ShapeModel,
    tid: u64,
    n: int,
)
    requires
        0 <= n <= unbound.len(),
    ensures
        ({
            let (ru, rb) = try_bind_fold_s(own, unbound, bindings, target, tid, n);
            &&& rb.len() >= bindings.len()
            &&& forall|k: int| 0 <= k < bindings.len() ==> rb[k] == bindings[k]
            &&& forall|k: int| bindings.len() <= k < rb.len() ==> (#[trigger] rb[k]).1 == tid
            &&& ru.len() <= n
            &&& n == 0 ==> ru =~= unbound.take(0) && rb == bindings
        }),
    decreases n,
{
    if n > 0 {
        lemma_try_bind_fold(own, unbound, bindings, target, tid, n - 1);
    }
}

impl Entity {
    pub fn new(shape: Shape, id: u64, entity_cfg: EntityCfg) -> (r: Entity)
        ensures
            r.shape == shape,
            r.id == id,
            r.bindings@.len() == 0,
            r.unbound@.len() == 0,
            r.is_erasable == entity_cfg.is_erasable,
            r.is_bindable == entity_cfg.is_bindable,
            r.is_static == entity_cfg.is_static,
    {
        Entity {
            shape,
            id,
            bindings: Vec::new(),
            unbound: Vec::new(),
            is_erasable: entity_cfg.is_erasable,
            is_bindable: entity_cfg.is_bindable,
            is_static: entity_cfg.is_static,
        }
    }

    /// Records a pending rigid anchor at the world point `at`.
    pub fn add_rigid(&mut self, at: Vec2)
        ensures
            final(self).unbound@ == old(self).unbound@.push(
                Unbound::Rigid(point_ref_of_s(old(self).shape@, at)),
            ),
            final(self).shape@ == old(self).shape@,
            final(self).bindings@ == old(self).bindings@,
            final(self).id == old(self).id,
            final(self).is_erasable == old(self).is_erasable,
            final(self).is_bindable == old(self).is_bindable,
            final(self).is_static == old(self).is_static,
    {
        let u = Unbound::new_rigid(&self.shape, at);
        self.unbound.push(u);
    }

    /// Records a pending hinge anchor at the world point `at`.
    pub fn add_hinge(&mut self, at: Vec2)
        ensures
            final(self).unbound@ == old(self).unbound@.push(
                Unbound::Hinge(point_ref_of_s(old(self).shape@, at)),
            ),
            final(self).shape@ == old(self).shape@,
            final(self).bindings@ == old(self).bindings@,
            final(self).id == old(self).id,
            final(self).is_erasable == old(self).is_erasable,
            final(self).is_bindable == old(self).is_bindable,
            final(self).is_static == old(self).is_static,
    {
        let u = Unbound::new_hinge(&self.shape, at);
        self.unbound.push(u);
    }

    /// Matches every pending anchor against a newly added shape, turning
    /// the successful ones into bindings that reference its handle.
    pub fn try_bind(&mut self, target: &Shape, target_id: u64)
        ensures
            ({
                let (ru, rb) = try_bind_fold_s(
                    old(self).shape@,
                    old(self).unbound@,
                    old(self).bindings@,
                    target@,
                    target_id,
                    old(self).unbound@.len() as int,
                );
                final(self).unbound@ == ru && final(self).bindings@ == rb
            }),
            final(self).shape@ == old(self).shape@,
            final(self).id == old(self).id,
            final(self).is_erasable == old(self).is_erasable,
            final(self).is_bindable == old(self).is_bindable,
            final(self).is_static == old(self).is_static,
    {
        let n = self.unbound.len();
        let mut kept: Vec<Unbound> = Vec::new();
        let mut i: usize = 0;
        while i < n
            invariant
                0 <= i <= n,
                n == old(self).unbound@.len(),
                self.unbound@ == old(self).unbound@,
                self.shape@ == old(self).shape@,
                self.id == old(self).id,
                self.is_erasable == old(self).is_erasable,
                self.is_bindable == old(self).is_bindable,
                self.is_static == old(self).is_static,
                ({
                    let (ru, rb) = try_bind_fold_s(
                        old(self).shape@,
                        old(self).unbound@,
                        old(self).bindings@,
                        target@,
                        target_id,
                        i as int,
                    );
                    kept@ == ru && self.bindings@ == rb
                }),
            decreases n - i,
        {
            let u = self.unbound[i];
            match Binding::try_bind(&self.shape, u, target) {
                Option::Some(b) => {
                    self.bindings.push((b, target_id));
                },
                Option::None => {
                    kept.push(u);
                },
            }
            i += 1;
        }
        self.unbound = kept;
    }
}

/// The simulation engine: the entity arena, render side-lists of colored
/// handles split by shape kind, the flag pickups, the ball's spawn point,
/// and the simulation-wide multipliers and friction toggles.
pub struct Engine {
    pub entities: Vec<Entity>,
    pub polygons: Vec<WithColor<u64>>,
    pub circles: Vec<WithColor<u64>>,
    pub main_ball_starting_position: Vec2,
    pub flags: Vec<Shape>,
    pub restitution_mulipiler: i64,
    pub friction_mulipiler: i64,
    pub gravity_mulipiler: i64,
    pub static_friction_enabled: bool,
    pub dynamic_friction_enabled: bool,
    pub next_id: u64,
}

/// Whether some entity carries this handle.
pub open spec fn has_id(entities: Seq<Entity>, id: u64) -> bool {
    exists|j: int| 0 <= j < entities.len() && (#[trigger] entities[j]).id == id
}

/// Every binding's partner handle resolves to a live entity.
pub open spec fn bindings_live(entities: Seq<Entity>) -> bool {
    forall|i: int, k: int|
        0 <= i < entities.len() && 0 <= k < entities[i].bindings@.len() ==> has_id(
            entities,
            (#[trigger] entities[i].bindings@[k]).1,
        )
}

impl Engine {
    /// The structural invariants of the arena: distinct handles, all below
    /// the next fresh one; well-formed entities; flags well formed; and a
    /// binding's partner never sits at the owner's index or an earlier one
    /// (new bindings always point at newer entities).
    pub open spec fn wf0(self) -> bool {
        &&& forall|i: int, j: int|
            0 <= i < j < self.entities@.len() ==> (#[trigger] self.entities@[i]).id != (
            #[trigger] self.entities@[j]).id
        &&& forall|i: int|
            0 <= i < self.entities@.len() ==> (#[trigger] self.entities@[i]).id < self.next_id
        &&& forall|i: int| 0 <= i < self.entities@.len() ==> entity_ok(#[trigger] self.entities@[i])
        &&& forall|i: int, k: int, j: int|
            0 <= i < self.entities@.len() && 0 <= k < self.entities@[i].bindings@.len() && 0 <= j
                <= i ==> (#[trigger] self.entities@[j]).id != (
            #[trigger] self.entities@[i].bindings@[k]).1
        &&& forall|i: int| 0 <= i < self.flags@.len() ==> (#[trigger] self.flags@[i])@.wf()
    }

    /// The full invariant: the arena is structurally sound and the entity
    /// at index zero is the main ball: a dynamic, non-erasable circle.
    pub open spec fn wf(self) -> bool {
        &&& self.wf0()
        &&& self.entities@.len() >= 1
        &&& !self.entities@[0].is_erasable
        &&& !self.entities@[0].is_static
        &&& self.entities@[0].shape@ is Circle
    }

    /// First entity (in insertion order) whose shape contains `p`,
    /// starting the search at index `i`.
    pub open spec fn find_included_s(entities: Seq<Entity>, p: Vec2, i: int) -> Option<int>
        decreases entities.len() - i,
    {
        if !(0 <= i < entities.len()) {
            Option::None
        } else if shape_includes_s(entities[i].shape@, p) {
            Option::Some(i)
        } else {
            Self::find_included_s(entities, p, i + 1)
        }
    }

    /// First bindable entity whose shape contains `p`.
    pub open spec fn find_bindable_s(entities: Seq<Entity>, p: Vec2, i: int) -> Option<int>
        decreases entities.len() - i,
    {
        if !(0 <= i < entities.len()) {
            Option::None
        } else if shape_includes_s(entities[i].shape@, p) && entities[i].is_bindable {
            Option::Some(i)
        } else {
            Self::find_bindable_s(entities, p, i + 1)
        }
    }

    /// Matches a freshly added shape against every entity's pending
    /// anchors; `target_id` must be the fresh handle the shape will get.
    pub fn try_bind(&mut self, target: &Shape, target_id: u64)
        requires
            old(self).wf0(),
            forall|i: int|
                0 <= i < old(self).entities@.len() ==> (#[trigger] old(self).entities@[i]).id
                    != target_id,
        ensures
            final(self).wf0(),
            final(self).entities@.len() == old(self).entities@.len(),
            forall|i: int|
                0 <= i < final(self).entities@.len() ==> {
                    let e = #[trigger] final(self).entities@[i];
                    let o = old(self).entities@[i];
                    let (ru, rb) = try_bind_fold_s(
                        o.shape@,
                        o.unbound@,
                        o.bindings@,
                        target@,
                        target_id,
                        o.unbound@.len() as int,
                    );
                    &&& e.shape@ == o.shape@
                    &&& e.id == o.id
                    &&& e.is_erasable == o.is_erasable
                    &&& e.is_bindable == o.is_bindable
                    &&& e.is_static == o.is_static
                    &&& e.unbound@ == ru
                    &&& e.bindings@ == rb
                    &&& (o.unbound@.len() == 0 ==> entity_like(e, o))
                },
            final(self).flags@ == old(self).flags@,
            final(self).circles@ == old(self).circles@,
            final(self).polygons@ == old(self).polygons@,
            final(self).next_id == old(self).next_id,
            final(self).main_ball_starting_position == old(self).main_ball_starting_position,
            final(self).restitution_mulipiler == old(self).restitution_mulipiler,
            final(self).friction_mulipiler == old(self).friction_mulipiler,
            final(self).gravity_mulipiler == old(self).gravity_mulipiler,
            final(self).static_friction_enabled == old(self).static_friction_enabled,
            final(self).dynamic_friction_enabled == old(self).dynamic_friction_enabled,
    {
        let n = self.entities.len();
        let mut i: usize = 0;
        while i < n
            invariant
                0 <= i <= n,
                n == self.entities@.len(),
                n == old(self).entities@.len(),
                forall|t: int|
                    0 <= t < old(self).entities@.len() ==> (#[trigger] old(self).entities@[t]).id
                        != target_id,
                old(self).wf0(),
                forall|t: int|
                    i <= t < n ==> #[trigger] self.entities@[t] == old(self).entities@[t],
                forall|t: int|
                    0 <= t < i ==> {
                        let e = #[trigger] self.entities@[t];
                        let o = old(self).entities@[t];
                        let (ru, rb) = try_bind_fold_s(
                            o.shape@,
                            o.unbound@,
                            o.bindings@,
                            target@,
                            target_id,
                            o.unbound@.len() as int,
                        );
                        &&& e.shape@ == o.shape@
                        &&& e.id == o.id
                        &&& e.is_erasable == o.is_erasable
                        &&& e.is_bindable == o.is_bindable
                        &&& e.is_static == o.is_static
                        &&& e.unbound@ == ru
                        &&& e.bindings@ == rb
                        &&& (o.unbound@.len() == 0 ==> entity_like(e, o))
                        &&& e.bindings@.len() >= o.bindings@.len()
                        &&& (forall|k: int|
                            0 <= k < o.bindings@.len() ==> e.bindings@[k] == o.bindings@[k])
                        &&& (forall|k: int|
                            o.bindings@.len() <= k < e.bindings@.len() ==> (
                            #[trigger] e.bindings@[k]).1 == target_id)
                    },
                self.flags@ == old(self).flags@,
                self.circles@ == old(self).circles@,
                self.polygons@ == old(self).polygons@,
                self.next_id == old(self).next_id,
                self.main_ball_starting_position == old(self).main_ball_starting_position,
                self.restitution_mulipiler == old(self).restitution_mulipiler,
                self.friction_mulipiler == old(self).friction_mulipiler,
                self.gravity_mulipiler == old(self).gravity_mulipiler,
                self.static_friction_enabled == old(self).static_friction_enabled,
                self.dynamic_friction_enabled == old(self).dynamic_friction_enabled,
            decreases n - i,
        {
            let ghost prev = self.entities@;
            let mut e = self.entities.remove(i);
            let ghost before = e;
            e.try_bind(target, target_id);
            proof {
                lemma_try_bind_fold(
                    before.shape@,
                    before.unbound@,
                    before.bindings@,
                    target@,
                    target_id,
                    before.unbound@.len() as int,
                );
            }
            self.entities.insert(i, e);
            proof {
                assert(self.entities@ =~= prev.update(i as int, e));
                assert(before == old(self).entities@[i as int]);
                if before.unbound@.len() == 0 {
                    assert(e.unbound@ =~= before.unbound@);
                    assert(e.bindings@ =~= before.bindings@);
                }
            }
            i += 1;
        }
        proof {
            assert forall|i2: int, j2: int|
                0 <= i2 < j2 < self.entities@.len() implies (#[trigger] self.entities@[i2]).id != (
            #[trigger] self.entities@[j2]).id by {
                assert(self.entities@[i2].id == old(self).entities@[i2].id);
                assert(self.entities@[j2].id == old(self).entities@[j2].id);
            }
            assert forall|i2: int, k2: int, j2: int|
                0 <= i2 < self.entities@.len() && 0 <= k2 < self.entities@[i2].bindings@.len() && 0
                    <= j2 <= i2 implies (#[trigger] self.entities@[j2]).id != (
            #[trigger] self.entities@[i2].bindings@[k2]).1 by {
                assert(self.entities@[j2].id == old(self).entities@[j2].id);
                let ob = old(self).entities@[i2].bindings@;
                if k2 < ob.len() {
                    assert(self.entities@[i2].bindings@[k2] == ob[k2]);
                } else {
                    assert(self.entities@[i2].bindings@[k2].1 == target_id);
                }
            }
            assert forall|i2: int|
                0 <= i2 < self.entities@.len() implies entity_ok(
                #[trigger] self.entities@[i2],
            ) by {
                assert(entity_ok(old(self).entities@[i2]));
            }
        }
    }

    /// Installs a shape in the arena: static configuration zeroes its
    /// inverse mass terms, existing pending anchors get a chance to bind to
    /// it, and it is appended with a fresh handle (returned). When the
    /// handle space is exhausted the engine is left unchanged.
    pub fn add_entity(&mut self, shape: Shape, entity_cfg: EntityCfg) -> (id: u64)
        requires
            old(self).wf0(),
            shape@.wf(),
        ensures
            final(self).wf0(),
            final(self).flags@ == old(self).flags@,
            final(self).circles@ == old(self).circles@,
            final(self).polygons@ == old(self).polygons@,
            final(self).main_ball_starting_position == old(self).main_ball_starting_position,
            final(self).restitution_mulipiler == old(self).restitution_mulipiler,
            final(self).friction_mulipiler == old(self).friction_mulipiler,
            final(self).gravity_mulipiler == old(self).gravity_mulipiler,
            final(self).static_friction_enabled == old(self).static_friction_enabled,
            final(self).dynamic_friction_enabled == old(self).dynamic_friction_enabled,
            old(self).next_id == u64::MAX ==> final(self).entities@ == old(self).entities@
                && final(self).next_id == old(self).next_id && id == u64::MAX,
            old(self).next_id < u64::MAX ==> {
                let e = final(self).entities@.last();
                &&& id == old(self).next_id
                &&& final(self).next_id == old(self).next_id + 1
                &&& final(self).entities@.len() == old(self).entities@.len() + 1
                &&& e.id == id
                &&& e.is_erasable == entity_cfg.is_erasable
                &&& e.is_bindable == entity_cfg.is_bindable
                &&& e.is_static == entity_cfg.is_static
                &&& e.bindings@.len() == 0
                &&& e.unbound@.len() == 0
                &&& e.shape@ == (if entity_cfg.is_static {
                    shape@.with_data(
                        CollisionData { inv_mass: 0, inv_inertia: 0, ..shape@.data() },
                    )
                } else {
                    shape@
                })
                &&& (forall|i: int|
                    0 <= i < old(self).entities@.len() ==> {
                        let en = #[trigger] final(self).entities@[i];
                        let o = old(self).entities@[i];
                        let tm = if entity_cfg.is_static {
                            shape@.with_data(
                                CollisionData { inv_mass: 0, inv_inertia: 0, ..shape@.data() },
                            )
                        } else {
                            shape@
                        };
                        let (ru, rb) = try_bind_fold_s(
                            o.shape@,
                            o.unbound@,
                            o.bindings@,
                            tm,
                            old(self).next_id,
                            o.unbound@.len() as int,
                        );
                        &&& en.shape@ == o.shape@
                        &&& en.id == o.id
                        &&& en.is_erasable == o.is_erasable
                        &&& en.is_bindable == o.is_bindable
                        &&& en.is_static == o.is_static
                        &&& en.unbound@ == ru
                        &&& en.bindings@ == rb
                        &&& (o.unbound@.len() == 0 ==> entity_like(en, o))
                    })
            },
    {
        if self.next_id == u64::MAX {
            return u64::MAX;
        }
        let id = self.next_id;
        let mut shape = shape;
        if entity_cfg.is_static {
            let mut d = shape.data();
            d.inv_mass = 0;
            d.inv_inertia = 0;
            shape.set_data(d);
        }
        self.try_bind(&shape, id);
        let e = Entity::new(shape, id, entity_cfg);
        self.entities.push(e);
        self.next_id = self.next_id + 1;
        proof {
            assert forall|i2: int, j2: int|
                0 <= i2 < j2 < self.entities@.len() implies (#[trigger] self.entities@[i2]).id != (
            #[trigger] self.entities@[j2]).id by {}
            assert forall|i2: int, k2: int, j2: int|
                0 <= i2 < self.entities@.len() && 0 <= k2 < self.entities@[i2].bindings@.len() && 0
                    <= j2 <= i2 implies (#[trigger] self.entities@[j2]).id != (
            #[trigger] self.entities@[i2].bindings@[k2]).1 by {
                if i2 < self.entities@.len() - 1 {
                    if j2 < self.entities@.len() - 1 {
                    } else {
                    }
                }
            }
        }
        id
    }

    /// Adds a user-drawn circle: a new dynamic, bindable, erasable entity
    /// holding exactly this circle, appended to the arena; existing pending
    /// anchors get their chance to bind to it; and the circle render list
    /// grows by one entry carrying the new handle and a fresh random color.
    pub fn add_circle(&mut self, circle: Circle)
        requires
            old(self).wf(),
            data_wf(circle.data),
        ensures
            final(self).wf(),
            final(self).flags@ == old(self).flags@,
            final(self).polygons@ == old(self).polygons@,
            final(self).main_ball_starting_position == old(self).main_ball_starting_position,
            final(self).restitution_mulipiler == old(self).restitution_mulipiler,
            final(self).friction_mulipiler == old(self).friction_mulipiler,
            final(self).gravity_mulipiler == old(self).gravity_mulipiler,
            final(self).static_friction_enabled == old(self).static_friction_enabled,
            final(self).dynamic_friction_enabled == old(self).dynamic_friction_enabled,
            old(self).next_id == u64::MAX ==> final(self).entities@ == old(self).entities@
                && final(self).circles@ == old(self).circles@,
            old(self).next_id < u64::MAX ==> {
                let e = final(self).entities@.last();
                &&& final(self).entities@.len() == old(self).entities@.len() + 1
                &&& e.shape@ == (ShapeModel::Circle { radius: circle.radius, data: circle.data })
                &&& e.id == old(self).next_id
                &&& e.is_erasable && e.is_bindable && !e.is_static
                &&& e.bindings@.len() == 0 && e.unbound@.len() == 0
                &&& final(self).circles@ == old(self).circles@.push(final(self).circles@.last())
                &&& final(self).circles@.last().shape == old(self).next_id
                &&& final(self).circles@.last().color.r < 65536
                &&& final(self).circles@.last().color.g < 65536
                &&& final(self).circles@.last().color.b < 65536
                &&& (forall|i: int|
                    0 <= i < old(self).entities@.len() ==> {
                        let en = #[trigger] final(self).entities@[i];
                        let o = old(self).entities@[i];
                        let (ru, rb) = try_bind_fold_s(
                            o.shape@,
                            o.unbound@,
                            o.bindings@,
                            ShapeModel::Circle { radius: circle.radius, data: circle.data },
                            old(self).next_id,
                            o.unbound@.len() as int,
                        );
                        en.shape@ == o.shape@ && en.id == o.id && en.unbound@ == ru
                            && en.bindings@ == rb
                    })
            },
    {
        let id = self.add_entity(Shape::Circle(circle), EntityCfg::default());
        if id < u64::MAX {
            let entry = WithColor::new(id);
            self.circles.push(entry);
        }
    }

    /// Adds a user-drawn polygon (the host routes user input through the
    /// hull builder first, as the original did at its boundary): a new
    /// dynamic, bindable, erasable entity holding exactly this polygon,
    /// appended to the arena; existing pending anchors get their chance to
    /// bind to it; and the polygon render list grows by one entry carrying
    /// the new handle and a fresh random color.
    pub fn add_polygon(&mut self, polygon: Polygon)
        requires
            old(self).wf(),
            data_wf(polygon.data),
            polygon.vertices@.len() <= MAX_POLY_VERTS,
        ensures
            final(self).wf(),
            final(self).flags@ == old(self).flags@,
            final(self).circles@ == old(self).circles@,
            final(self).main_ball_starting_position == old(self).main_ball_starting_position,
            final(self).restitution_mulipiler == old(self).restitution_mulipiler,
            final(self).friction_mulipiler == old(self).friction_mulipiler,
            final(self).gravity_mulipiler == old(self).gravity_mulipiler,
            final(self).static_friction_enabled == old(self).static_friction_enabled,
            final(self).dynamic_friction_enabled == old(self).dynamic_friction_enabled,
            old(self).next_id == u64::MAX ==> final(self).entities@ == old(self).entities@
                && final(self).polygons@ == old(self).polygons@,
            old(self).next_id < u64::MAX ==> {
                let e = final(self).entities@.last();
                &&& final(self).entities@.len() == old(self).entities@.len() + 1
                &&& e.shape@ == (ShapeModel::Polygon {
                    verts: polygon.vertices@,
                    data: polygon.data,
                })
                &&& e.id == old(self).next_id
                &&& e.is_erasable && e.is_bindable && !e.is_static
                &&& e.bindings@.len() == 0 && e.unbound@.len() == 0
                &&& final(self).polygons@ == old(self).polygons@.push(
                    final(self).polygons@.last(),
                )
                &&& final(self).polygons@.last().shape == old(self).next_id
                &&& final(self).polygons@.last().color.r < 65536
                &&& final(self).polygons@.last().color.g < 65536
                &&& final(self).polygons@.last().color.b < 65536
                &&& (forall|i: int|
                    0 <= i < old(self).entities@.len() ==> {
                        let en = #[trigger] final(self).entities@[i];
                        let o = old(self).entities@[i];
                        let (ru, rb) = try_bind_fold_s(
                            o.shape@,
                            o.unbound@,
                            o.bindings@,
                            ShapeModel::Polygon { verts: polygon.vertices@, data: polygon.data },
                            old(self).next_id,
                            o.unbound@.len() as int,
                        );
                        en.shape@ == o.shape@ && en.id == o.id && en.unbound@ == ru
                            && en.bindings@ == rb
                    })
            },
    {
        let id = self.add_entity(Shape::Polygon(polygon), EntityCfg::default());
        if id < u64::MAX {
            let entry = WithColor::new(id);
            self.polygons.push(entry);
        }
    }
}

/// The shape a level polygon entity enters the arena with: its vertex
/// loop, centred at the vertex average, static entities with zero inverse
/// terms.
pub open spec fn level_poly_model_s(e: crate::levels::Entity<Vec<Vec2>>) -> ShapeModel {
    let d = default_data_s(verts_centroid_s(e.shape@));
    let base = ShapeModel::Polygon { verts: e.shape@, data: d };
    if e.is_static {
        base.with_data(CollisionData { inv_mass: 0, inv_inertia: 0, ..d })
    } else {
        base
    }
}

/// The shape a level circle entity enters the arena with.
pub open spec fn level_circle_model_s(e: crate::levels::Entity<geometry::Circle>) -> ShapeModel {
    let d = default_data_s(e.shape.center);
    let base = ShapeModel::Circle { radius: e.shape.radius, data: d };
    if e.is_static {
        base.with_data(CollisionData { inv_mass: 0, inv_inertia: 0, ..d })
    } else {
        base
    }
}

/// The fixed-size square pickup polygon centred on a flag position.
pub open spec fn flag_square_s(p: Vec2) -> Seq<Vec2> {
    seq![
        Vec2 {
            x: fx_sub_s(p.x as int, FLAG_HALF as int) as i64,
            y: fx_sub_s(p.y as int, FLAG_HALF as int) as i64,
        },
        Vec2 {
            x: fx_add_s(p.x as int, FLAG_HALF as int) as i64,
            y: fx_sub_s(p.y as int, FLAG_HALF as int) as i64,
        },
        Vec2 {
            x: fx_add_s(p.x as int, FLAG_HALF as int) as i64,
            y: fx_add_s(p.y as int, FLAG_HALF as int) as i64,
        },
        Vec2 {
            x: fx_sub_s(p.x as int, FLAG_HALF as int) as i64,
            y: fx_add_s(p.y as int, FLAG_HALF as int) as i64,
        },
    ]
}

impl Engine {
    /// Builds the engine from a level: the main ball first (non-erasable),
    /// then the level's polygons and circles, each flag position expanded
    /// into a small square pickup polygon.
    pub fn new(level: Level) -> (r: Engine)
        requires
            forall|i: int|
                0 <= i < level.polygons@.len() ==> (
                #[trigger] level.polygons@[i]).shape@.len() <= MAX_POLY_VERTS,
            level.polygons@.len() + level.circles@.len() + 1 < 0xffffffffffffffffu64,
        ensures
            r.wf(),
            r.entities@.len() == 1 + level.polygons@.len() + level.circles@.len(),
            r.main_ball_starting_position == level.initial_ball_position,
            r.entities@[0].shape@ == (ShapeModel::Circle {
                radius: BALL_RADIUS,
                data: default_data_s(level.initial_ball_position),
            }),
            r.entities@[0].id == 0,
            r.entities@[0].is_bindable && !r.entities@[0].is_erasable && !r.entities@[0].is_static,
            forall|i: int|
                0 <= i < level.polygons@.len() ==> {
                    let e = #[trigger] r.entities@[1 + i];
                    &&& e.shape@ == level_poly_model_s(level.polygons@[i])
                    &&& e.is_static == level.polygons@[i].is_static
                    &&& e.is_bindable == level.polygons@[i].is_bindable
                    &&& !e.is_erasable
                },
            forall|i: int|
                0 <= i < level.circles@.len() ==> {
                    let e = #[trigger] r.entities@[1 + level.polygons@.len() + i];
                    &&& e.shape@ == level_circle_model_s(level.circles@[i])
                    &&& e.is_static == level.circles@[i].is_static
                    &&& e.is_bindable == level.circles@[i].is_bindable
                    &&& !e.is_erasable
                },
            r.flags@.len() == level.flags_positions@.len(),
            forall|i: int|
                0 <= i < level.flags_positions@.len() ==> (#[trigger] r.flags@[i])@ == (
                ShapeModel::Polygon {
                    verts: flag_square_s(level.flags_positions@[i]),
                    data: default_data_s(
                        verts_centroid_s(flag_square_s(level.flags_positions@[i])),
                    ),
                }),
            r.restitution_mulipiler == FX_ONE,
            r.friction_mulipiler == FX_ONE,
            r.gravity_mulipiler == FX_ONE,
            r.static_friction_enabled,
            r.dynamic_friction_enabled,
    {
        let Level { initial_ball_position, circles, polygons, flags_positions } = level;
        let mut flags: Vec<Shape> = Vec::new();
        let mut fi: usize = 0;
        while fi < flags_positions.len()
            invariant
                0 <= fi <= flags_positions@.len(),
                flags@.len() == fi,
                flags_positions@ == level.flags_positions@,
                forall|i: int| 0 <= i < flags@.len() ==> (#[trigger] flags@[i])@.wf(),
                forall|i: int|
                    0 <= i < flags@.len() ==> (#[trigger] flags@[i])@ == (ShapeModel::Polygon {
                        verts: flag_square_s(flags_positions@[i]),
                        data: default_data_s(
                            verts_centroid_s(flag_square_s(flags_positions@[i])),
                        ),
                    }),
            decreases flags_positions@.len() - fi,
        {
            let p = flags_positions[fi];
            let mut verts: Vec<Vec2> = Vec::new();
            verts.push(Vec2 { x: fx_sub(p.x, FLAG_HALF), y: fx_sub(p.y, FLAG_HALF) });
            verts.push(Vec2 { x: fx_add(p.x, FLAG_HALF), y: fx_sub(p.y, FLAG_HALF) });
            verts.push(Vec2 { x: fx_add(p.x, FLAG_HALF), y: fx_add(p.y, FLAG_HALF) });
            verts.push(Vec2 { x: fx_sub(p.x, FLAG_HALF), y: fx_add(p.y, FLAG_HALF) });
            proof {
                assert(verts@ =~= flag_square_s(p));
            }
            flags.push(Shape::Polygon(Polygon::new(verts)));
            fi += 1;
        }
        let mut engine = Engine {
            entities: Vec::new(),
            polygons: Vec::new(),
            circles: Vec::new(),
            main_ball_starting_position: initial_ball_position,
            flags,
            restitution_mulipiler: FX_ONE,
            friction_mulipiler: FX_ONE,
            gravity_mulipiler: FX_ONE,
            static_friction_enabled: true,
            dynamic_friction_enabled: true,
            next_id: 0,
        };
        let ball = Circle::new(initial_ball_position, BALL_RADIUS);
        let ball_id = engine.add_entity(
            Shape::Circle(ball),
            EntityCfg { is_bindable: true, is_erasable: false, is_static: false },
        );
        let entry = WithColor::new(ball_id);
        engine.circles.push(entry);
        let mut polygons = polygons;
        let ghost orig_p = polygons@;
        while polygons.len() > 0
            invariant
                engine.wf(),
                engine.main_ball_starting_position == initial_ball_position,
                initial_ball_position == level.initial_ball_position,
                engine.entities@[0].shape@ == (ShapeModel::Circle {
                    radius: BALL_RADIUS,
                    data: default_data_s(level.initial_ball_position),
                }),
                engine.entities@[0].id == 0,
                engine.entities@[0].is_bindable && !engine.entities@[0].is_erasable && !engine.entities@[0].is_static,
                engine.flags@.len() == level.flags_positions@.len(),
                forall|i: int|
                    0 <= i < engine.flags@.len() ==> (#[trigger] engine.flags@[i])@ == (
                    ShapeModel::Polygon {
                        verts: flag_square_s(level.flags_positions@[i]),
                        data: default_data_s(
                            verts_centroid_s(flag_square_s(level.flags_positions@[i])),
                        ),
                    }),
                engine.restitution_mulipiler == FX_ONE,
                engine.friction_mulipiler == FX_ONE,
                engine.gravity_mulipiler == FX_ONE,
                engine.static_friction_enabled,
                engine.dynamic_friction_enabled,
                orig_p == level.polygons@,
                polygons@.len() <= orig_p.len(),
                polygons@ =~= orig_p.skip(orig_p.len() - polygons@.len()),
                engine.entities@.len() == 1 + (orig_p.len() - polygons@.len()),
                engine.next_id == engine.entities@.len() as u64,
                forall|i: int|
                    0 <= i < level.polygons@.len() ==> (
                    #[trigger] level.polygons@[i]).shape@.len() <= MAX_POLY_VERTS,
                level.polygons@.len() + level.circles@.len() + 1 < 0xffffffffffffffffu64,
                forall|t: int|
                    0 <= t < orig_p.len() - polygons@.len() ==> {
                        let e = #[trigger] engine.entities@[1 + t];
                        &&& e.shape@ == level_poly_model_s(orig_p[t])
                        &&& e.is_static == orig_p[t].is_static
                        &&& e.is_bindable == orig_p[t].is_bindable
                        &&& !e.is_erasable
                    },
            decreases polygons@.len(),
        {
            let ghost t = orig_p.len() - polygons@.len();
            let entity = polygons.remove(0);
            proof {
                assert(entity == orig_p[t]);
            }
            let weak = engine.add_entity(
                Shape::Polygon(Polygon::new(entity.shape)),
                EntityCfg {
                    is_bindable: entity.is_bindable,
                    is_static: entity.is_static,
                    is_erasable: false,
                },
            );
            let entry = WithColor::new(weak);
            engine.polygons.push(entry);
        }
        let mut circles = circles;
        let ghost orig_c = circles@;
        let ghost np = orig_p.len();
        while circles.len() > 0
            invariant
                engine.wf(),
                engine.main_ball_starting_position == initial_ball_position,
                initial_ball_position == level.initial_ball_position,
                engine.entities@[0].shape@ == (ShapeModel::Circle {
                    radius: BALL_RADIUS,
                    data: default_data_s(level.initial_ball_position),
                }),
                engine.entities@[0].id == 0,
                engine.entities@[0].is_bindable && !engine.entities@[0].is_erasable && !engine.entities@[0].is_static,
                engine.flags@.len() == level.flags_positions@.len(),
                forall|i: int|
                    0 <= i < engine.flags@.len() ==> (#[trigger] engine.flags@[i])@ == (
                    ShapeModel::Polygon {
                        verts: flag_square_s(level.flags_positions@[i]),
                        data: default_data_s(
                            verts_centroid_s(flag_square_s(level.flags_positions@[i])),
                        ),
                    }),
                engine.restitution_mulipiler == FX_ONE,
                engine.friction_mulipiler == FX_ONE,
                engine.gravity_mulipiler == FX_ONE,
                engine.static_friction_enabled,
                engine.dynamic_friction_enabled,
                np == level.polygons@.len(),
                orig_c == level.circles@,
                circles@.len() <= orig_c.len(),
                circles@ =~= orig_c.skip(orig_c.len() - circles@.len()),
                engine.entities@.len() == 1 + np + (orig_c.len() - circles@.len()),
                engine.next_id == engine.entities@.len() as u64,
                level.polygons@.len() + level.circles@.len() + 1 < 0xffffffffffffffffu64,
                forall|t: int|
                    0 <= t < np ==> {
                        let e = #[trigger] engine.entities@[1 + t];
                        &&& e.shape@ == level_poly_model_s(level.polygons@[t])
                        &&& e.is_static == level.polygons@[t].is_static
                        &&& e.is_bindable == level.polygons@[t].is_bindable
                        &&& !e.is_erasable
                    },
                forall|t: int|
                    0 <= t < orig_c.len() - circles@.len() ==> {
                        let e = #[trigger] engine.entities@[1 + np + t];
                        &&& e.shape@ == level_circle_model_s(orig_c[t])
                        &&& e.is_static == orig_c[t].is_static
                        &&& e.is_bindable == orig_c[t].is_bindable
                        &&& !e.is_erasable
                    },
            decreases circles@.len(),
        {
            let ghost t = orig_c.len() - circles@.len();
            let entity = circles.remove(0);
            proof {
                assert(entity == orig_c[t]);
            }
            let geometry::Circle { center, radius } = entity.shape;
            let weak = engine.add_entity(
                Shape::Circle(Circle::new(center, radius)),
                EntityCfg {
                    is_bindable: entity.is_bindable,
                    is_static: entity.is_static,
                    is_erasable: false,
                },
            );
            let entry = WithColor::new(weak);
            engine.circles.push(entry);
        }
        engine
    }

    /// Removes the topmost (first-listed) entity whose shape contains the
    /// point, if that entity is erasable; otherwise a no-op.
    pub fn erase_at(&mut self, point: Vec2)
        requires
            old(self).wf(),
        ensures
            final(self).wf(),
            Self::find_included_s(old(self).entities@, point, 0) is None ==> final(self).entities@
                == old(self).entities@,
            ({
                match Self::find_included_s(old(self).entities@, point, 0) {
                    Option::None => final(self).entities@ == old(self).entities@,
                    Option::Some(i) => if old(self).entities@[i].is_erasable {
                        final(self).entities@ == old(self).entities@.remove(i)
                    } else {
                        final(self).entities@ == old(self).entities@
                    },
                }
            }),
            final(self).flags@ == old(self).flags@,
            final(self).circles@ == old(self).circles@,
            final(self).polygons@ == old(self).polygons@,
            final(self).next_id == old(self).next_id,
            final(self).main_ball_starting_position == old(self).main_ball_starting_position,
            final(self).restitution_mulipiler == old(self).restitution_mulipiler,
            final(self).friction_mulipiler == old(self).friction_mulipiler,
            final(self).gravity_mulipiler == old(self).gravity_mulipiler,
            final(self).static_friction_enabled == old(self).static_friction_enabled,
            final(self).dynamic_friction_enabled == old(self).dynamic_friction_enabled,
    {
        let n = self.entities.len();
        let mut i: usize = 0;
        while i < n
            invariant
                0 <= i <= n,
                n == self.entities@.len(),
                *self == *old(self),
                old(self).wf(),
                Self::find_included_s(self.entities@, point, 0) == Self::find_included_s(
                    self.entities@,
                    point,
                    i as int,
                ),
            decreases n - i,
        {
            if self.entities[i].shape.includes(point) {
                if self.entities[i].is_erasable {
                    proof {
                        lemma_remove_keeps_wf(*self, i as int);
                    }
                    self.entities.remove(i);
                }
                return ;
            }
            i += 1;
        }
    }

    /// Attaches a pending hinge anchor at `point` to the first bindable
    /// entity containing it; a no-op when no such entity exists.
    pub fn add_hinge(&mut self, point: Vec2)
        requires
            old(self).wf(),
        ensures
            final(self).wf(),
            ({
                match Self::find_bindable_s(old(self).entities@, point, 0) {
                    Option::None => final(self).entities@ == old(self).entities@,
                    Option::Some(i) => {
                        let o = old(self).entities@[i];
                        &&& final(self).entities@ == old(self).entities@.update(
                            i,
                            final(self).entities@[i],
                        )
                        &&& final(self).entities@[i].unbound@ == o.unbound@.push(
                            Unbound::Hinge(point_ref_of_s(o.shape@, point)),
                        )
                        &&& final(self).entities@[i].shape@ == o.shape@
                        &&& final(self).entities@[i].bindings@ == o.bindings@
                        &&& final(self).entities@[i].id == o.id
                    },
                }
            }),
            final(self).flags@ == old(self).flags@,
            final(self).circles@ == old(self).circles@,
            final(self).polygons@ == old(self).polygons@,
            final(self).next_id == old(self).next_id,
            final(self).main_ball_starting_position == old(self).main_ball_starting_position,
            final(self).restitution_mulipiler == old(self).restitution_mulipiler,
            final(self).friction_mulipiler == old(self).friction_mulipiler,
            final(self).gravity_mulipiler == old(self).gravity_mulipiler,
            final(self).static_friction_enabled == old(self).static_friction_enabled,
            final(self).dynamic_friction_enabled == old(self).dynamic_friction_enabled,
    {
        let n = self.entities.len();
        let mut i: usize = 0;
        while i < n
            invariant
                0 <= i <= n,
                n == self.entities@.len(),
                *self == *old(self),
                old(self).wf(),
                Self::find_bindable_s(self.entities@, point, 0) == Self::find_bindable_s(
                    self.entities@,
                    point,
                    i as int,
                ),
            decreases n - i,
        {
            if self.entities[i].shape.includes(point) && self.entities[i].is_bindable {
                let ghost prev = self.entities@;
                let mut e = self.entities.remove(i);
                e.add_hinge(point);
                self.entities.insert(i, e);
                proof {
                    assert(self.entities@ =~= prev.update(i as int, e));
                    lemma_update_anchor_keeps_wf(*old(self), *self, i as int);
                }
                return ;
            }
            i += 1;
        }
    }

    /// Attaches a pending rigid anchor at `point` to the first bindable
    /// entity containing it; a no-op when no such entity exists.
    pub fn add_rigid(&mut self, point: Vec2)
        requires
            old(self).wf(),
        ensures
            final(self).wf(),
            ({
                match Self::find_bindable_s(old(self).entities@, point, 0) {
                    Option::None => final(self).entities@ == old(self).entities@,
                    Option::Some(i) => {
                        let o = old(self).entities@[i];
                        &&& final(self).entities@ == old(self).entities@.update(
                            i,
                            final(self).entities@[i],
                        )
                        &&& final(self).entities@[i].unbound@ == o.unbound@.push(
                            Unbound::Rigid(point_ref_of_s(o.shape@, point)),
                        )
                        &&& final(self).entities@[i].shape@ == o.shape@
                        &&& final(self).entities@[i].bindings@ == o.bindings@
                        &&& final(self).entities@[i].id == o.id
                    },
                }
            }),
            final(self).flags@ == old(self).flags@,
            final(self).circles@ == old(self).circles@,
            final(self).polygons@ == old(self).polygons@,
            final(self).next_id == old(self).next_id,
            final(self).main_ball_starting_position == old(self).main_ball_starting_position,
            final(self).restitution_mulipiler == old(self).restitution_mulipiler,
            final(self).friction_mulipiler == old(self).friction_mulipiler,
            final(self).gravity_mulipiler == old(self).gravity_mulipiler,
            final(self).static_friction_enabled == old(self).static_friction_enabled,
            final(self).dynamic_friction_enabled == old(self).dynamic_friction_enabled,
    {
        let n = self.entities.len();
        let mut i: usize = 0;
        while i < n
            invariant
                0 <= i <= n,
                n == self.entities@.len(),
                *self == *old(self),
                old(self).wf(),
                Self::find_bindable_s(self.entities@, point, 0) == Self::find_bindable_s(
                    self.entities@,
                    point,
                    i as int,
                ),
            decreases n - i,
        {
            if self.entities[i].shape.includes(point) && self.entities[i].is_bindable {
                let ghost prev = self.entities@;
                let mut e = self.entities.remove(i);
                e.add_rigid(point);
                self.entities.insert(i, e);
                proof {
                    assert(self.entities@ =~= prev.update(i as int, e));
                    lemma_update_anchor_keeps_wf(*old(self), *self, i as int);
                }
                return ;
            }
            i += 1;
        }
    }

    pub fn set_gravity_multipier(&mut self, value: i64)
        ensures
            *final(self) == (Engine { gravity_mulipiler: value, ..*old(self) }),
    {
        self.gravity_mulipiler = value;
    }

    pub fn set_restitution_multipier(&mut self, value: i64)
        ensures
            *final(self) == (Engine { restitution_mulipiler: value, ..*old(self) }),
    {
        self.restitution_mulipiler = value;
    }

    pub fn set_friction_multipier(&mut self, value: i64)
        ensures
            *final(self) == (Engine { friction_mulipiler: value, ..*old(self) }),
    {
        self.friction_mulipiler = value;
    }

    pub fn set_static_friction(&mut self, enabled: bool)
        ensures
            *final(self) == (Engine { static_friction_enabled: enabled, ..*old(self) }),
    {
        self.static_friction_enabled = enabled;
    }

    pub fn set_dynamic_friction(&mut self, enabled: bool)
        ensures
            *final(self) == (Engine { dynamic_friction_enabled: enabled, ..*old(self) }),
    {
        self.dynamic_friction_enabled = enabled;
    }
}

/// The engine configuration a tick never touches: multipliers, toggles,
/// spawn point and the handle counter.
pub open spec fn config_frame(pre: Engine, post: Engine) -> bool {
    &&& post.next_id == pre.next_id
    &&& post.main_ball_starting_position == pre.main_ball_starting_position
    &&& post.restitution_mulipiler == pre.restitution_mulipiler
    &&& post.friction_mulipiler == pre.friction_mulipiler
    &&& post.gravity_mulipiler == pre.gravity_mulipiler
    &&& post.static_friction_enabled == pre.static_friction_enabled
    &&& post.dynamic_friction_enabled == pre.dynamic_friction_enabled
}

/// Integrate and cull, as a relation between engine states: every survivor
/// is an integrated copy of an old entity, the main ball survives and is
/// integrated, and an entity survives exactly when the cull rule says so.
pub open spec fn integrate_rel(pre: Engine, post: Engine, dt: int) -> bool {
    &&& post.wf()
    &&& post.entities@.len() >= 1
    &&& integrated_like(pre.entities@[0], post.entities@[0], dt, pre.gravity_mulipiler as int)
    &&& (forall|j: int|
        0 <= j < post.entities@.len() ==> exists|i: int|
            0 <= i < pre.entities@.len() && integrated_like(
                pre.entities@[i],
                #[trigger] post.entities@[j],
                dt,
                pre.gravity_mulipiler as int,
            ))
    &&& (forall|i: int|
        0 <= i < pre.entities@.len() ==> (survives_s(
            #[trigger] pre.entities@[i],
            dt,
            pre.gravity_mulipiler as int,
            pre.entities@[0].id,
        ) <==> has_id(post.entities@, pre.entities@[i].id)))
    &&& post.flags@ == pre.flags@
    &&& post.circles@ == pre.circles@
    &&& post.polygons@ == pre.polygons@
    &&& config_frame(pre, post)
}

/// Ball respawn, as a relation: out of bounds after integration means the
/// ball stands at the spawn point with zero velocities; otherwise nothing
/// changes, and no other entity is touched either way.
pub open spec fn respawn_rel(pre: Engine, post: Engine) -> bool {
    &&& post.wf()
    &&& post.entities@.len() == pre.entities@.len()
    &&& (forall|j: int|
        1 <= j < post.entities@.len() ==> #[trigger] post.entities@[j] == pre.entities@[j])
    &&& ({
        let o = pre.entities@[0];
        let e = post.entities@[0];
        let d = o.shape@.data();
        let out = fx_abs_s(d.centroid.x as int) > HORIZONTAL_BOUND as int || d.centroid.y
            < LOWER_BOUND;
        &&& e.id == o.id
        &&& e.bindings@ == o.bindings@
        &&& e.unbound@ == o.unbound@
        &&& e.is_erasable == o.is_erasable
        &&& e.is_bindable == o.is_bindable
        &&& e.is_static == o.is_static
        &&& e.shape@ == (if out {
            o.shape@.with_data(
                CollisionData {
                    centroid: pre.main_ball_starting_position,
                    velocity: v_zero(),
                    angular_velocity: 0,
                    ..d
                },
            )
        } else {
            o.shape@
        })
    })
    &&& post.flags@ == pre.flags@
    &&& post.circles@ == pre.circles@
    &&& post.polygons@ == pre.polygons@
    &&& config_frame(pre, post)
}

/// Pickup consumption, as a relation: exactly the flags that do not overlap
/// the main ball remain, in order; the entities are untouched (pure
/// removal, no physical response).
pub open spec fn flags_rel(pre: Engine, post: Engine) -> bool {
    &&& post.wf()
    &&& post.entities@ == pre.entities@
    &&& post.flags@ == Engine::flags_keep_s(
        pre.entities@[0].shape@,
        pre.flags@,
        pre.flags@.len() as int,
    )
    &&& post.circles@ == pre.circles@
    &&& post.polygons@ == pre.polygons@
    &&& config_frame(pre, post)
}

/// The pairwise collision pass, as a relation: shapes move within the phase
/// frame (identities, flags, anchors, kinds and inverse terms fixed; static
/// shapes fixed entirely) and afterwards every remaining binding is live.
/// The pass's numeric outcome is pinned one call down, by the exact models
/// of `Shape::collide` on each unbound pair.
pub open spec fn collide_rel(pre: Engine, post: Engine, dt: int) -> bool {
    &&& post.wf()
    &&& phase_frame(pre.entities@, post.entities@)
    &&& bindings_live(post.entities@)
    &&& post.flags@ == pre.flags@
    &&& post.circles@ == pre.circles@
    &&& post.polygons@ == pre.polygons@
    &&& config_frame(pre, post)
}

/// The constraint-enforcement pass, as a relation: shapes move within the
/// phase frame, binding lists are untouched and stay live. The joints'
/// numeric outcome is pinned one call down, by the exact model of
/// `Binding::enforce`.
pub open spec fn enforce_rel(pre: Engine, post: Engine, dt: int) -> bool {
    &&& post.wf()
    &&& phase_frame(pre.entities@, post.entities@)
    &&& (forall|t: int|
        0 <= t < post.entities@.len() ==> #[trigger] post.entities@[t].bindings@ == pre.entities@[
            t
        ].bindings@)
    &&& bindings_live(post.entities@)
    &&& post.flags@ == pre.flags@
    &&& post.circles@ == pre.circles@
    &&& post.polygons@ == pre.polygons@
    &&& config_frame(pre, post)
}

/// Whether a render entry's handle resolves to a live entity of the wanted
/// kind.
pub open spec fn entry_live_s(entities: Seq<Entity>, en: WithColor<u64>, want_circle: bool) -> bool {
    exists|j: int|
        0 <= j < entities.len() && (#[trigger] entities[j]).id == en.shape && (entities[j].shape@
            is Circle) == want_circle
}

/// Pruning a render side-list: exactly the live entries remain, in order,
/// colors untouched.
pub open spec fn prune_entries_s(
    entries: Seq<WithColor<u64>>,
    entities: Seq<Entity>,
    want_circle: bool,
    n: int,
) -> Seq<WithColor<u64>>
    decreases n,
{
    if n <= 0 {
        Seq::empty()
    } else {
        let prev = prune_entries_s(entries, entities, want_circle, n - 1);
        if entry_live_s(entities, entries[n - 1], want_circle) {
            prev.push(entries[n - 1])
        } else {
            prev
        }
    }
}

/// A converted circle record mirrors its surviving entry: same color, and
/// geometry read off the live entity the handle resolves to.
pub open spec fn circle_record_ok(
    entities: Seq<Entity>,
    src: WithColor<u64>,
    out: WithColor<geometry::Circle>,
) -> bool {
    &&& out.color == src.color
    &&& exists|j: int|
        0 <= j < entities.len() && (#[trigger] entities[j]).id == src.shape && entities[j].shape@
            is Circle && out.shape.center == entities[j].shape@.data().centroid
            && out.shape.radius == entities[j].shape@->Circle_radius
}

/// A converted polygon record mirrors its surviving entry.
pub open spec fn polygon_record_ok(
    entities: Seq<Entity>,
    src: WithColor<u64>,
    out: WithColor<geometry::Polygon>,
) -> bool {
    &&& out.color == src.color
    &&& exists|j: int|
        0 <= j < entities.len() && (#[trigger] entities[j]).id == src.shape && !(entities[
            j
        ].shape@ is Circle) && out.shape.vertices@ == entities[j].shape@->Polygon_verts
}

/// The world points of one entity's first `k` bindings: hinge points and
/// rigid midpoints, in order.
#[verifier::opaque]
pub open spec fn entity_points_s(e: Entity, k: int) -> (Seq<Vec2>, Seq<Vec2>)
    decreases k,
{
    if k <= 0 {
        (Seq::empty(), Seq::empty())
    } else {
        let (h, r) = entity_points_s(e, k - 1);
        match e.bindings@[k - 1].0 {
            Binding::Hinge { first, .. } => (h.push(point_ref_on_s(first, e.shape@)), r),
            Binding::Rigid { first1, first2, .. } => (
                h,
                r.push(
                    v_scale_s(
                        v_add_s(
                            point_ref_on_s(first1, e.shape@),
                            point_ref_on_s(first2, e.shape@),
                        ),
                        FX_HALF as int,
                    ),
                ),
            ),
        }
    }
}

/// The world points of one entity's first `k` pending anchors, split by
/// kind.
#[verifier::opaque]
pub open spec fn entity_unbound_points_s(e: Entity, k: int) -> (Seq<Vec2>, Seq<Vec2>)
    decreases k,
{
    if k <= 0 {
        (Seq::empty(), Seq::empty())
    } else {
        let (uh, ur) = entity_unbound_points_s(e, k - 1);
        match e.unbound@[k - 1] {
            Unbound::Hinge(p) => (uh.push(point_ref_on_s(p, e.shape@)), ur),
            Unbound::Rigid(p) => (uh, ur.push(point_ref_on_s(p, e.shape@))),
        }
    }
}

/// All four world-point lists of the snapshot, over the first `n` entities:
/// hinge points, rigid midpoints, pending hinge points, pending rigid
/// points.
#[verifier::opaque]
pub open spec fn world_points_s(entities: Seq<Entity>, n: int) -> (
    Seq<Vec2>,
    Seq<Vec2>,
    Seq<Vec2>,
    Seq<Vec2>,
)
    decreases n,
{
    if n <= 0 {
        (Seq::empty(), Seq::empty(), Seq::empty(), Seq::empty())
    } else {
        let (h, r, uh, ur) = world_points_s(entities, n - 1);
        let e = entities[n - 1];
        let (eh, er) = entity_points_s(e, e.bindings@.len() as int);
        let (euh, eur) = entity_unbound_points_s(e, e.unbound@.len() as int);
        (h + eh, r + er, uh + euh, ur + eur)
    }
}

/// The snapshot step, as a relation: entities and flags are untouched; the
/// render side-lists keep exactly their live entries, in order, with their
/// colors; the message carries one converted record per surviving entry,
/// one flag polygon per flag, and the world points of every binding and
/// pending anchor.
pub open spec fn snapshot_rel(pre: Engine, post: Engine, msg: DisplayMessage) -> bool {
    &&& post.wf()
    &&& post.entities@ == pre.entities@
    &&& post.flags@ == pre.flags@
    &&& post.circles@ == prune_entries_s(
        pre.circles@,
        pre.entities@,
        true,
        pre.circles@.len() as int,
    )
    &&& post.polygons@ == prune_entries_s(
        pre.polygons@,
        pre.entities@,
        false,
        pre.polygons@.len() as int,
    )
    &&& msg.circles@.len() == post.circles@.len()
    &&& (forall|k: int|
        0 <= k < msg.circles@.len() ==> circle_record_ok(
            post.entities@,
            post.circles@[k],
            #[trigger] msg.circles@[k],
        ))
    &&& msg.polygons@.len() == post.polygons@.len()
    &&& (forall|k: int|
        0 <= k < msg.polygons@.len() ==> polygon_record_ok(
            post.entities@,
            post.polygons@[k],
            #[trigger] msg.polygons@[k],
        ))
    &&& msg.flags@.len() == post.flags@.len()
    &&& (forall|k: int|
        0 <= k < msg.flags@.len() ==> !(post.flags@[k]@ is Circle) ==> (
        #[trigger] msg.flags@[k]).vertices@ == post.flags@[k]@->Polygon_verts)
    &&& ({
        let (h, r, uh, ur) = world_points_s(post.entities@, post.entities@.len() as int);
        msg.hinges@ == h && msg.rigid_bindings@ == r && msg.unbound_hinges@ == uh
            && msg.unbound_rigid_bindings@ == ur
    })
    &&& config_frame(pre, post)
}

/// Where an entity's centroid stands after the integration step.
pub open spec fn integrated_centroid_s(e: Entity, dt: int, g: int) -> Vec2 {
    if e.is_static {
        e.shape@.data().centroid
    } else {
        shape_update_s(e.shape@, dt, g).data().centroid
    }
}

/// The cull rule: an entity survives the integration step exactly when it
/// is the main ball or its post-integration height stays above the bound.
pub open spec fn survives_s(e: Entity, dt: int, g: int, ball_id: u64) -> bool {
    e.id == ball_id || integrated_centroid_s(e, dt, g).y > LOWER_BOUND
}

/// How an entity leaves the integration step: static entities stand still,
/// the rest integrate gravity and motion; everything else is carried over.
pub open spec fn integrated_like(o: Entity, e: Entity, dt: int, g: int) -> bool {
    &&& e.id == o.id
    &&& e.bindings@ == o.bindings@
    &&& e.unbound@ == o.unbound@
    &&& e.is_erasable == o.is_erasable
    &&& e.is_bindable == o.is_bindable
    &&& e.is_static == o.is_static
    &&& e.shape@ == (if o.is_static {
        o.shape@
    } else {
        shape_update_s(o.shape@, dt, g)
    })
}

impl Engine {
    /// Integrate and cull: every non-static entity gets gravity applied to
    /// its velocity and moves by its (pre-gravity) velocities; entities
    /// fallen below the lower bound are removed, except the main ball at
    /// index zero, which this rule never removes.
    fn integrate_cull(&mut self, microseconds: i64)
        requires
            old(self).wf(),
        ensures
            integrate_rel(*old(self), *final(self), microseconds as int),
    {
        let g = self.gravity_mulipiler;
        let ghost old_entities = self.entities@;
        let mut kept: Vec<Entity> = Vec::new();
        let ghost mut src: Seq<int> = Seq::empty();
        let mut first = true;
        while self.entities.len() > 0
            invariant
                old(self).wf(),
                g == old(self).gravity_mulipiler,
                old_entities == old(self).entities@,
                old_entities.len() == self.entities@.len() + (
                old_entities.len() - self.entities@.len()),
                self.entities@ =~= old_entities.skip(
                    old_entities.len() - self.entities@.len(),
                ),
                first == (old_entities.len() == self.entities@.len()),
                src.len() == kept@.len(),
                forall|t: int|
                    0 <= t < src.len() ==> 0 <= #[trigger] src[t] < old_entities.len()
                        - self.entities@.len(),
                forall|t1: int, t2: int| 0 <= t1 < t2 < src.len() ==> src[t1] < src[t2],
                forall|t: int|
                    0 <= t < kept@.len() ==> integrated_like(
                        old_entities[src[t]],
                        #[trigger] kept@[t],
                        microseconds as int,
                        g as int,
                    ),
                forall|t: int|
                    0 <= t < kept@.len() ==> survives_s(
                        old_entities[src[t]],
                        microseconds as int,
                        g as int,
                        old_entities[0].id,
                    ),
                forall|t: int|
                    0 <= t < old_entities.len() - self.entities@.len() && survives_s(
                        #[trigger] old_entities[t],
                        microseconds as int,
                        g as int,
                        old_entities[0].id,
                    ) ==> has_id(kept@, old_entities[t].id),
                !first ==> kept@.len() >= 1 && src[0] == 0,
                self.flags@ == old(self).flags@,
                self.circles@ == old(self).circles@,
                self.polygons@ == old(self).polygons@,
                self.next_id == old(self).next_id,
                self.main_ball_starting_position == old(self).main_ball_starting_position,
                self.restitution_mulipiler == old(self).restitution_mulipiler,
                self.friction_mulipiler == old(self).friction_mulipiler,
                self.gravity_mulipiler == old(self).gravity_mulipiler,
                self.static_friction_enabled == old(self).static_friction_enabled,
                self.dynamic_friction_enabled == old(self).dynamic_friction_enabled,
            decreases self.entities@.len(),
        {
            let ghost i = old_entities.len() - self.entities@.len();
            let mut ent = self.entities.remove(0);
            proof {
                assert(ent == old_entities[i]);
                assert(entity_ok(old_entities[i])) by {
                    assert(old(self).wf());
                }
            }
            if !ent.is_static {
                ent.shape.update_position(microseconds, g);
            }
            let d = ent.shape.data();
            let keep = d.centroid.y > LOWER_BOUND || first;
            proof {
                assert(d.centroid == integrated_centroid_s(old_entities[i], microseconds as int, g as int));
                assert(first <==> i == 0);
                if i != 0 {
                    assert(old_entities[i].id != old_entities[0].id);
                }
                assert(keep == survives_s(old_entities[i], microseconds as int, g as int, old_entities[0].id));
            }
            if keep {
                let ghost kept_prev = kept@;
                kept.push(ent);
                proof {
                    src = src.push(i);
                    assert forall|t: int|
                        0 <= t < old_entities.len() - self.entities@.len() && survives_s(
                            #[trigger] old_entities[t],
                            microseconds as int,
                            g as int,
                            old_entities[0].id,
                        ) implies has_id(kept@, old_entities[t].id) by {
                        if t < i {
                            assert(has_id(kept_prev, old_entities[t].id));
                            let w = choose|w: int|
                                0 <= w < kept_prev.len() && (#[trigger] kept_prev[w]).id
                                    == old_entities[t].id;
                            assert(kept@[w].id == old_entities[t].id);
                        } else {
                            assert(kept@[kept@.len() - 1].id == old_entities[i].id);
                        }
                    }
                }
            }
            first = false;
        }
        self.entities = kept;
        proof {
            assert forall|i2: int, j2: int|
                0 <= i2 < j2 < self.entities@.len() implies (#[trigger] self.entities@[i2]).id != (
            #[trigger] self.entities@[j2]).id by {
                assert(self.entities@[i2].id == old_entities[src[i2]].id);
                assert(self.entities@[j2].id == old_entities[src[j2]].id);
                assert(src[i2] < src[j2]);
            }
            assert forall|i2: int, k2: int, j2: int|
                0 <= i2 < self.entities@.len() && 0 <= k2 < self.entities@[i2].bindings@.len() && 0
                    <= j2 <= i2 implies (#[trigger] self.entities@[j2]).id != (
            #[trigger] self.entities@[i2].bindings@[k2]).1 by {
                assert(self.entities@[i2].bindings@ == old_entities[src[i2]].bindings@);
                assert(self.entities@[j2].id == old_entities[src[j2]].id);
                assert(src[j2] <= src[i2]);
            }
            assert forall|i2: int| 0 <= i2 < self.entities@.len() implies entity_ok(
                #[trigger] self.entities@[i2],
            ) by {
                assert(entity_ok(old_entities[src[i2]]));
            }
            assert forall|j: int| 0 <= j < self.entities@.len() implies exists|i: int|
                0 <= i < old(self).entities@.len() && integrated_like(
                    old(self).entities@[i],
                    #[trigger] self.entities@[j],
                    microseconds as int,
                    g as int,
                ) by {
                assert(integrated_like(
                    old_entities[src[j]],
                    self.entities@[j],
                    microseconds as int,
                    g as int,
                ));
            }
            assert forall|i: int|
                0 <= i < old(self).entities@.len() implies (survives_s(
                #[trigger] old(self).entities@[i],
                microseconds as int,
                g as int,
                old(self).entities@[0].id,
            ) <==> has_id(self.entities@, old(self).entities@[i].id)) by {
                if has_id(self.entities@, old_entities[i].id) {
                    let w = choose|w: int|
                        0 <= w < self.entities@.len() && (#[trigger] self.entities@[w]).id
                            == old_entities[i].id;
                    assert(self.entities@[w].id == old_entities[src[w]].id);
                    assert(old_entities[src[w]].id == old_entities[i].id);
                    assert(src[w] == i) by {
                        if src[w] != i {
                            assert(old(self).wf());
                        }
                    }
                    assert(survives_s(old_entities[i], microseconds as int, g as int, old_entities[0].id));
                }
            }
        }
    }

    /// Ball respawn: when the main ball's position exceeds the horizontal
    /// bound in absolute value or lies below the vertical bound, it is
    /// reset to the level's spawn point with zero linear and angular
    /// velocity; otherwise nothing changes.
    fn respawn_ball(&mut self)
        requires
            old(self).wf(),
        ensures
            respawn_rel(*old(self), *final(self)),
    {
        let ghost prev = self.entities@;
        let mut ball = self.entities.remove(0);
        let d = ball.shape.data();
        if fx_abs(d.centroid.x) > HORIZONTAL_BOUND || d.centroid.y < LOWER_BOUND {
            let mut nd = d;
            nd.centroid = self.main_ball_starting_position;
            nd.velocity = Vec2::zero();
            nd.angular_velocity = 0;
            ball.shape.set_data(nd);
        }
        self.entities.insert(0, ball);
        proof {
            assert(self.entities@ =~= prev.update(0, self.entities@[0]));
            assert forall|i2: int| 0 <= i2 < self.entities@.len() implies entity_ok(
                #[trigger] self.entities@[i2],
            ) by {
                assert(entity_ok(prev[i2]));
            }
            assert forall|i2: int, k2: int, j2: int|
                0 <= i2 < self.entities@.len() && 0 <= k2 < self.entities@[i2].bindings@.len() && 0
                    <= j2 <= i2 implies (#[trigger] self.entities@[j2]).id != (
            #[trigger] self.entities@[i2].bindings@[k2]).1 by {
                assert(self.entities@[i2].bindings@ == prev[i2].bindings@);
                assert(self.entities@[j2].id == prev[j2].id);
            }
        }
    }

    /// Pickup consumption: every flag whose square overlaps the main ball
    /// is removed, with no physical response.
    pub open spec fn flags_keep_s(ball: ShapeModel, flags: Seq<Shape>, n: int) -> Seq<Shape>
        decreases n,
    {
        if n <= 0 {
            Seq::empty()
        } else {
            let prev = Self::flags_keep_s(ball, flags, n - 1);
            if crate::compute::collision_s(ball, flags[n - 1]@) is None {
                prev.push(flags[n - 1])
            } else {
                prev
            }
        }
    }

    #[verifier::rlimit(100)]
    fn consume_flags(&mut self)
        requires
            old(self).wf(),
        ensures
            flags_rel(*old(self), *final(self)),
    {
        let ghost old_flags = self.flags@;
        let ghost prev_entities = self.entities@;
        let ghost ball_m = self.entities@[0].shape@;
        let ball = self.entities.remove(0);
        let mut kept: Vec<Shape> = Vec::new();
        while self.flags.len() > 0
            invariant
                self.flags@.len() <= old_flags.len(),
                self.flags@ =~= old_flags.skip(old_flags.len() - self.flags@.len()),
                ball.shape@ == ball_m,
                ball.shape@.wf(),
                forall|t: int| 0 <= t < old_flags.len() ==> (#[trigger] old_flags[t])@.wf(),
                forall|t: int| 0 <= t < kept@.len() ==> (#[trigger] kept@[t])@.wf(),
                kept@ == Self::flags_keep_s(
                    ball_m,
                    old_flags,
                    old_flags.len() - self.flags@.len(),
                ),
                old(self).wf(),
                prev_entities == old(self).entities@,
                old_flags == old(self).flags@,
                self.entities@ == prev_entities.remove(0),
                prev_entities.len() >= 1,
                ball == prev_entities[0],
                self.circles@ == old(self).circles@,
                self.polygons@ == old(self).polygons@,
                self.next_id == old(self).next_id,
                self.main_ball_starting_position == old(self).main_ball_starting_position,
                self.restitution_mulipiler == old(self).restitution_mulipiler,
                self.friction_mulipiler == old(self).friction_mulipiler,
                self.gravity_mulipiler == old(self).gravity_mulipiler,
                self.static_friction_enabled == old(self).static_friction_enabled,
                self.dynamic_friction_enabled == old(self).dynamic_friction_enabled,
            decreases self.flags@.len(),
        {
            let ghost i = old_flags.len() - self.flags@.len();
            let f = self.flags.remove(0);
            proof {
                assert(f == old_flags[i]);
            }
            let c = crate::compute::collision(&ball.shape, &f);
            if c.is_none() {
                kept.push(f);
            }
        }
        self.flags = kept;
        self.entities.insert(0, ball);
        proof {
            assert(self.entities@ =~= prev_entities);
        }
    }
}

/// What a resolution phase may change about one entity: its shape moves,
/// but identity, flags, pending anchors, shape kind and inverse mass terms
/// stay, the shape stays well formed, and a static shape does not change.
pub open spec fn phase_entry(b: Entity, a: Entity) -> bool {
    &&& a.id == b.id
    &&& a.is_erasable == b.is_erasable
    &&& a.is_bindable == b.is_bindable
    &&& a.is_static == b.is_static
    &&& a.unbound@ == b.unbound@
    &&& a.shape@.wf()
    &&& (a.shape@ is Circle) == (b.shape@ is Circle)
    &&& a.shape@.data().inv_mass == b.shape@.data().inv_mass
    &&& a.shape@.data().inv_inertia == b.shape@.data().inv_inertia
    &&& (b.is_static ==> a.shape@ == b.shape@)
}

/// `phase_entry`, element-wise over the whole arena.
pub open spec fn phase_frame(o: Seq<Entity>, e: Seq<Entity>) -> bool {
    &&& e.len() == o.len()
    &&& forall|j: int| 0 <= j < e.len() ==> phase_entry(o[j], #[trigger] e[j])
}

/// Everything except the shape is the same.
pub open spec fn same_but_shape(o: Entity, e: Entity) -> bool {
    &&& e.id == o.id
    &&& e.bindings@ == o.bindings@
    &&& e.unbound@ == o.unbound@
    &&& e.is_erasable == o.is_erasable
    &&& e.is_bindable == o.is_bindable
    &&& e.is_static == o.is_static
}

/// Whether one of the entity's bindings references this handle.
pub open spec fn bound_to_s(e: Entity, id: u64) -> bool {
    exists|k: int| 0 <= k < e.bindings@.len() && (#[trigger] e.bindings@[k]).1 == id
}

fn entity_bound_to(e: &Entity, id: u64) -> (r: bool)
    ensures
        r == bound_to_s(*e, id),
{
    let n = e.bindings.len();
    let mut k: usize = 0;
    while k < n
        invariant
            0 <= k <= n,
            n == e.bindings@.len(),
            forall|t: int| 0 <= t < k ==> (#[trigger] e.bindings@[t]).1 != id,
        decreases n - k,
    {
        if e.bindings[k].1 == id {
            return true;
        }
        k += 1;
    }
    false
}

fn find_index(entities: &Vec<Entity>, id: u64) -> (r: Option<usize>)
    ensures
        match r {
            Option::Some(j) => 0 <= j < entities@.len() && entities@[j as int].id == id,
            Option::None => !has_id(entities@, id),
        },
{
    let n = entities.len();
    let mut j: usize = 0;
    while j < n
        invariant
            0 <= j <= n,
            n == entities@.len(),
            forall|t: int| 0 <= t < j ==> (#[trigger] entities@[t]).id != id,
        decreases n - j,
    {
        if entities[j].id == id {
            return Some(j);
        }
        j += 1;
    }
    None
}

fn copy_verts(v: &Vec<Vec2>) -> (r: Vec<Vec2>)
    ensures
        r@ == v@,
{
    let mut r: Vec<Vec2> = Vec::new();
    let mut i: usize = 0;
    while i < v.len()
        invariant
            0 <= i <= v@.len(),
            r@ =~= v@.take(i as int),
        decreases v@.len() - i,
    {
        r.push(v[i]);
        i += 1;
    }
    proof {
        assert(r@ =~= v@);
    }
    r
}

/// Chaining phase steps: entity-wise frames compose.
proof fn lemma_phase_trans(orig: Seq<Entity>, b: Seq<Entity>, a: Seq<Entity>)
    requires
        phase_frame(orig, b),
        a.len() == b.len(),
        forall|t: int| 0 <= t < a.len() ==> phase_entry(b[t], #[trigger] a[t]),
    ensures
        phase_frame(orig, a),
{
    assert forall|t: int| 0 <= t < a.len() implies phase_entry(orig[t], #[trigger] a[t]) by {
        assert(phase_entry(orig[t], b[t]));
        assert(phase_entry(b[t], a[t]));
    }
}

/// A step that only moves shapes (identities, bindings, anchors and flags
/// unchanged) keeps the arena invariant.
proof fn lemma_wf_shapes_only(b: Engine, a: Engine)
    requires
        b.wf(),
        a.entities@.len() == b.entities@.len(),
        forall|t: int|
            0 <= t < a.entities@.len() ==> phase_entry(b.entities@[t], #[trigger] a.entities@[t]),
        forall|t: int|
            0 <= t < a.entities@.len() ==> (#[trigger] a.entities@[t]).bindings@ == b.entities@[
                t
            ].bindings@,
        a.flags@ == b.flags@,
        a.next_id == b.next_id,
    ensures
        a.wf(),
{
    assert forall|i2: int, j2: int|
        0 <= i2 < j2 < a.entities@.len() implies (#[trigger] a.entities@[i2]).id != (
    #[trigger] a.entities@[j2]).id by {
        assert(phase_entry(b.entities@[i2], a.entities@[i2]));
        assert(phase_entry(b.entities@[j2], a.entities@[j2]));
    }
    assert forall|i2: int| 0 <= i2 < a.entities@.len() implies (#[trigger] a.entities@[i2]).id
        < a.next_id by {
        assert(phase_entry(b.entities@[i2], a.entities@[i2]));
    }
    assert forall|i2: int| 0 <= i2 < a.entities@.len() implies entity_ok(
        #[trigger] a.entities@[i2],
    ) by {
        assert(phase_entry(b.entities@[i2], a.entities@[i2]));
        assert(entity_ok(b.entities@[i2]));
        if b.entities@[i2].is_static {
            assert(data_static(b.entities@[i2].shape@.data()));
            assert(a.entities@[i2].shape@ == b.entities@[i2].shape@);
        }
    }
    assert forall|i2: int, k2: int, j2: int|
        0 <= i2 < a.entities@.len() && 0 <= k2 < a.entities@[i2].bindings@.len() && 0 <= j2 <= i2
        implies (#[trigger] a.entities@[j2]).id != (
    #[trigger] a.entities@[i2].bindings@[k2]).1 by {
        assert(phase_entry(b.entities@[j2], a.entities@[j2]));
        assert(a.entities@[i2].bindings@ == b.entities@[i2].bindings@);
    }
    assert(phase_entry(b.entities@[0], a.entities@[0]));
}

/// Liveness of the bindings below `bound` survives a step that keeps every
/// identity and every binding list below `bound`.
proof fn lemma_live_prefix_preserved(b: Seq<Entity>, a: Seq<Entity>, bound: int)
    requires
        a.len() == b.len(),
        forall|t: int| 0 <= t < a.len() ==> (#[trigger] a[t]).id == b[t].id,
        forall|t: int| 0 <= t < a.len() && t < bound ==> (#[trigger] a[t]).bindings@ == b[t].bindings@,
        forall|t: int, k: int|
            0 <= t < bound && t < b.len() && 0 <= k < b[t].bindings@.len() ==> has_id(
                b,
                (#[trigger] b[t].bindings@[k]).1,
            ),
    ensures
        forall|t: int, k: int|
            0 <= t < bound && t < a.len() && 0 <= k < a[t].bindings@.len() ==> has_id(
                a,
                (#[trigger] a[t].bindings@[k]).1,
            ),
{
    assert forall|t: int, k: int|
        0 <= t < bound && t < a.len() && 0 <= k < a[t].bindings@.len() implies has_id(
        a,
        (#[trigger] a[t].bindings@[k]).1,
    ) by {
        let pid = a[t].bindings@[k].1;
        assert(b[t].bindings@[k].1 == pid);
        assert(has_id(b, pid));
        let w = choose|w: int| 0 <= w < b.len() && (#[trigger] b[w]).id == pid;
        assert(a[w].id == pid);
    }
}

impl Engine {
    /// Runs one resolution step between the entities at `i` and `j`
    /// (collision when `bind` is `None`, joint enforcement otherwise).
    #[verifier::rlimit(100)]
    fn resolve_pair(&mut self, i: usize, j: usize, bind: Option<Binding>, microseconds: i64)
        requires
            i < j,
            j < old(self).entities@.len(),
            old(self).entities@[i as int].shape@.wf(),
            old(self).entities@[j as int].shape@.wf(),
        ensures
            final(self).entities@.len() == old(self).entities@.len(),
            forall|t: int|
                0 <= t < old(self).entities@.len() && t != i && t != j
                    ==> #[trigger] final(self).entities@[t] == old(self).entities@[t],
            same_but_shape(old(self).entities@[i as int], final(self).entities@[i as int]),
            same_but_shape(old(self).entities@[j as int], final(self).entities@[j as int]),
            ({
                let oi = old(self).entities@[i as int].shape@;
                let oj = old(self).entities@[j as int].shape@;
                let dt = microseconds as int;
                let fm = old(self).friction_mulipiler as int;
                let sf = old(self).static_friction_enabled;
                let df = old(self).dynamic_friction_enabled;
                let (m1, m2) = match bind {
                    Option::None => crate::shape::collide_s(
                        oi,
                        oj,
                        dt,
                        old(self).restitution_mulipiler as int,
                        fm,
                        sf,
                        df,
                    ),
                    Option::Some(b) => crate::binding::enforce_s(b, oi, oj, dt, fm, sf, df),
                };
                final(self).entities@[i as int].shape@ == m1 && final(self).entities@[
                    j as int
                ].shape@ == m2
            }),
            final(self).entities@[i as int].shape@.wf(),
            final(self).entities@[j as int].shape@.wf(),
            (final(self).entities@[i as int].shape@ is Circle) == (old(self).entities@[
                i as int
            ].shape@ is Circle),
            (final(self).entities@[j as int].shape@ is Circle) == (old(self).entities@[
                j as int
            ].shape@ is Circle),
            final(self).entities@[i as int].shape@.data().inv_mass == old(self).entities@[
                i as int
            ].shape@.data().inv_mass,
            final(self).entities@[i as int].shape@.data().inv_inertia == old(self).entities@[
                i as int
            ].shape@.data().inv_inertia,
            final(self).entities@[j as int].shape@.data().inv_mass == old(self).entities@[
                j as int
            ].shape@.data().inv_mass,
            final(self).entities@[j as int].shape@.data().inv_inertia == old(self).entities@[
                j as int
            ].shape@.data().inv_inertia,
            data_static(old(self).entities@[i as int].shape@.data()) ==> final(self).entities@[
                i as int
            ].shape@ == old(self).entities@[i as int].shape@,
            data_static(old(self).entities@[j as int].shape@.data()) ==> final(self).entities@[
                j as int
            ].shape@ == old(self).entities@[j as int].shape@,
            final(self).flags@ == old(self).flags@,
            final(self).circles@ == old(self).circles@,
            final(self).polygons@ == old(self).polygons@,
            final(self).next_id == old(self).next_id,
            final(self).main_ball_starting_position == old(self).main_ball_starting_position,
            final(self).restitution_mulipiler == old(self).restitution_mulipiler,
            final(self).friction_mulipiler == old(self).friction_mulipiler,
            final(self).gravity_mulipiler == old(self).gravity_mulipiler,
            final(self).static_friction_enabled == old(self).static_friction_enabled,
            final(self).dynamic_friction_enabled == old(self).dynamic_friction_enabled,
    {
        let ghost prev = self.entities@;
        let mut ej = self.entities.remove(j);
        let mut ei = self.entities.remove(i);
        match bind {
            Option::None => {
                ei.shape.collide(
                    &mut ej.shape,
                    microseconds,
                    self.restitution_mulipiler,
                    self.friction_mulipiler,
                    self.static_friction_enabled,
                    self.dynamic_friction_enabled,
                );
            },
            Option::Some(b) => {
                b.enforce(
                    &mut ei.shape,
                    &mut ej.shape,
                    microseconds,
                    self.friction_mulipiler,
                    self.static_friction_enabled,
                    self.dynamic_friction_enabled,
                );
            },
        }
        self.entities.insert(i, ei);
        self.entities.insert(j, ej);
        proof {
            assert(self.entities@ =~= prev.update(i as int, ei).update(j as int, ej));
        }
    }

    /// Drops this entity's dead bindings: those whose partner handle no
    /// longer resolves.
    fn prune_bindings_at(&mut self, i: usize)
        requires
            old(self).wf(),
            i < old(self).entities@.len(),
        ensures
            final(self).wf(),
            final(self).entities@.len() == old(self).entities@.len(),
            forall|t: int|
                0 <= t < old(self).entities@.len() && t != i ==> #[trigger] final(self).entities@[
                    t
                ] == old(self).entities@[t],
            final(self).entities@[i as int].shape@ == old(self).entities@[i as int].shape@,
            final(self).entities@[i as int].unbound@ == old(self).entities@[i as int].unbound@,
            final(self).entities@[i as int].id == old(self).entities@[i as int].id,
            final(self).entities@[i as int].is_erasable == old(self).entities@[
                i as int
            ].is_erasable,
            final(self).entities@[i as int].is_bindable == old(self).entities@[
                i as int
            ].is_bindable,
            final(self).entities@[i as int].is_static == old(self).entities@[i as int].is_static,
            forall|k: int|
                0 <= k < final(self).entities@[i as int].bindings@.len() ==> has_id(
                    final(self).entities@,
                    (#[trigger] final(self).entities@[i as int].bindings@[k]).1,
                ),
            final(self).flags@ == old(self).flags@,
            final(self).circles@ == old(self).circles@,
            final(self).polygons@ == old(self).polygons@,
            final(self).next_id == old(self).next_id,
            final(self).main_ball_starting_position == old(self).main_ball_starting_position,
            final(self).restitution_mulipiler == old(self).restitution_mulipiler,
            final(self).friction_mulipiler == old(self).friction_mulipiler,
            final(self).gravity_mulipiler == old(self).gravity_mulipiler,
            final(self).static_friction_enabled == old(self).static_friction_enabled,
            final(self).dynamic_friction_enabled == old(self).dynamic_friction_enabled,
    {
        let ghost prev = self.entities@;
        let mut e = self.entities.remove(i);
        let ghost ob = e.bindings@;
        let mut kept: Vec<(Binding, u64)> = Vec::new();
        while e.bindings.len() > 0
            invariant
                e.bindings@.len() <= ob.len(),
                e.bindings@ =~= ob.skip(ob.len() - e.bindings@.len()),
                self.entities@ == prev.remove(i as int),
                0 <= i < prev.len(),
                e.id == prev[i as int].id,
                e.shape@ == prev[i as int].shape@,
                e.unbound@ == prev[i as int].unbound@,
                e.is_erasable == prev[i as int].is_erasable,
                e.is_bindable == prev[i as int].is_bindable,
                e.is_static == prev[i as int].is_static,
                ob == prev[i as int].bindings@,
                forall|k: int|
                    0 <= k < kept@.len() ==> exists|k2: int|
                        0 <= k2 < ob.len() && ob[k2] == #[trigger] kept@[k],
                forall|k: int|
                    0 <= k < kept@.len() ==> has_id(self.entities@, (#[trigger] kept@[k]).1),
            decreases e.bindings@.len(),
        {
            let ghost t = ob.len() - e.bindings@.len();
            let pair = e.bindings.remove(0);
            proof {
                assert(pair == ob[t]);
            }
            match find_index(&self.entities, pair.1) {
                Option::Some(_) => {
                    kept.push(pair);
                },
                Option::None => {},
            }
        }
        let ghost keptv = kept@;
        e.bindings = kept;
        let ghost enew = e;
        self.entities.insert(i, e);
        proof {
            assert(self.entities@ =~= prev.update(i as int, enew));
            assert forall|k: int|
                0 <= k < self.entities@[i as int].bindings@.len() implies has_id(
                self.entities@,
                (#[trigger] self.entities@[i as int].bindings@[k]).1,
            ) by {
                let pid = keptv[k].1;
                assert(has_id(prev.remove(i as int), pid));
                let w = choose|w: int|
                    0 <= w < prev.remove(i as int).len() && (#[trigger] prev.remove(i as int)[
                        w
                    ]).id == pid;
                if w < i {
                    assert(self.entities@[w].id == pid);
                } else {
                    assert(self.entities@[w + 1].id == pid);
                }
            }
            assert forall|i2: int, k2: int, j2: int|
                0 <= i2 < self.entities@.len() && 0 <= k2 < self.entities@[i2].bindings@.len() && 0
                    <= j2 <= i2 implies (#[trigger] self.entities@[j2]).id != (
            #[trigger] self.entities@[i2].bindings@[k2]).1 by {
                assert(self.entities@[j2].id == prev[j2].id);
                if i2 == i {
                    let w = choose|w: int| 0 <= w < ob.len() && ob[w] == keptv[k2];
                    assert(prev[i2].bindings@[w] == keptv[k2]);
                } else {
                    assert(self.entities@[i2].bindings@ == prev[i2].bindings@);
                }
            }
            assert forall|i2: int| 0 <= i2 < self.entities@.len() implies entity_ok(
                #[trigger] self.entities@[i2],
            ) by {
                assert(entity_ok(prev[i2]));
            }
        }
    }

    /// Pairwise collision: for every unordered pair of entities, a pair
    /// held together by a live binding passes through (dead bindings are
    /// pruned as encountered); the rest collide and resolve.
    #[verifier::rlimit(100)]
    fn collide_all(&mut self, microseconds: i64)
        requires
            old(self).wf(),
        ensures
            collide_rel(*old(self), *final(self), microseconds as int),
    {
        let n = self.entities.len();
        let mut i: usize = 0;
        while i < n
            invariant
                0 <= i <= n,
                n == self.entities@.len(),
                old(self).wf(),
                self.wf(),
                phase_frame(old(self).entities@, self.entities@),
                forall|t: int, k: int|
                    0 <= t < i && 0 <= k < self.entities@[t].bindings@.len() ==> has_id(
                        self.entities@,
                        (#[trigger] self.entities@[t].bindings@[k]).1,
                    ),
                self.flags@ == old(self).flags@,
                self.circles@ == old(self).circles@,
                self.polygons@ == old(self).polygons@,
                self.next_id == old(self).next_id,
                self.main_ball_starting_position == old(self).main_ball_starting_position,
                self.restitution_mulipiler == old(self).restitution_mulipiler,
                self.friction_mulipiler == old(self).friction_mulipiler,
                self.gravity_mulipiler == old(self).gravity_mulipiler,
                self.static_friction_enabled == old(self).static_friction_enabled,
                self.dynamic_friction_enabled == old(self).dynamic_friction_enabled,
            decreases n - i,
        {
            let ghost pre_prune = *self;
            self.prune_bindings_at(i);
            proof {
                assert forall|t: int| 0 <= t < n implies phase_entry(
                    pre_prune.entities@[t],
                    #[trigger] self.entities@[t],
                ) by {
                    assert(entity_ok(pre_prune.entities@[t]));
                    if t != i {
                        assert(self.entities@[t] == pre_prune.entities@[t]);
                    }
                }
                lemma_phase_trans(old(self).entities@, pre_prune.entities@, self.entities@);
                lemma_live_prefix_preserved(pre_prune.entities@, self.entities@, i as int);
            }
            let mut j: usize = i + 1;
            while j < n
                invariant
                    i < j <= n,
                    i < n,
                    n == self.entities@.len(),
                    old(self).wf(),
                    self.wf(),
                    phase_frame(old(self).entities@, self.entities@),
                    forall|t: int, k: int|
                        0 <= t <= i && 0 <= k < self.entities@[t].bindings@.len() ==> has_id(
                            self.entities@,
                            (#[trigger] self.entities@[t].bindings@[k]).1,
                        ),
                    self.flags@ == old(self).flags@,
                    self.circles@ == old(self).circles@,
                    self.polygons@ == old(self).polygons@,
                    self.next_id == old(self).next_id,
                    self.main_ball_starting_position == old(self).main_ball_starting_position,
                    self.restitution_mulipiler == old(self).restitution_mulipiler,
                    self.friction_mulipiler == old(self).friction_mulipiler,
                    self.gravity_mulipiler == old(self).gravity_mulipiler,
                    self.static_friction_enabled == old(self).static_friction_enabled,
                    self.dynamic_friction_enabled == old(self).dynamic_friction_enabled,
                decreases n - j,
            {
                let bound = entity_bound_to(&self.entities[i], self.entities[j].id);
                if !bound {
                    let ghost before = *self;
                    self.resolve_pair(i, j, None, microseconds);
                    proof {
                        assert forall|t: int| 0 <= t < n implies phase_entry(
                            before.entities@[t],
                            #[trigger] self.entities@[t],
                        ) by {
                            assert(entity_ok(before.entities@[t]));
                            if t != i && t != j {
                                assert(self.entities@[t] == before.entities@[t]);
                            } else if before.entities@[t].is_static {
                                assert(data_static(before.entities@[t].shape@.data()));
                            }
                        }
                        lemma_phase_trans(old(self).entities@, before.entities@, self.entities@);
                        lemma_wf_shapes_only(before, *self);
                        lemma_live_prefix_preserved(
                            before.entities@,
                            self.entities@,
                            i as int + 1,
                        );
                    }
                }
                j += 1;
            }
            i += 1;
        }
    }

    /// Constraint enforcement: every live binding's joint is enforced
    /// between its owner and its partner, after the collision pass.
    #[verifier::rlimit(100)]
    fn enforce_all(&mut self, microseconds: i64)
        requires
            old(self).wf(),
            bindings_live(old(self).entities@),
        ensures
            enforce_rel(*old(self), *final(self), microseconds as int),
    {
        let n = self.entities.len();
        let mut i: usize = 0;
        while i < n
            invariant
                0 <= i <= n,
                n == self.entities@.len(),
                old(self).wf(),
                self.wf(),
                phase_frame(old(self).entities@, self.entities@),
                forall|t: int|
                    0 <= t < n ==> #[trigger] self.entities@[t].bindings@ == old(self).entities@[
                        t
                    ].bindings@,
                bindings_live(self.entities@),
                self.flags@ == old(self).flags@,
                self.circles@ == old(self).circles@,
                self.polygons@ == old(self).polygons@,
                self.next_id == old(self).next_id,
                self.main_ball_starting_position == old(self).main_ball_starting_position,
                self.restitution_mulipiler == old(self).restitution_mulipiler,
                self.friction_mulipiler == old(self).friction_mulipiler,
                self.gravity_mulipiler == old(self).gravity_mulipiler,
                self.static_friction_enabled == old(self).static_friction_enabled,
                self.dynamic_friction_enabled == old(self).dynamic_friction_enabled,
            decreases n - i,
        {
            let nb = self.entities[i].bindings.len();
            let mut k: usize = 0;
            while k < nb
                invariant
                    0 <= k <= nb,
                    0 <= i < n,
                    n == self.entities@.len(),
                    nb == self.entities@[i as int].bindings@.len(),
                    old(self).wf(),
                    self.wf(),
                    phase_frame(old(self).entities@, self.entities@),
                    forall|t: int|
                        0 <= t < n ==> #[trigger] self.entities@[t].bindings@ == old(
                            self,
                        ).entities@[t].bindings@,
                    bindings_live(self.entities@),
                    self.flags@ == old(self).flags@,
                    self.circles@ == old(self).circles@,
                    self.polygons@ == old(self).polygons@,
                    self.next_id == old(self).next_id,
                    self.main_ball_starting_position == old(self).main_ball_starting_position,
                    self.restitution_mulipiler == old(self).restitution_mulipiler,
                    self.friction_mulipiler == old(self).friction_mulipiler,
                    self.gravity_mulipiler == old(self).gravity_mulipiler,
                    self.static_friction_enabled == old(self).static_friction_enabled,
                    self.dynamic_friction_enabled == old(self).dynamic_friction_enabled,
                decreases nb - k,
            {
                let pair = self.entities[i].bindings[k];
                proof {
                    assert(has_id(self.entities@, pair.1));
                }
                match find_index(&self.entities, pair.1) {
                    Option::Some(j) => {
                        proof {
                            assert(i < j) by {
                                if j <= i {
                                    assert(self.entities@[j as int].id != pair.1);
                                }
                            }
                        }
                        let ghost before = *self;
                        self.resolve_pair(i, j, Some(pair.0), microseconds);
                        proof {
                            assert forall|t: int| 0 <= t < n implies phase_entry(
                                before.entities@[t],
                                #[trigger] self.entities@[t],
                            ) by {
                                assert(entity_ok(before.entities@[t]));
                                if t != i && t != j {
                                    assert(self.entities@[t] == before.entities@[t]);
                                } else if before.entities@[t].is_static {
                                    assert(data_static(before.entities@[t].shape@.data()));
                                }
                            }
                            lemma_phase_trans(
                                old(self).entities@,
                                before.entities@,
                                self.entities@,
                            );
                            lemma_wf_shapes_only(before, *self);
                            lemma_live_prefix_preserved(before.entities@, self.entities@, n as int);
                        }
                    },
                    Option::None => {},
                }
                k += 1;
            }
            i += 1;
        }
    }


    /// Builds the per-tick snapshot, pruning render references whose entity
    /// is gone: surviving colored circles and polygons, remaining flags,
    /// world points of live hinge and rigid bindings, and world points of
    /// pending anchors, split by kind.
    #[verifier::rlimit(100)]
    #[verifier::rlimit(100)]
    fn prune_and_send_shapes(&mut self) -> (msg: DisplayMessage)
        requires
            old(self).wf(),
        ensures
            snapshot_rel(*old(self), *final(self), msg),
    {
        let mut rigid_bindings: Vec<Vec2> = Vec::new();
        let mut hinges: Vec<Vec2> = Vec::new();
        let mut unbound_rigid_bindings: Vec<Vec2> = Vec::new();
        let mut unbound_hinges: Vec<Vec2> = Vec::new();
        let ne = self.entities.len();
        proof {
            reveal(world_points_s);
        }
        let mut t: usize = 0;
        while t < ne
            invariant
                0 <= t <= ne,
                ne == self.entities@.len(),
                *self == *old(self),
                ({
                    let (h, r, uh, ur) = world_points_s(self.entities@, t as int);
                    hinges@ == h && rigid_bindings@ == r && unbound_hinges@ == uh
                        && unbound_rigid_bindings@ == ur
                }),
            decreases ne - t,
        {
            proof {
                reveal(world_points_s);
                reveal(entity_points_s);
                reveal(entity_unbound_points_s);
            }
            let ghost e_t = self.entities@[t as int];
            let ghost h0 = hinges@;
            let ghost r0 = rigid_bindings@;
            let ghost uh0 = unbound_hinges@;
            let ghost ur0 = unbound_rigid_bindings@;
            let nb = self.entities[t].bindings.len();
            let mut k: usize = 0;
            while k < nb
                invariant
                    0 <= k <= nb,
                    0 <= t < ne,
                    ne == self.entities@.len(),
                    *self == *old(self),
                    e_t == self.entities@[t as int],
                    nb == e_t.bindings@.len(),
                    ({
                        let (eh, er) = entity_points_s(e_t, k as int);
                        hinges@ == h0 + eh && rigid_bindings@ == r0 + er
                    }),
                    unbound_hinges@ == uh0,
                    unbound_rigid_bindings@ == ur0,
                decreases nb - k,
            {
                let ghost hprev = hinges@;
                let ghost rprev = rigid_bindings@;
                let pair = self.entities[t].bindings[k];
                match pair.0 {
                    Binding::Hinge { first, .. } => {
                        let p = first.on(&self.entities[t].shape);
                        hinges.push(p);
                    },
                    Binding::Rigid { first1, first2, .. } => {
                        let p1 = first1.on(&self.entities[t].shape);
                        let p2 = first2.on(&self.entities[t].shape);
                        rigid_bindings.push(p1.add(p2).scale(FX_HALF));
                    },
                }
                proof {
                    reveal(entity_points_s);
                    let (eh1, er1) = entity_points_s(e_t, k as int + 1);
                    assert(hinges@ =~= h0 + eh1);
                    assert(rigid_bindings@ =~= r0 + er1);
                }
                k += 1;
            }
            let nu = self.entities[t].unbound.len();
            let mut u: usize = 0;
            while u < nu
                invariant
                    0 <= u <= nu,
                    0 <= t < ne,
                    ne == self.entities@.len(),
                    *self == *old(self),
                    e_t == self.entities@[t as int],
                    nu == e_t.unbound@.len(),
                    ({
                        let (eh, er) = entity_points_s(e_t, e_t.bindings@.len() as int);
                        hinges@ == h0 + eh && rigid_bindings@ == r0 + er
                    }),
                    ({
                        let (euh, eur) = entity_unbound_points_s(e_t, u as int);
                        unbound_hinges@ == uh0 + euh && unbound_rigid_bindings@ == ur0 + eur
                    }),
                decreases nu - u,
            {
                match self.entities[t].unbound[u] {
                    Unbound::Hinge(p) => {
                        let w = p.on(&self.entities[t].shape);
                        unbound_hinges.push(w);
                    },
                    Unbound::Rigid(p) => {
                        let w = p.on(&self.entities[t].shape);
                        unbound_rigid_bindings.push(w);
                    },
                }
                proof {
                    reveal(entity_unbound_points_s);
                    let (euh1, eur1) = entity_unbound_points_s(e_t, u as int + 1);
                    assert(unbound_hinges@ =~= uh0 + euh1);
                    assert(unbound_rigid_bindings@ =~= ur0 + eur1);
                }
                u += 1;
            }
            proof {
                reveal(world_points_s);
                reveal(entity_points_s);
                reveal(entity_unbound_points_s);
                let (h1, r1, uh1, ur1) = world_points_s(self.entities@, t as int + 1);
                let (eh, er) = entity_points_s(e_t, e_t.bindings@.len() as int);
                let (euh, eur) = entity_unbound_points_s(e_t, e_t.unbound@.len() as int);
                assert(hinges@ == h0 + eh);
                assert(uh0 + euh == unbound_hinges@);
                assert(hinges@ =~= h1);
                assert(rigid_bindings@ =~= r1);
                assert(unbound_hinges@ =~= uh1);
                assert(unbound_rigid_bindings@ =~= ur1);
            }
            t += 1;
        }
        // prune and convert the circle render list
        let ghost old_centries = self.circles@;
        let mut kept_c: Vec<WithColor<u64>> = Vec::new();
        let mut out_c: Vec<WithColor<geometry::Circle>> = Vec::new();
        while self.circles.len() > 0
            invariant
                old(self).wf(),
                self.circles@.len() <= old_centries.len(),
                self.circles@ =~= old_centries.skip(old_centries.len() - self.circles@.len()),
                old_centries == old(self).circles@,
                self.entities@ == old(self).entities@,
                self.flags@ == old(self).flags@,
                self.polygons@ == old(self).polygons@,
                kept_c@ == prune_entries_s(
                    old_centries,
                    self.entities@,
                    true,
                    old_centries.len() - self.circles@.len(),
                ),
                out_c@.len() == kept_c@.len(),
                forall|k: int|
                    0 <= k < out_c@.len() ==> circle_record_ok(
                        self.entities@,
                        kept_c@[k],
                        #[trigger] out_c@[k],
                    ),
                self.next_id == old(self).next_id,
                self.main_ball_starting_position == old(self).main_ball_starting_position,
                self.restitution_mulipiler == old(self).restitution_mulipiler,
                self.friction_mulipiler == old(self).friction_mulipiler,
                self.gravity_mulipiler == old(self).gravity_mulipiler,
                self.static_friction_enabled == old(self).static_friction_enabled,
                self.dynamic_friction_enabled == old(self).dynamic_friction_enabled,
            decreases self.circles@.len(),
        {
            let ghost idx = old_centries.len() - self.circles@.len();
            let entry = self.circles.remove(0);
            proof {
                assert(entry == old_centries[idx]);
            }
            match find_index(&self.entities, entry.shape) {
                Option::Some(j) => {
                    match &self.entities[j].shape {
                        Shape::Circle(c) => {
                            proof {
                                assert(entry_live_s(self.entities@, entry, true)) by {
                                    assert(self.entities@[j as int].id == entry.shape);
                                }
                            }
                            let ghost out_prev = out_c@;
                            let ghost kept_prev = kept_c@;
                            out_c.push(
                                WithColor {
                                    color: entry.color,
                                    shape: geometry::Circle {
                                        center: c.data.centroid,
                                        radius: c.radius,
                                    },
                                },
                            );
                            kept_c.push(entry);
                            proof {
                                assert forall|k: int| 0 <= k < out_c@.len() implies
                                circle_record_ok(
                                    self.entities@,
                                    kept_c@[k],
                                    #[trigger] out_c@[k],
                                ) by {
                                    if k < out_prev.len() {
                                        assert(out_c@[k] == out_prev[k]);
                                        assert(kept_c@[k] == kept_prev[k]);
                                        assert(circle_record_ok(
                                            self.entities@,
                                            kept_prev[k],
                                            out_prev[k],
                                        ));
                                    } else {
                                        assert(self.entities@[j as int].id == entry.shape);
                                    }
                                }
                            }
                        },
                        Shape::Polygon(_) => {
                            proof {
                                assert(!entry_live_s(self.entities@, entry, true)) by {
                                    if entry_live_s(self.entities@, entry, true) {
                                        let j2 = choose|j2: int|
                                            0 <= j2 < self.entities@.len() && (
                                            #[trigger] self.entities@[j2]).id == entry.shape && (
                                            self.entities@[j2].shape@ is Circle) == true;
                                        assert(j2 == j as int);
                                    }
                                }
                            }
                        },
                    }
                },
                Option::None => {
                    proof {
                        assert(!entry_live_s(self.entities@, entry, true)) by {
                            if entry_live_s(self.entities@, entry, true) {
                                let j2 = choose|j2: int|
                                    0 <= j2 < self.entities@.len() && (
                                    #[trigger] self.entities@[j2]).id == entry.shape && (
                                    self.entities@[j2].shape@ is Circle) == true;
                                assert(has_id(self.entities@, entry.shape));
                            }
                        }
                    }
                },
            }
        }
        self.circles = kept_c;
        // prune and convert the polygon render list
        let ghost old_pentries = self.polygons@;
        let ghost circ_done = self.circles@;
        let mut kept_p: Vec<WithColor<u64>> = Vec::new();
        let mut out_p: Vec<WithColor<geometry::Polygon>> = Vec::new();
        while self.polygons.len() > 0
            invariant
                old(self).wf(),
                self.polygons@.len() <= old_pentries.len(),
                self.polygons@ =~= old_pentries.skip(old_pentries.len() - self.polygons@.len()),
                old_pentries == old(self).polygons@,
                self.entities@ == old(self).entities@,
                self.flags@ == old(self).flags@,
                self.circles@ == circ_done,
                kept_p@ == prune_entries_s(
                    old_pentries,
                    self.entities@,
                    false,
                    old_pentries.len() - self.polygons@.len(),
                ),
                out_p@.len() == kept_p@.len(),
                forall|k: int|
                    0 <= k < out_p@.len() ==> polygon_record_ok(
                        self.entities@,
                        kept_p@[k],
                        #[trigger] out_p@[k],
                    ),
                self.next_id == old(self).next_id,
                self.main_ball_starting_position == old(self).main_ball_starting_position,
                self.restitution_mulipiler == old(self).restitution_mulipiler,
                self.friction_mulipiler == old(self).friction_mulipiler,
                self.gravity_mulipiler == old(self).gravity_mulipiler,
                self.static_friction_enabled == old(self).static_friction_enabled,
                self.dynamic_friction_enabled == old(self).dynamic_friction_enabled,
            decreases self.polygons@.len(),
        {
            let ghost idx = old_pentries.len() - self.polygons@.len();
            let entry = self.polygons.remove(0);
            proof {
                assert(entry == old_pentries[idx]);
            }
            match find_index(&self.entities, entry.shape) {
                Option::Some(j) => {
                    match &self.entities[j].shape {
                        Shape::Polygon(pl) => {
                            proof {
                                assert(entry_live_s(self.entities@, entry, false)) by {
                                    assert(self.entities@[j as int].id == entry.shape);
                                }
                            }
                            let vertices = copy_verts(&pl.vertices);
                            let ghost out_prev = out_p@;
                            let ghost kept_prev = kept_p@;
                            out_p.push(
                                WithColor { color: entry.color, shape: geometry::Polygon { vertices } },
                            );
                            kept_p.push(entry);
                            proof {
                                assert forall|k: int| 0 <= k < out_p@.len() implies
                                polygon_record_ok(
                                    self.entities@,
                                    kept_p@[k],
                                    #[trigger] out_p@[k],
                                ) by {
                                    if k < out_prev.len() {
                                        assert(out_p@[k] == out_prev[k]);
                                        assert(kept_p@[k] == kept_prev[k]);
                                        assert(polygon_record_ok(
                                            self.entities@,
                                            kept_prev[k],
                                            out_prev[k],
                                        ));
                                    } else {
                                        assert(self.entities@[j as int].id == entry.shape);
                                    }
                                }
                            }
                        },
                        Shape::Circle(_) => {
                            proof {
                                assert(!entry_live_s(self.entities@, entry, false)) by {
                                    if entry_live_s(self.entities@, entry, false) {
                                        let j2 = choose|j2: int|
                                            0 <= j2 < self.entities@.len() && (
                                            #[trigger] self.entities@[j2]).id == entry.shape && (
                                            self.entities@[j2].shape@ is Circle) == false;
                                        assert(j2 == j as int);
                                    }
                                }
                            }
                        },
                    }
                },
                Option::None => {
                    proof {
                        assert(!entry_live_s(self.entities@, entry, false)) by {
                            if entry_live_s(self.entities@, entry, false) {
                                let j2 = choose|j2: int|
                                    0 <= j2 < self.entities@.len() && (
                                    #[trigger] self.entities@[j2]).id == entry.shape && (
                                    self.entities@[j2].shape@ is Circle) == false;
                                assert(has_id(self.entities@, entry.shape));
                            }
                        }
                    }
                },
            }
        }
        self.polygons = kept_p;
        // convert the flags
        let nf = self.flags.len();
        let mut out_f: Vec<geometry::Polygon> = Vec::new();
        let mut f: usize = 0;
        while f < nf
            invariant
                0 <= f <= nf,
                nf == self.flags@.len(),
                out_f@.len() == f,
                old(self).wf(),
                self.entities@ == old(self).entities@,
                self.flags@ == old(self).flags@,
                self.circles@ == circ_done,
                self.polygons@ == kept_p@,
                forall|k: int|
                    0 <= k < f ==> !(self.flags@[k]@ is Circle) ==> (
                    #[trigger] out_f@[k]).vertices@ == self.flags@[k]@->Polygon_verts,
                self.next_id == old(self).next_id,
                self.main_ball_starting_position == old(self).main_ball_starting_position,
                self.restitution_mulipiler == old(self).restitution_mulipiler,
                self.friction_mulipiler == old(self).friction_mulipiler,
                self.gravity_mulipiler == old(self).gravity_mulipiler,
                self.static_friction_enabled == old(self).static_friction_enabled,
                self.dynamic_friction_enabled == old(self).dynamic_friction_enabled,
            decreases nf - f,
        {
            match &self.flags[f] {
                Shape::Polygon(pl) => {
                    let vertices = copy_verts(&pl.vertices);
                    out_f.push(geometry::Polygon { vertices });
                },
                Shape::Circle(_) => {
                    out_f.push(geometry::Polygon { vertices: Vec::new() });
                },
            }
            f += 1;
        }
        DisplayMessage {
            polygons: out_p,
            circles: out_c,
            flags: out_f,
            rigid_bindings,
            hinges,
            unbound_rigid_bindings,
            unbound_hinges,
        }
    }

    /// One tick of the pipeline: integrate and cull, respawn the ball if
    /// out of bounds, consume overlapped flags, collide unbound pairs,
    /// enforce bindings, snapshot.
    pub fn run_iteration(&mut self, microseconds: i64) -> (msg: DisplayMessage)
        requires
            old(self).wf(),
        ensures
            ({
                exists|s1: Engine, s2: Engine, s3: Engine, s4: Engine, s5: Engine|
                    #![trigger respawn_rel(s1, s2), flags_rel(s2, s3), collide_rel(
                        s3,
                        s4,
                        microseconds as int,
                    ), enforce_rel(s4, s5, microseconds as int)]
                    {
                        &&& integrate_rel(*old(self), s1, microseconds as int)
                        &&& respawn_rel(s1, s2)
                        &&& flags_rel(s2, s3)
                        &&& collide_rel(s3, s4, microseconds as int)
                        &&& enforce_rel(s4, s5, microseconds as int)
                        &&& snapshot_rel(s5, *final(self), msg)
                    }
            }),
            final(self).wf(),
            final(self).entities@.len() >= 1,
            final(self).entities@[0].id == old(self).entities@[0].id,
            bindings_live(final(self).entities@),
            forall|j: int|
                0 <= j < final(self).entities@.len() && (#[trigger] final(self).entities@[
                    j
                ]).is_static ==> exists|i: int|
                    0 <= i < old(self).entities@.len() && old(self).entities@[i].is_static && old(
                        self,
                    ).entities@[i].id == final(self).entities@[j].id && final(self).entities@[
                        j
                    ].shape@ == old(self).entities@[i].shape@,
            final(self).main_ball_starting_position == old(self).main_ball_starting_position,
            final(self).restitution_mulipiler == old(self).restitution_mulipiler,
            final(self).friction_mulipiler == old(self).friction_mulipiler,
            final(self).gravity_mulipiler == old(self).gravity_mulipiler,
            final(self).static_friction_enabled == old(self).static_friction_enabled,
            final(self).dynamic_friction_enabled == old(self).dynamic_friction_enabled,
    {
        self.integrate_cull(microseconds);
        let ghost s1 = *self;
        self.respawn_ball();
        let ghost s2 = *self;
        self.consume_flags();
        let ghost s3 = *self;
        self.collide_all(microseconds);
        let ghost s4 = *self;
        self.enforce_all(microseconds);
        let ghost s5 = *self;
        let msg = self.prune_and_send_shapes();
        proof {
            assert(integrate_rel(*old(self), s1, microseconds as int));
            assert(respawn_rel(s1, s2));
            assert(flags_rel(s2, s3));
            assert(collide_rel(s3, s4, microseconds as int));
            assert(enforce_rel(s4, s5, microseconds as int));
            assert(snapshot_rel(s5, *self, msg));
            assert forall|j: int|
                0 <= j < self.entities@.len() && (#[trigger] self.entities@[j]).is_static implies
                exists|i: int|
                    0 <= i < old(self).entities@.len() && old(self).entities@[i].is_static && old(
                        self,
                    ).entities@[i].id == self.entities@[j].id && self.entities@[j].shape@ == old(
                        self,
                    ).entities@[i].shape@ by {
                assert(self.entities@[j] == s5.entities@[j]);
                assert(phase_frame(s4.entities@, s5.entities@));
                assert(phase_frame(s3.entities@, s4.entities@));
                assert(s3.entities@ == s2.entities@);
                if j >= 1 {
                    assert(s2.entities@[j] == s1.entities@[j]);
                } else {
                    assert(!s1.entities@[0].is_static);
                }
                let i = choose|i: int|
                    0 <= i < old(self).entities@.len() && integrated_like(
                        old(self).entities@[i],
                        s1.entities@[j],
                        microseconds as int,
                        old(self).gravity_mulipiler as int,
                    );
                assert(old(self).entities@[i].is_static);
            }
        }
        msg
    }
}

/// Removing an erasable entity (never at index zero: the ball is not
/// erasable) keeps every arena invariant.
proof fn lemma_remove_keeps_wf(e: Engine, i: int)
    requires
        e.wf(),
        0 <= i < e.entities@.len(),
        e.entities@[i].is_erasable,
    ensures
        ({
            let r = e.entities@.remove(i);
            &&& (forall|i2: int, j2: int|
                0 <= i2 < j2 < r.len() ==> (#[trigger] r[i2]).id != (#[trigger] r[j2]).id)
            &&& (forall|i2: int| 0 <= i2 < r.len() ==> (#[trigger] r[i2]).id < e.next_id)
            &&& (forall|i2: int| 0 <= i2 < r.len() ==> entity_ok(#[trigger] r[i2]))
            &&& (forall|i2: int, k2: int, j2: int|
                0 <= i2 < r.len() && 0 <= k2 < r[i2].bindings@.len() && 0 <= j2 <= i2 ==> (
                #[trigger] r[j2]).id != (#[trigger] r[i2].bindings@[k2]).1)
            &&& r.len() >= 1
            &&& !r[0].is_erasable
            &&& !r[0].is_static
            &&& r[0].shape@ is Circle
        }),
{
    let r = e.entities@.remove(i);
    assert(i != 0);
    assert(r[0] == e.entities@[0]);
    assert forall|i2: int, k2: int, j2: int|
        0 <= i2 < r.len() && 0 <= k2 < r[i2].bindings@.len() && 0 <= j2 <= i2 implies (
    #[trigger] r[j2]).id != (#[trigger] r[i2].bindings@[k2]).1 by {
        let oi = if i2 < i {
            i2
        } else {
            i2 + 1
        };
        let oj = if j2 < i {
            j2
        } else {
            j2 + 1
        };
        assert(r[i2] == e.entities@[oi]);
        assert(r[j2] == e.entities@[oj]);
    }
}

/// Replacing one entity by a copy that differs only in its pending anchors
/// keeps every arena invariant.
proof fn lemma_update_anchor_keeps_wf(before: Engine, after: Engine, i: int)
    requires
        before.wf(),
        0 <= i < before.entities@.len(),
        after.entities@.len() == before.entities@.len(),
        forall|t: int|
            0 <= t < before.entities@.len() && t != i ==> #[trigger] after.entities@[t]
                == before.entities@[t],
        after.entities@[i].shape@ == before.entities@[i].shape@,
        after.entities@[i].bindings@ == before.entities@[i].bindings@,
        after.entities@[i].id == before.entities@[i].id,
        after.entities@[i].is_erasable == before.entities@[i].is_erasable,
        after.entities@[i].is_bindable == before.entities@[i].is_bindable,
        after.entities@[i].is_static == before.entities@[i].is_static,
        after.next_id == before.next_id,
        after.flags@ == before.flags@,
    ensures
        after.wf(),
{
    assert forall|i2: int, j2: int|
        0 <= i2 < j2 < after.entities@.len() implies (#[trigger] after.entities@[i2]).id != (
    #[trigger] after.entities@[j2]).id by {
        assert(after.entities@[i2].id == before.entities@[i2].id);
        assert(after.entities@[j2].id == before.entities@[j2].id);
    }
    assert forall|i2: int| 0 <= i2 < after.entities@.len() implies (
    #[trigger] after.entities@[i2]).id < after.next_id by {
        assert(after.entities@[i2].id == before.entities@[i2].id);
    }
    assert forall|i2: int| 0 <= i2 < after.entities@.len() implies entity_ok(
        #[trigger] after.entities@[i2],
    ) by {
        assert(entity_ok(before.entities@[i2]));
        assert(after.entities@[i2].shape@ == before.entities@[i2].shape@);
        assert(after.entities@[i2].is_static == before.entities@[i2].is_static);
    }
    assert forall|i2: int, k2: int, j2: int|
        0 <= i2 < after.entities@.len() && 0 <= k2 < after.entities@[i2].bindings@.len() && 0 <= j2
            <= i2 implies (#[trigger] after.entities@[j2]).id != (
    #[trigger] after.entities@[i2].bindings@[k2]).1 by {
        assert(after.entities@[i2].bindings@ == before.entities@[i2].bindings@);
        assert(after.entities@[j2].id == before.entities@[j2].id);
    }
}

} // verus!
