use physics_engine::compute::{collision, hull};
use physics_engine::fx::{fx_div, fx_mul, fx_sin, fx_sqrt, FX_ONE};
use physics_engine::geometry::Vec2;
use physics_engine::levels::{Entity, Level};
use physics_engine::physics::Engine;
use physics_engine::shape::{Bounded, Circle, CollisionData, Polygon, Shape};

fn fx(v: f64) -> i64 {
    (v * 4294967296.0) as i64
}

fn to_f(v: i64) -> f64 {
    v as f64 / 4294967296.0
}

fn vec2(x: f64, y: f64) -> Vec2 {
    Vec2 { x: fx(x), y: fx(y) }
}

fn empty_level(ball_x: f64, ball_y: f64) -> Level {
    Level {
        initial_ball_position: vec2(ball_x, ball_y),
        circles: Vec::new(),
        polygons: Vec::new(),
        flags_positions: Vec::new(),
    }
}

#[test]
fn scalar_arithmetic_exact() {
    assert_eq!(fx_mul(2 * FX_ONE, 3 * FX_ONE), 6 * FX_ONE);
    assert_eq!(fx_div(6 * FX_ONE, 3 * FX_ONE), 2 * FX_ONE);
    assert_eq!(fx_sqrt(4 * FX_ONE), 2 * FX_ONE);
    assert_eq!(fx_div(FX_ONE, 0), 0);
    assert_eq!(fx_sin(0), 0);
    let half = fx_sin(fx(0.5235987755982988)); // sin(pi/6) = 0.5
    assert!((to_f(half) - 0.5).abs() < 1e-3);
}

#[test]
fn vector_operations_exact() {
    let a = vec2(1.0, 2.0);
    let b = vec2(3.0, -1.0);
    assert_eq!(a.dot(b), fx(1.0)); // 3 - 2
    assert_eq!(a.cross(b), fx(-7.0)); // -1 - 6
    let p = a.perpendicular();
    assert_eq!(p.x, fx(-2.0));
    assert_eq!(p.y, fx(1.0));
    assert_eq!(vec2(3.0, 4.0).norm(), fx(5.0));
}

#[test]
fn circle_containment() {
    let c = Circle::new(vec2(0.0, 0.0), fx(1.0));
    assert!(c.includes(vec2(0.5, 0.5)));
    assert!(!c.includes(vec2(1.5, 0.0)));
}

#[test]
fn polygon_containment() {
    let square = Polygon::new(vec![
        vec2(-1.0, -1.0),
        vec2(1.0, -1.0),
        vec2(1.0, 1.0),
        vec2(-1.0, 1.0),
    ]);
    assert!(square.includes(vec2(0.0, 0.0)));
    assert!(square.includes(vec2(0.9, 0.9)));
    assert!(!square.includes(vec2(2.0, 0.0)));
}

#[test]
fn collision_detects_overlap_and_separation() {
    let a = Shape::Circle(Circle::new(vec2(0.0, 0.0), fx(1.0)));
    let b = Shape::Circle(Circle::new(vec2(1.5, 0.0), fx(1.0)));
    let c = Shape::Circle(Circle::new(vec2(5.0, 0.0), fx(1.0)));
    assert!(collision(&a, &b).is_some());
    assert!(collision(&a, &c).is_none());
}

#[test]
fn hull_concave_input_contained() {
    // a concave "arrow" plus interior points
    let pts = vec![
        vec2(0.0, 0.0),
        vec2(2.0, 0.0),
        vec2(1.0, 0.5), // concave notch
        vec2(2.0, 2.0),
        vec2(0.0, 2.0),
        vec2(0.5, 0.5),
        vec2(1.5, 1.5),
    ];
    let h = hull(&pts);
    assert!(h.vertices.len() <= 24);
    for p in &pts {
        assert!(h.includes(*p), "hull must contain every input point");
    }
}

#[test]
fn hull_many_corners_capped() {
    // 100 points on a circle: the raw hull would need 100 vertices
    let mut pts = Vec::new();
    for i in 0..100u32 {
        let ang = (i as f64) * 0.06283185307179587;
        pts.push(vec2(ang.cos(), ang.sin()));
    }
    let h = hull(&pts);
    assert!(h.vertices.len() <= 24);
    for p in &pts {
        assert!(h.includes(*p), "capped hull must still contain every input point");
    }
}

#[test]
fn add_hinge_outside_everything_is_noop() {
    let mut engine = Engine::new(empty_level(0.0, 0.0));
    let before: usize = engine.entities.iter().map(|e| e.unbound.len()).sum();
    engine.add_hinge(vec2(50.0, 50.0));
    engine.add_rigid(vec2(-40.0, 30.0));
    let after: usize = engine.entities.iter().map(|e| e.unbound.len()).sum();
    assert_eq!(before, after);
}

#[test]
fn ball_respawns_with_zero_velocity() {
    // ball falls under gravity, breaches the lower bound, and resets
    let spawn = vec2(0.0, 1.0);
    let mut engine = Engine::new(empty_level(0.0, 1.0));
    let mut respawned = false;
    for _ in 0..500 {
        engine.run_iteration(fx(16666.0));
        assert!(!engine.entities.is_empty(), "the main ball is never removed");
        let d = engine.entities[0].shape.data();
        if d.centroid == spawn && d.velocity.x == 0 && d.velocity.y == 0 && d.angular_velocity == 0
        {
            respawned = true;
            break;
        }
    }
    assert!(respawned, "ball must reset to the spawn point with zero velocity");
}

#[test]
fn dead_binding_dropped_without_crash() {
    let mut engine = Engine::new(empty_level(0.0, 50.0));
    engine.set_gravity_multipier(0);
    engine.add_circle(Circle::new(vec2(10.0, 0.0), fx(1.0)));
    let holder = engine.entities.len() - 1;
    engine.add_rigid(vec2(10.0, 0.0));
    assert_eq!(engine.entities[holder].unbound.len(), 1);
    // a second circle over the anchor completes the binding
    engine.add_circle(Circle::new(vec2(10.0, 0.2), fx(1.0)));
    assert_eq!(engine.entities[holder].unbound.len(), 0);
    assert_eq!(engine.entities[holder].bindings.len(), 1);
    // erase the partner; the binding is dropped on the next tick, silently
    engine.erase_at(vec2(10.0, 1.1));
    engine.run_iteration(fx(1000.0));
    assert_eq!(engine.entities[holder].bindings.len(), 0);
}

#[test]
fn rigid_binding_keeps_offset_in_free_fall() {
    let mut engine = Engine::new(empty_level(0.0, 500.0));
    engine.add_circle(Circle::new(vec2(10.0, 0.0), fx(1.0)));
    engine.add_rigid(vec2(10.0, 0.3));
    engine.add_circle(Circle::new(vec2(10.0, 0.6), fx(1.0)));
    let holder = 1;
    assert_eq!(engine.entities[holder].bindings.len(), 1);
    let msg0 = engine.run_iteration(fx(100.0));
    assert_eq!(msg0.rigid_bindings.len(), 1, "snapshot reports the live rigid binding");
    let d0 = {
        let a = engine.entities[1].shape.data().centroid;
        let b = engine.entities[2].shape.data().centroid;
        (to_f(b.x - a.x), to_f(b.y - a.y))
    };
    for _ in 0..1000 {
        engine.run_iteration(fx(100.0));
    }
    assert_eq!(engine.entities.len(), 3);
    let d1 = {
        let a = engine.entities[1].shape.data().centroid;
        let b = engine.entities[2].shape.data().centroid;
        (to_f(b.x - a.x), to_f(b.y - a.y))
    };
    assert!((d0.0 - d1.0).abs() < 0.05, "x offset drifted: {} vs {}", d0.0, d1.0);
    assert!((d0.1 - d1.1).abs() < 0.05, "y offset drifted: {} vs {}", d0.1, d1.1);
}

#[test]
fn ball_settles_on_static_ground() {
    let level = Level {
        initial_ball_position: vec2(0.0, 1.0),
        circles: Vec::new(),
        polygons: vec![Entity {
            shape: vec![vec2(-3.0, -1.0), vec2(3.0, -1.0), vec2(3.0, 0.0), vec2(-3.0, 0.0)],
            is_static: true,
            is_bindable: false,
        }],
        flags_positions: Vec::new(),
    };
    let mut engine = Engine::new(level);
    for _ in 0..4000 {
        engine.run_iteration(fx(1000.0));
    }
    let d = engine.entities[0].shape.data();
    let y = to_f(d.centroid.y);
    let vy = to_f(d.velocity.y);
    assert!(vy.abs() < 0.05, "vertical velocity should die out, got {vy}");
    // resting on the ground surface (y = 0) with radius 0.1
    assert!((y - 0.1).abs() < 0.15, "ball should rest at the surface, got {y}");
}

#[test]
fn static_ground_never_moves() {
    let level = Level {
        initial_ball_position: vec2(0.0, 1.0),
        circles: Vec::new(),
        polygons: vec![Entity {
            shape: vec![vec2(-3.0, -1.0), vec2(3.0, -1.0), vec2(3.0, 0.0), vec2(-3.0, 0.0)],
            is_static: true,
            is_bindable: false,
        }],
        flags_positions: Vec::new(),
    };
    let mut engine = Engine::new(level);
    let before = engine.entities[1].shape.data();
    for _ in 0..500 {
        engine.run_iteration(fx(1000.0));
    }
    let after = engine.entities[1].shape.data();
    assert_eq!(before.centroid, after.centroid);
    assert_eq!(before.velocity, after.velocity);
    assert_eq!(before.angular_velocity, after.angular_velocity);
}

#[test]
fn flag_consumed_by_ball() {
    let level = Level {
        initial_ball_position: vec2(0.0, 0.0),
        circles: Vec::new(),
        polygons: Vec::new(),
        flags_positions: vec![vec2(0.0, 0.0), vec2(20.0, 0.0)],
    };
    let mut engine = Engine::new(level);
    engine.set_gravity_multipier(0);
    let msg = engine.run_iteration(fx(1000.0));
    assert_eq!(msg.flags.len(), 1, "the flag under the ball is picked up");
}

#[test]
fn render_color_survives_resnapshotting() {
    let mut engine = Engine::new(empty_level(0.0, 100.0));
    engine.set_gravity_multipier(0);
    engine.add_circle(Circle::new(vec2(5.0, 0.0), fx(1.0)));
    let entry = engine.circles.last().unwrap();
    let id = entry.shape;
    let color = entry.color;
    engine.run_iteration(fx(1000.0));
    engine.run_iteration(fx(1000.0));
    let kept = engine.circles.iter().find(|e| e.shape == id).expect("entry kept");
    assert_eq!(kept.color, color);
}

#[test]
fn support_vector_is_extremal_vertex() {
    let square = Polygon::new(vec![
        vec2(-1.0, -1.0),
        vec2(1.0, -1.0),
        vec2(1.0, 1.0),
        vec2(-1.0, 1.0),
    ]);
    let s = square.support_vector(vec2(1.0, 1.0));
    assert_eq!(s, vec2(1.0, 1.0));
}

#[test]
fn momentum_conserved_head_on() {
    let body = |x: f64, vx: f64| {
        Shape::Circle(Circle {
            radius: fx(1.0),
            data: CollisionData {
                centroid: vec2(x, 0.0),
                inv_mass: FX_ONE,
                inv_inertia: FX_ONE,
                velocity: vec2(vx, 0.0),
                angular_velocity: 0,
                rotation: 0,
            },
        })
    };
    let mut a = body(0.0, 1.0);
    let mut b = body(1.5, -1.0);
    let sum_before = (
        a.data().velocity.x + b.data().velocity.x,
        a.data().velocity.y + b.data().velocity.y,
    );
    // restitution multiplier 1.0, friction off
    a.collide(&mut b, fx(1000.0), FX_ONE, 0, false, false);
    let sum_after = (
        a.data().velocity.x + b.data().velocity.x,
        a.data().velocity.y + b.data().velocity.y,
    );
    assert_eq!(sum_before, sum_after);
    // and the pass actually changed the individual velocities
    assert!(a.data().velocity.x != fx(1.0));
}

#[test]
fn flag_square_is_centered_on_its_position() {
    let level = Level {
        initial_ball_position: vec2(0.0, 50.0),
        circles: Vec::new(),
        polygons: Vec::new(),
        flags_positions: vec![vec2(5.0, 5.0)],
    };
    let engine = Engine::new(level);
    let flag = &engine.flags[0];
    assert!(flag.includes(vec2(5.0, 5.0)));
    assert!(flag.includes(vec2(4.96, 4.96)));
    assert!(flag.includes(vec2(5.04, 5.04)));
    assert!(!flag.includes(vec2(5.2, 5.0)));
    assert!(!flag.includes(vec2(4.8, 5.0)));
}
