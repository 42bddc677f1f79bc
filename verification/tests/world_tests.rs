use rollback_physics::geom::{group_triples, BodyKind, Iso, Material, RaycastResult, ShapeDesc, V3};
use rollback_physics::handles::BodyHandle;
use rollback_physics::proxy::BodyProxy;
use rollback_physics::world::{AttachError, World};

fn v(x: f32, y: f32, z: f32) -> V3 {
    V3 { x: x.to_bits(), y: y.to_bits(), z: z.to_bits() }
}

fn gravity() -> V3 {
    v(0.0, -9.81, 0.0)
}

fn mat() -> Material {
    Material { restitution: 0.0f32.to_bits(), density: 1.0f32.to_bits() }
}

fn ball(radius: f32) -> ShapeDesc {
    ShapeDesc::Ball { radius: radius.to_bits() }
}

fn ground() -> ShapeDesc {
    ShapeDesc::Cuboid {
        hx: 10.0f32.to_bits(),
        hy: 0.5f32.to_bits(),
        hz: 10.0f32.to_bits(),
    }
}

#[test]
fn fresh_world_starts_at_tick_zero() {
    let w = World::new(gravity());
    assert_eq!(w.current_tick(), 0);
    assert_eq!(w.poses().len(), 0);
}

#[test]
fn add_body_is_idempotent_within_a_tick() {
    let mut w = World::new(gravity());
    let h1 = w.add_body("player".to_string(), BodyKind::Dynamic, Iso::at(v(1.0, 2.0, 3.0)));
    let h2 = w.add_body("player".to_string(), BodyKind::Dynamic, Iso::at(v(9.0, 9.0, 9.0)));
    assert_eq!(h1, h2);
    assert_eq!(w.poses().len(), 1);
    let pose = w.body(h1).unwrap().pose;
    assert_eq!(pose.translation, v(1.0, 2.0, 3.0));
}

#[test]
fn removed_body_leaves_queries_and_colliders() {
    let mut w = World::new(gravity());
    let h = w.add_body("a".to_string(), BodyKind::Dynamic, Iso::at(v(0.0, 0.0, 0.0)));
    w.add_collider_to_body(&ball(0.5), mat(), Iso::at(v(0.0, 0.0, 0.0)), h).unwrap();
    // the spatial index reflects the last stepped state
    w.step();
    let before = w.bodies_within_sphere(v(0.0, 0.0, 0.0), 2.0f32.to_bits());
    assert_eq!(before, vec!["a".to_string()]);
    w.remove_body(h);
    let after = w.bodies_within_sphere(v(0.0, 0.0, 0.0), 1.0f32.to_bits());
    assert!(after.is_empty());
    assert!(w.body(h).is_none());
    // removal is idempotent on the now-stale handle
    w.remove_body(h);
    assert_eq!(w.poses().len(), 0);
}

#[test]
fn raycast_in_empty_world_misses() {
    let mut w = World::new(gravity());
    let h = w.add_body("lone".to_string(), BodyKind::Dynamic, Iso::at(v(0.0, 0.0, 0.0)));
    w.add_collider_to_body(&ball(0.5), mat(), Iso::at(v(0.0, 0.0, 0.0)), h).unwrap();
    let r = w.raycast(h, v(1.0, 0.0, 0.0), 1000.0f32.to_bits());
    assert!(matches!(r, RaycastResult::Miss));
}

#[test]
fn raycast_hits_the_other_body() {
    let mut w = World::new(v(0.0, 0.0, 0.0));
    let a = w.add_body("a".to_string(), BodyKind::Dynamic, Iso::at(v(0.0, 0.0, 0.0)));
    let b = w.add_body("b".to_string(), BodyKind::Fixed, Iso::at(v(5.0, 0.0, 0.0)));
    w.add_collider_to_body(&ball(1.0), mat(), Iso::at(v(0.0, 0.0, 0.0)), b).unwrap();
    // the spatial index reflects the last stepped state
    w.step();
    match w.raycast(a, v(1.0, 0.0, 0.0), 1000.0f32.to_bits()) {
        RaycastResult::Hit { id, distance } => {
            assert_eq!(id, "b");
            let d = f32::from_bits(distance);
            assert!((d - 4.0).abs() < 0.01, "distance was {d}");
        }
        RaycastResult::Miss => panic!("expected a hit"),
    }
}

#[test]
fn fixed_body_never_moves_under_gravity() {
    let mut w = World::new(gravity());
    let start = Iso::at(v(1.0, 2.0, 3.0));
    let h = w.add_body("anchor".to_string(), BodyKind::Fixed, start);
    w.add_collider_to_body(&ball(0.5), mat(), Iso::at(v(0.0, 0.0, 0.0)), h).unwrap();
    w.step_n(50);
    let m = w.body(h).unwrap();
    assert_eq!(m.pose, start, "a Fixed body's pose must be bit-identical");
    assert_eq!(m.linvel, v(0.0, 0.0, 0.0));
}

#[test]
fn dynamic_body_falls_and_settles_on_the_ground() {
    let mut w = World::new(gravity());
    let a = w.add_body("a".to_string(), BodyKind::Dynamic, Iso::at(v(0.0, 2.0, 0.0)));
    w.add_collider_to_body(&ball(0.5), mat(), Iso::at(v(0.0, 0.0, 0.0)), a).unwrap();
    let g = w.add_body("ground".to_string(), BodyKind::Fixed, Iso::at(v(0.0, -1.0, 0.0)));
    w.add_collider_to_body(&ground(), mat(), Iso::at(v(0.0, 0.0, 0.0)), g).unwrap();

    // ball bottom starts at 1.5, ground top is at -0.5: it falls 2.0 meters
    let mut prev_vy = 0.0f32;
    let mut contact_tick = None;
    for tick in 0..60 {
        w.step();
        let m = w.body(a).unwrap();
        let vy = f32::from_bits(m.linvel.y);
        if contact_tick.is_none() {
            if vy <= prev_vy {
                // still falling: speed grows monotonically in magnitude
                prev_vy = vy;
            } else {
                contact_tick = Some(tick);
            }
        }
    }
    assert!(contact_tick.is_some(), "the ball never touched down");
    let y = f32::from_bits(w.body(a).unwrap().pose.translation.y);
    // resting: ball bottom on the ground top, so its center is near 0.0
    assert!((y - 0.0).abs() < 0.1, "final height was {y}");
}

#[test]
fn rollback_restores_positions_exactly() {
    let mut w = World::new(gravity());
    let a = w.add_body("a".to_string(), BodyKind::Dynamic, Iso::at(v(0.0, 5.0, 0.0)));
    let b = w.add_body("b".to_string(), BodyKind::Dynamic, Iso::at(v(3.0, 5.0, 0.0)));
    w.add_collider_to_body(&ball(0.5), mat(), Iso::at(v(0.0, 0.0, 0.0)), a).unwrap();
    w.add_collider_to_body(&ball(0.5), mat(), Iso::at(v(0.0, 0.0, 0.0)), b).unwrap();
    let pa = w.body(a).unwrap().pose;
    let pb = w.body(b).unwrap().pose;
    w.step();
    assert_ne!(w.body(a).unwrap().pose, pa, "gravity should have moved the body");
    w.load_state(0);
    assert_eq!(w.current_tick(), 0);
    assert_eq!(w.body(a).unwrap().pose, pa);
    assert_eq!(w.body(b).unwrap().pose, pb);
    let ids: Vec<String> = w.poses().into_iter().map(|p| p.id).collect();
    assert_eq!(ids, vec!["a".to_string(), "b".to_string()]);
}

#[test]
fn replay_after_rollback_is_bit_identical() {
    let mut w = World::new(gravity());
    let a = w.add_body("a".to_string(), BodyKind::Dynamic, Iso::at(v(0.0, 4.0, 0.0)));
    w.add_collider_to_body(&ball(0.5), mat(), Iso::at(v(0.0, 0.0, 0.0)), a).unwrap();
    let g = w.add_body("ground".to_string(), BodyKind::Fixed, Iso::at(v(0.0, -1.0, 0.0)));
    w.add_collider_to_body(&ground(), mat(), Iso::at(v(0.0, 0.0, 0.0)), g).unwrap();

    let mut first_run = Vec::new();
    for _ in 0..10 {
        w.step();
        let m = w.body(a).unwrap();
        first_run.push((m.pose, m.linvel, m.angvel));
    }
    w.load_state(0);
    for tick in 0..10 {
        w.step();
        let m = w.body(a).unwrap();
        assert_eq!(
            (m.pose, m.linvel, m.angvel),
            first_run[tick],
            "replayed tick {} diverged",
            tick + 1
        );
    }
}

#[test]
fn degenerate_mesh_produces_no_collider() {
    let mut w = World::new(gravity());
    let a = w.add_body("a".to_string(), BodyKind::Dynamic, Iso::at(v(0.0, 0.0, 0.0)));
    let empty_mesh = ShapeDesc::Mesh { vertices: Vec::new(), triangles: Vec::new() };
    let r = w.add_collider_to_body(&empty_mesh, mat(), Iso::at(v(0.0, 0.0, 0.0)), a);
    assert_eq!(r, Err(AttachError::DegenerateShape));
    // the body has no collider, so the overlap query cannot see it
    let hits = w.bodies_within_sphere(v(0.0, 0.0, 0.0), 1.0f32.to_bits());
    assert!(hits.is_empty());
}

#[test]
fn mesh_with_one_triangle_attaches() {
    let mut w = World::new(gravity());
    let a = w.add_body("a".to_string(), BodyKind::Fixed, Iso::at(v(0.0, 0.0, 0.0)));
    let tri = ShapeDesc::Mesh {
        vertices: vec![v(0.0, 0.0, 0.0), v(1.0, 0.0, 0.0), v(0.0, 1.0, 0.0)],
        triangles: vec![[0, 1, 2]],
    };
    assert!(w.add_collider_to_body(&tri, mat(), Iso::at(v(0.0, 0.0, 0.0)), a).is_ok());
}

#[test]
fn attaching_to_an_unknown_parent_fails() {
    let mut w = World::new(gravity());
    let bogus = BodyHandle { index: 42, generation: 7 };
    let r = w.add_collider_to_body(&ball(0.5), mat(), Iso::at(v(0.0, 0.0, 0.0)), bogus);
    assert_eq!(r, Err(AttachError::ParentNotFound));
}

#[test]
fn remove_collider_returns_its_entry_once() {
    let mut w = World::new(gravity());
    let a = w.add_body("a".to_string(), BodyKind::Dynamic, Iso::at(v(0.0, 0.0, 0.0)));
    let ch = w.add_collider_to_body(&ball(0.5), mat(), Iso::at(v(0.0, 0.0, 0.0)), a).unwrap();
    let entry = w.remove_collider(ch).expect("the collider was attached");
    assert_eq!(entry.handle, ch);
    assert_eq!(entry.parent, a);
    assert!(w.remove_collider(ch).is_none(), "a second removal must miss");
}

#[test]
fn impulse_changes_velocity_at_once() {
    let mut w = World::new(v(0.0, 0.0, 0.0));
    let a = w.add_body("a".to_string(), BodyKind::Dynamic, Iso::at(v(0.0, 0.0, 0.0)));
    w.add_collider_to_body(&ball(0.5), mat(), Iso::at(v(0.0, 0.0, 0.0)), a).unwrap();
    assert_eq!(w.body(a).unwrap().linvel, v(0.0, 0.0, 0.0));
    assert!(w.apply_impulse(a, v(1.0, 0.0, 0.0)));
    let vx = f32::from_bits(w.body(a).unwrap().linvel.x);
    assert!(vx > 0.0, "the impulse should set a positive velocity, got {vx}");
    let stale = BodyHandle { index: 400, generation: 400 };
    assert!(!w.apply_impulse(stale, v(1.0, 0.0, 0.0)));
}

#[test]
fn mass_follows_the_attached_collider() {
    let mut w = World::new(gravity());
    let a = w.add_body("a".to_string(), BodyKind::Dynamic, Iso::at(v(0.0, 0.0, 0.0)));
    let none_attached = f32::from_bits(w.mass(a).unwrap());
    w.add_collider_to_body(&ball(0.5), mat(), Iso::at(v(0.0, 0.0, 0.0)), a).unwrap();
    let with_ball = f32::from_bits(w.mass(a).unwrap());
    assert_eq!(none_attached, 0.0);
    assert!(with_ball > 0.0, "density must give the body mass, got {with_ball}");
}

#[test]
fn rewind_to_an_unknown_tick_is_a_no_op() {
    let mut w = World::new(gravity());
    w.add_body("a".to_string(), BodyKind::Dynamic, Iso::at(v(0.0, 1.0, 0.0)));
    w.step();
    w.load_state(17);
    assert_eq!(w.current_tick(), 1);
}

#[test]
fn retention_bound_evicts_the_oldest_ticks() {
    let mut w = World::with_retention(gravity(), 2);
    w.add_body("a".to_string(), BodyKind::Dynamic, Iso::at(v(0.0, 1.0, 0.0)));
    w.step();
    w.step();
    w.step();
    assert_eq!(w.current_tick(), 3);
    // ticks 0 and 1 were evicted: rewinding to them is ignored
    w.load_state(0);
    assert_eq!(w.current_tick(), 3);
    w.load_state(2);
    assert_eq!(w.current_tick(), 2);
}

#[test]
fn move_shape_sweeps_and_rejects_degenerate_shapes() {
    let mut w = World::new(gravity());
    let a = w.add_body("a".to_string(), BodyKind::Dynamic, Iso::at(v(0.0, 5.0, 0.0)));
    let m = w
        .move_shape(
            (1.0f32 / 60.0).to_bits(),
            &ball(0.5),
            Iso::at(v(0.0, 5.0, 0.0)),
            v(1.0, 0.0, 0.0),
            a,
        )
        .expect("a ball is a usable sweep shape");
    let moved_x = f32::from_bits(m.translation.x);
    assert!((moved_x - 1.0).abs() < 0.01, "nothing blocks the sweep, got {moved_x}");
    let degenerate = ShapeDesc::Mesh { vertices: Vec::new(), triangles: Vec::new() };
    assert!(w
        .move_shape(
            (1.0f32 / 60.0).to_bits(),
            &degenerate,
            Iso::at(v(0.0, 5.0, 0.0)),
            v(1.0, 0.0, 0.0),
            a,
        )
        .is_none());
}

#[test]
fn sphere_query_deduplicates_by_body() {
    let mut w = World::new(gravity());
    let a = w.add_body("a".to_string(), BodyKind::Dynamic, Iso::at(v(0.0, 0.0, 0.0)));
    w.add_collider_to_body(&ball(0.5), mat(), Iso::at(v(-0.2, 0.0, 0.0)), a).unwrap();
    w.add_collider_to_body(&ball(0.5), mat(), Iso::at(v(0.2, 0.0, 0.0)), a).unwrap();
    w.step();
    let hits = w.bodies_within_sphere(v(0.0, 0.0, 0.0), 2.0f32.to_bits());
    assert_eq!(hits, vec!["a".to_string()], "two colliders of one body count once");
}

#[test]
fn sphere_query_only_reports_dynamic_bodies() {
    let mut w = World::new(gravity());
    let fixed = w.add_body("wall".to_string(), BodyKind::Fixed, Iso::at(v(0.0, 0.0, 0.0)));
    w.add_collider_to_body(&ball(0.5), mat(), Iso::at(v(0.0, 0.0, 0.0)), fixed).unwrap();
    w.step();
    let hits = w.bodies_within_sphere(v(0.0, 0.0, 0.0), 2.0f32.to_bits());
    assert!(hits.is_empty(), "a Fixed body must not be reported");
}

#[test]
fn group_triples_groups_and_drops_the_remainder() {
    let flat = vec![0u32, 1, 2, 2, 3, 0, 7, 8];
    let tris = group_triples(&flat);
    assert_eq!(tris, vec![[0u32, 1, 2], [2, 3, 0]]);
    assert!(group_triples(&Vec::new()).is_empty());
}

#[test]
fn accumulated_force_moves_the_body_on_the_next_step() {
    let mut w = World::new(v(0.0, 0.0, 0.0));
    let a = w.add_body("a".to_string(), BodyKind::Dynamic, Iso::at(v(0.0, 0.0, 0.0)));
    w.add_collider_to_body(&ball(0.5), mat(), Iso::at(v(0.0, 0.0, 0.0)), a).unwrap();
    assert!(w.add_force(a, v(50.0, 0.0, 0.0)));
    w.step();
    let vx = f32::from_bits(w.body(a).unwrap().linvel.x);
    assert!(vx > 0.0, "the accumulated force should accelerate the body, got {vx}");
    // forces are per-tick impulses: with no new force the velocity stays put
    let before = w.body(a).unwrap().linvel;
    w.step();
    assert_eq!(w.body(a).unwrap().linvel, before);
}

#[test]
fn torque_spins_the_body_on_the_next_step() {
    let mut w = World::new(v(0.0, 0.0, 0.0));
    let a = w.add_body("a".to_string(), BodyKind::Dynamic, Iso::at(v(0.0, 0.0, 0.0)));
    w.add_collider_to_body(&ball(0.5), mat(), Iso::at(v(0.0, 0.0, 0.0)), a).unwrap();
    assert_eq!(w.body(a).unwrap().angvel, v(0.0, 0.0, 0.0));
    assert!(w.add_torque(a, v(0.0, 10.0, 0.0)));
    w.step();
    let wy = f32::from_bits(w.body(a).unwrap().angvel.y);
    assert!(wy > 0.0, "the torque should spin the body, got {wy}");
}

#[test]
fn mesh_with_out_of_range_indices_produces_no_collider() {
    let mut w = World::new(gravity());
    let a = w.add_body("a".to_string(), BodyKind::Dynamic, Iso::at(v(0.0, 0.0, 0.0)));
    // index 3 points outside the two-vertex buffer: unusable geometry
    let broken = ShapeDesc::Mesh {
        vertices: vec![v(0.0, 0.0, 0.0), v(1.0, 0.0, 0.0)],
        triangles: vec![[0, 1, 3]],
    };
    assert_eq!(
        w.add_collider_to_body(&broken, mat(), Iso::at(v(0.0, 0.0, 0.0)), a),
        Err(AttachError::DegenerateShape)
    );
    let no_vertices = ShapeDesc::Mesh { vertices: Vec::new(), triangles: vec![[0, 0, 0]] };
    assert_eq!(
        w.add_collider_to_body(&no_vertices, mat(), Iso::at(v(0.0, 0.0, 0.0)), a),
        Err(AttachError::DegenerateShape)
    );
}

#[test]
fn proxy_lifecycle_registers_and_unregisters() {
    let mut w = World::new(gravity());
    let mut p = BodyProxy::new("node".to_string(), BodyKind::Dynamic);
    assert!(p.handle.is_none());
    assert!(!p.add_force(&mut w, v(1.0, 0.0, 0.0)), "an unregistered proxy routes nowhere");
    p.register(&mut w, Iso::at(v(0.0, 1.0, 0.0)));
    let h = p.handle.expect("registration caches the handle");
    assert!(p.add_collider(&mut w, &ball(0.5), mat(), Iso::at(v(0.0, 0.0, 0.0))).is_ok());
    assert_eq!(p.linear_velocity(&w), Some(v(0.0, 0.0, 0.0)));
    p.unregister(&mut w);
    assert!(p.handle.is_none());
    assert!(w.body(h).is_none(), "the body left the world with the proxy");
    // a second unregister is a silent no-op
    p.unregister(&mut w);
}
