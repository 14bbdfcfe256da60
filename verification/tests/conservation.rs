use celestial::body::{BodyId, CelestialBody};
use celestial::gravity::apply_gravity;
use celestial::registry::{add_celestial_body, BodyRegistry};
use celestial::scalar::Scalar;
use celestial::vector::Vec2;

const RAW: f64 = 1_000_000.0;

fn fixed(x: f64) -> Scalar {
    Scalar::from_raw((x * RAW).round() as i64)
}

fn float(s: Scalar) -> f64 {
    s.raw() as f64 / RAW
}

fn spawn(registry: &mut BodyRegistry, p: (f64, f64), v: (f64, f64), mass: f64) -> BodyId {
    let body = CelestialBody {
        position: Vec2::new(fixed(p.0), fixed(p.1)),
        velocity: Vec2::new(fixed(v.0), fixed(v.1)),
        mass: fixed(mass),
    };
    add_celestial_body(registry, body).unwrap()
}

/// One step of a semi-implicit Euler integrator, as a physics backend would
/// make it: velocities from the accumulated forces, positions from the new
/// velocities.
fn integrate(registry: &mut BodyRegistry, dt: f64) {
    for i in 0..registry.len() {
        let b = registry.body_at(i).unwrap();
        let m = float(b.mass);
        let vx = float(b.velocity.x) + b.force.x as f64 / RAW / m * dt;
        let vy = float(b.velocity.y) + b.force.y as f64 / RAW / m * dt;
        let px = float(b.position.x) + vx * dt;
        let py = float(b.position.y) + vy * dt;
        registry.set_velocity(b.id, Vec2::new(fixed(vx), fixed(vy))).unwrap();
        registry.set_position(b.id, Vec2::new(fixed(px), fixed(py))).unwrap();
    }
}

fn momentum(registry: &BodyRegistry) -> (f64, f64) {
    let mut p = (0.0, 0.0);
    for i in 0..registry.len() {
        let b = registry.body_at(i).unwrap();
        p.0 += float(b.mass) * float(b.velocity.x);
        p.1 += float(b.mass) * float(b.velocity.y);
    }
    p
}

#[test]
fn isolated_pair_keeps_its_momentum() {
    let mut registry = BodyRegistry::new();
    spawn(&mut registry, (0.0, 0.0), (0.0, -2.0), 10.0);
    spawn(&mut registry, (20.0, 0.0), (0.0, 9.0), 5.0);
    let before = momentum(&registry);
    let size = (before.0 * before.0 + before.1 * before.1).sqrt();
    assert!(size > 20.0);
    for _ in 0..5000 {
        apply_gravity(&mut registry, fixed(10.0), fixed(1.0));
        let a = registry.body_at(0).unwrap().force;
        let b = registry.body_at(1).unwrap().force;
        assert_eq!((a.x + b.x, a.y + b.y), (0, 0));
        integrate(&mut registry, 0.001);
    }
    let after = momentum(&registry);
    let drift = ((after.0 - before.0).powi(2) + (after.1 - before.1).powi(2)).sqrt();
    assert!(drift <= 1e-3 * size, "momentum drifted by {}", drift);
    // The pair has moved: the test is not about bodies at rest.
    let moved = registry.body_at(1).unwrap().position;
    assert!(moved != Vec2::new(fixed(20.0), fixed(0.0)));
}

#[test]
fn isolated_pair_stays_bound_on_a_circular_orbit() {
    // Two bodies of mass 10, 4 apart, circle their common centre at radius 2
    // with the speed v for which m v^2 / 2 = G m m / 16: v = sqrt(12.5).
    let mut registry = BodyRegistry::new();
    spawn(&mut registry, (-2.0, 0.0), (0.0, -3.535534), 10.0);
    spawn(&mut registry, (2.0, 0.0), (0.0, 3.535534), 10.0);
    for _ in 0..20000 {
        apply_gravity(&mut registry, fixed(10.0), fixed(1.0));
        integrate(&mut registry, 0.0005);
    }
    let a = registry.body_at(0).unwrap().position;
    let b = registry.body_at(1).unwrap().position;
    let d = ((float(a.x) - float(b.x)).powi(2) + (float(a.y) - float(b.y)).powi(2)).sqrt();
    assert!((d - 4.0).abs() < 0.1, "distance drifted to {}", d);
}
